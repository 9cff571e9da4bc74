use flisp::codegen::assemble;
use flisp::fmem::{emit_fmem, parse_fmem};
use flisp::s19::{emit_s19, load_records, parse_s19, s19_records, ReaderErrorKind, S19ParseError};

fn sample_images() -> Vec<[u8; 256]> {
    let mut out = Vec::new();
    let mut a = [0u8; 256];
    a[0] = 1;
    a[1] = 2;
    a[4] = 3;
    out.push(a);
    let mut b = [0u8; 256];
    for i in 0..256 {
        b[i] = (i as u8).wrapping_mul(7).wrapping_add(1);
    }
    out.push(b);
    let mut c = [0u8; 256];
    for i in (0..256).step_by(3) {
        c[i] = 0x5a;
    }
    c[255] = 0x20;
    out.push(c);
    out.push([0u8; 256]);
    out.push(assemble("ORG $20\n LDA #1\n ADDA 16\n ORG $FF\n FCB $20\n", "t".to_string()).unwrap());
    out
}

#[test]
fn two_zero_bytes_split_a_record() {
    let mut mem = [0u8; 256];
    mem[0] = 1;
    mem[1] = 2;
    mem[4] = 3;
    let recs = s19_records(&mem);
    assert_eq!(recs, vec![(0, vec![1, 2]), (4, vec![3])]);
    mem[3] = 9;
    let recs = s19_records(&mem);
    assert_eq!(recs, vec![(0, vec![1, 2, 0, 9, 3])]);
}

#[test]
fn records_hold_at_most_thirty_bytes() {
    let mem = [0xaau8; 256];
    let recs = s19_records(&mem);
    assert!(recs.iter().all(|(_, d)| d.len() <= 30));
    assert_eq!(recs.len(), 9);
    assert_eq!(recs[8], (240, vec![0xaa; 16]));
}

#[test]
fn records_load_back_into_the_image() {
    for mem in sample_images() {
        let mut recs: Vec<(u8, u32, Vec<u8>)> =
            s19_records(&mem).into_iter().map(|(a, d)| (1u8, a as u32, d)).collect();
        if mem[255] != 0 {
            recs.push((9, mem[255] as u32, Vec::new()));
        }
        assert_eq!(load_records(&recs), Ok(mem));
    }
}

#[test]
fn s19_text_reads_back_into_the_image() {
    for mem in sample_images() {
        let text = emit_s19(&mem);
        assert_eq!(parse_s19(&text), Ok(mem));
    }
}

#[test]
fn fmem_text_reads_back_into_the_image() {
    for mem in sample_images() {
        let text = emit_fmem(&mem, "test.fmem");
        let back = parse_fmem(&text).expect("reads");
        assert_eq!(back.mem, mem);
        assert!(back.clear_all_memory);
        assert!(back.clear_all_registers);
    }
}

#[test]
fn fmem_reader_reports_bad_lines() {
    let e = parse_fmem("File: x\n # setMemory 1=02\n").unwrap_err();
    assert_eq!(e.msg, "address must be exactly two hex digits");
    assert_eq!((e.span.start, e.span.end), (8, 25));
    let e = parse_fmem("# bogus\n").unwrap_err();
    assert_eq!(e.msg, "unknown directive");
    let e = parse_fmem("#setMemory 1G=02").unwrap_err();
    assert_eq!(e.msg, "invalid hex digit");
    let e = parse_fmem("#setMemory 10").unwrap_err();
    assert_eq!(e.msg, "expected <adr>=<val>");
    let ok = parse_fmem("  #setMemory 0a = ff \r\nplain text\n").unwrap();
    assert_eq!(ok.mem[0x0a], 0xff);
    assert!(!ok.clear_all_memory);
}

#[test]
fn s19_loader_errors() {
    use_loader_errors();
}

fn use_loader_errors() {
    assert_eq!(
        parse_s19("garbage\n"),
        Err(S19ParseError::Reader(ReaderErrorKind::UnexpectedCharacter))
    );
    assert_eq!(
        parse_s19("S104000001FB\n"),
        Err(S19ParseError::Reader(ReaderErrorKind::ChecksumMismatch))
    );
    assert_eq!(load_records(&vec![(5, 0, vec![])]), Err(S19ParseError::UnsupportedRecordType(5)));
    assert_eq!(load_records(&vec![(1, 0x100, vec![1])]), Err(S19ParseError::AddrTooLarge(1, 0x100)));
    assert_eq!(load_records(&vec![(9, 0x1234, vec![])]), Err(S19ParseError::AddrTooLarge(9, 0x1234)));
    let mem = load_records(&vec![(0, 0, vec![]), (1, 0xfe, vec![1, 2, 3]), (9, 0x40, vec![])]).unwrap();
    assert_eq!(mem[0xfe], 1);
    assert_eq!(mem[0x00], 3);
    assert_eq!(mem[0xff], 0x40);
}

#[test]
fn fmem_value_must_have_two_digits() {
    let e = parse_fmem("#setMemory 10=2").unwrap_err();
    assert_eq!(e.msg, "value must be exactly two hex digits");
}

#[test]
fn s19_text_the_reader_cannot_take_is_refused() {
    assert_eq!(parse_s19("S001FE\n"), Err(S19ParseError::Unreadable));
    assert_eq!(parse_s19("S0040000FFFC\n"), Err(S19ParseError::Unreadable));
    assert_eq!(parse_s19("\u{e9}\n"), Err(S19ParseError::Unreadable));
    let mem = parse_s19("S00600004844521B\n  S104000001FA\r\n").unwrap();
    assert_eq!(mem[0], 1);
}
