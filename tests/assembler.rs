use flisp::codegen::{assemble, AssembleError, Memory, MemoryError};
use flisp::fmem::emit_fmem;
use flisp::lexer::{Lexer, Span, TokenKind, TokenValue};
use flisp::lexer::{parse_directive, parse_named_literal, Directive, NamedLiteral};
use flisp::parser::{AsmLine, Parser};
use flisp::s19::emit_s19;

fn image(src: &str) -> [u8; 256] {
    match assemble(src, "test.sflisp".to_string()) {
        Ok(mem) => mem,
        Err(e) => panic!("assembly failed: {:?}", e),
    }
}

#[test]
fn all_adda() {
    let mem = image(
        "
    ORG $20
    ; #Data
    ADDA #1
    ADDA #16
    ADDA #$10
    ADDA #%00010000

    ; Adr
    ADDA 16
    ADDA $10
    ADDA %00010000

    ; n,SP
    ADDA 10,SP
    ADDA $0A,SP
    ADDA %00001010,SP

    ; n,X
    ADDA 10,X
    ADDA $0A,X
    ADDA %00001010,X

    ; n,Y
    ADDA 10,Y
    ADDA $0A,Y
    ADDA %00001010,Y

    ORG $FF
    FCB $20",
    );
    let expected: [u8; 32] = [
        0x96, 0x01, 0x96, 0x10, 0x96, 0x10, 0x96, 0x10, 0xa6, 0x10, 0xa6, 0x10, 0xa6, 0x10, 0xb6,
        0x0a, 0xb6, 0x0a, 0xb6, 0x0a, 0xc6, 0x0a, 0xc6, 0x0a, 0xc6, 0x0a, 0xd6, 0x0a, 0xd6, 0x0a,
        0xd6, 0x0a,
    ];
    assert_eq!(&mem[0x20..0x40], &expected[..]);
    assert_eq!(mem[0xff], 0x20);
    assert!(mem[..0x20].iter().all(|b| *b == 0));
    assert!(mem[0x40..0xff].iter().all(|b| *b == 0));
}

#[test]
fn all_suba() {
    let mem = image(
        "
    ORG $20
    ; #Data
    SUBA #1
    SUBA #16
    SUBA #$10
    SUBA #%00010000

    ; Adr
    SUBA 16
    SUBA $10
    SUBA %00010000

    ; n,SP
    SUBA 10,SP
    SUBA $0A,SP
    SUBA %00001010,SP

    ; n,X
    SUBA 10,X
    SUBA $0A,X
    SUBA %00001010,X

    ; n,Y
    SUBA 10,Y
    SUBA $0A,Y
    SUBA %00001010,Y

    ORG $FF
    FCB $20",
    );
    let expected: [u8; 32] = [
        0x94, 0x01, 0x94, 0x10, 0x94, 0x10, 0x94, 0x10, 0xa4, 0x10, 0xa4, 0x10, 0xa4, 0x10, 0xb4,
        0x0a, 0xb4, 0x0a, 0xb4, 0x0a, 0xc4, 0x0a, 0xc4, 0x0a, 0xc4, 0x0a, 0xd4, 0x0a, 0xd4, 0x0a,
        0xd4, 0x0a,
    ];
    assert_eq!(&mem[0x20..0x40], &expected[..]);
    assert_eq!(mem[0xff], 0x20);
}

#[test]
fn read_ascii_from_input() {
    // EQU is reported as an unsupported directive.
    let r = assemble(
        "
DIPSWITCH:      EQU $FC
SEGMENT7:       EQU $FB
SEG_ERROR:      EQU %01111001
                ORG $0
seg_table:      FCB 63,6,91,79,102,109,125,7,127,111
                ORG $20
DisplaySegE:    LDX Segmentkod      ; X <- Segmentkod
DisplaySegE_1:  LDA DIPSWITCH       ; A <- M(DIPSWITCH)
                CMPA #10            ; A<10 ?
                BLO DisplaySegE_2 	; YES
                LDA #SEG_ERROR		; NO
                JMP DisplaySegE_3
DisplaySegE_2:  LDA A,X             ; A <- M(A+X)
DisplaySegE_3:  STA SEGMENT7        ; M(SEGMENT7) <- A
                JMP DisplaySegE_1
                ORG SEGMENT7
Segmentkod:     FCB $0
                FCB $0
                ORG $FF
                FCB $20
",
        "test.sflisp".to_string(),
    );
    match r {
        Err(AssembleError::UnsupportedDirective { span }) => {
            assert_eq!(span, Span { start: 17, end: 24 });
        }
        other => panic!("expected an unsupported directive, got {:?}", other),
    }
}

#[test]
fn golden_adda_immediate_and_direct() {
    let mem = image("ORG $20 \n ADDA #1 \n ADDA 16 \n ORG $FF \n FCB $20");
    assert_eq!(mem[0x20], 0x96);
    assert_eq!(mem[0x21], 0x01);
    assert_eq!(mem[0x22], 0xa6);
    assert_eq!(mem[0x23], 0x10);
    assert_eq!(mem[0xff], 0x20);
}

#[test]
fn forward_branch_resolves() {
    let mem = image("ORG $20\n BRA target\n LDA #0\n target: NOP\n");
    assert_eq!(&mem[0x20..0x25], &[0x21, 0x02, 0xf0, 0x00, 0x00]);
}

#[test]
fn backward_branch_wraps() {
    let mem = image("ORG $20\nloop: NOP\n BRA loop\n");
    assert_eq!(&mem[0x20..0x23], &[0x00, 0x21, 0xfd]);
}

#[test]
fn forward_jump_and_data_symbol() {
    let mem = image("ORG $10\n JMP end\n LDA #value\nend: LDA #1\nvalue: FCB end, 7\n");
    assert_eq!(&mem[0x10..0x19], &[0x33, 0x14, 0xf0, 0x16, 0xf0, 0x01, 0x14, 0x07, 0x00]);
}

#[test]
fn duplicate_label_is_rejected() {
    let r = assemble("a: LDA #1\n LDA #2\na: LDA #3\n", "t".to_string());
    match r {
        Err(AssembleError::DuplicateSymbol { name, span }) => {
            assert_eq!(name, "a");
            assert_eq!(span, Span { start: 18, end: 19 });
        }
        other => panic!("expected a duplicate symbol, got {:?}", other),
    }
}

#[test]
fn undefined_symbol_is_reported_at_its_operand() {
    let r = assemble("LDA nowhere\n", "t".to_string());
    match r {
        Err(AssembleError::UndefinedSymbol { name, span }) => {
            assert_eq!(name, "nowhere");
            assert_eq!(span, Span { start: 4, end: 11 });
        }
        other => panic!("expected an undefined symbol, got {:?}", other),
    }
}

#[test]
fn org_to_a_later_label_is_undefined() {
    let r = assemble("ORG later\nlater: NOP\n", "t".to_string());
    assert!(matches!(r, Err(AssembleError::UndefinedSymbol { .. })));
}

#[test]
fn filling_the_last_byte_is_no_overflow() {
    let src = "ORG $FE\n LDA #1\n";
    let mem = image(src);
    assert_eq!(mem[0xfe], 0xf0);
    assert_eq!(mem[0xff], 0x01);
    let full = "NOP\n".repeat(256);
    let mem = image(&full);
    assert!(mem.iter().all(|b| *b == 0));
}

#[test]
fn crossing_address_256_is_an_overflow() {
    let mut src = String::new();
    for _ in 0..129 {
        src.push_str("LDA #1\n");
    }
    match assemble(&src, "t".to_string()) {
        Err(AssembleError::OverflowFromInstruction { span }) => {
            assert_eq!(span, Span { start: 128 * 7, end: 128 * 7 + 6 });
        }
        other => panic!("expected an overflow, got {:?}", other),
    }
    let r = assemble("ORG $FF\n LDA #1\n", "t".to_string());
    assert!(matches!(r, Err(AssembleError::OverflowFromInstruction { .. })));
    let r = assemble("ORG $FE\n FCB 1, 2, 3\n", "t".to_string());
    assert!(matches!(r, Err(AssembleError::OverflowFromDirective { .. })));
}

#[test]
fn memory_cursor_stops_at_256() {
    let mut m = Memory::new();
    m.set_pc(255);
    assert!(m.write_byte(7).is_ok());
    assert_eq!(m.get_pc(), 0);
    assert_eq!(m.write_byte(8), Err(MemoryError::OutOfBounds(256)));
    assert_eq!(m.get_data()[255], 7);
    let mut m = Memory::new();
    m.set_pc(250);
    assert_eq!(m.inc_pc(7), Err(MemoryError::Overflow));
    assert!(m.inc_pc(6).is_ok());
}

#[test]
fn invalid_operand_form_is_a_parse_error() {
    match assemble("CLRA #1\n", "t".to_string()) {
        Err(AssembleError::Parse(e)) => {
            assert_eq!(e.msg, "Invalid operand form for instruction");
            assert_eq!(e.span, Span { start: 0, end: 7 });
        }
        other => panic!("expected a parse error, got {:?}", other),
    }
}

#[test]
fn unknown_byte_is_an_invalid_token() {
    match assemble("NOP\n@\n", "t".to_string()) {
        Err(AssembleError::Parse(e)) => {
            assert_eq!(e.msg, "Invalid token");
            assert_eq!(e.span, Span { start: 4, end: 5 });
        }
        other => panic!("expected a parse error, got {:?}", other),
    }
}

#[test]
fn auto_increment_forms_assemble() {
    let mem = image("LDA ,X+\n LDA ,-Y\n STA ,+X\n STA ,Y-\n LDA A,Y\n TFR X,SP\n EXG A,CC\n");
    assert_eq!(&mem[0..7], &[0xf5, 0xfe, 0xe7, 0xec, 0xfa, 0x1c, 0x9f]);
}

#[test]
fn lexer_numbers_saturate() {
    let mut lx = Lexer::new("255 256 $FF %101 $a ; comment\n label:");
    let mut values = Vec::new();
    loop {
        let t = lx.next_token();
        if t.kind == TokenKind::Eof {
            break;
        }
        values.push((t.kind, t.value.clone()));
    }
    let numbers: Vec<u8> = values
        .iter()
        .filter_map(|(_, v)| match v {
            TokenValue::NumberLiteral(n) => Some(*n),
            _ => None,
        })
        .collect();
    assert_eq!(numbers, vec![255, 25, 6, 255, 5, 10]);
    assert!(matches!(&values[values.len() - 2].1, TokenValue::Sym(s) if s == "label"));
    assert_eq!(values[values.len() - 1].0, TokenKind::Colon);
}

#[test]
fn keyword_tables() {
    assert_eq!(parse_directive("FCB"), Some(Directive::Fcb));
    assert_eq!(parse_directive("fcb"), None);
    assert_eq!(parse_named_literal("CC"), Some(NamedLiteral::CC));
    assert_eq!(parse_named_literal("-Y"), Some(NamedLiteral::MinusY));
    assert_eq!(parse_named_literal("Z"), None);
}

#[test]
fn a_label_after_an_instruction_without_operands_reads_as_its_operand() {
    match assemble("NOP\nnext: NOP\n", "t".to_string()) {
        Err(AssembleError::Parse(e)) => assert_eq!(e.msg, "Invalid operand form for instruction"),
        other => panic!("expected a parse error, got {:?}", other),
    }
}

#[test]
fn identifiers_may_hold_digits() {
    let mem = image("ORG $30
label7: LDA #1
 ORG $FF
 FCB label7
");
    assert_eq!(mem[0xff], 0x30);
}

#[test]
fn parser_lines() {
    let mut p = Parser::from_source("start: LDA #5\n FCB 1,2\n");
    let ast = p.parse().unwrap();
    assert_eq!(ast.lines.len(), 3);
    assert!(matches!(&ast.lines[0], AsmLine::Symbol(s) if s.name == "start"));
    assert!(matches!(&ast.lines[1], AsmLine::Instruction(i) if i.opcode == 0xf0 && i.size() == 2));
    assert!(matches!(&ast.lines[2], AsmLine::Directive(d) if d.name == Directive::Fcb && d.args.len() == 2));
}

#[test]
fn fmem_text_lists_nonzero_bytes() {
    let mut mem = [0u8; 256];
    mem[0x20] = 0x96;
    mem[0xff] = 0x2a;
    let text = emit_fmem(&mem, "test.fmem");
    assert_eq!(
        text,
        "File: test.fmem\n\n # ClearAllMemory\n # ClearAllRegisters\n #setMemory  20=96\n #setMemory  FF=2A"
    );
}

#[test]
fn s19_text_of_one_byte_and_start() {
    let mut mem = [0u8; 256];
    mem[0] = 0x01;
    assert_eq!(emit_s19(&mem), "S104000001FA\n");
    mem[0xff] = 0x20;
    assert_eq!(emit_s19(&mem), "S104000001FA\nS10400FF20DC\nS9030020DC\n");
}

#[test]
fn duplicate_label_far_apart_reports_the_second() {
    match assemble("L: LDA #1\nORG $80\nL: LDA #2", "t".to_string()) {
        Err(AssembleError::DuplicateSymbol { name, span }) => {
            assert_eq!(name, "L");
            assert_eq!(span, Span { start: 18, end: 19 });
        }
        other => panic!("expected a duplicate symbol, got {:?}", other),
    }
}
