//! The record-oriented binary-transfer format (Motorola S-records): the
//! records that an image is split into, their text, and loading an image
//! back from records.

use vstd::prelude::*;

use crate::fmem::{hex_digit, hex_value};
use crate::text::{chars_of, hex2};

verus! {

#[verifier::external_type_specification]
pub struct ExAddress16(srec::Address16);

#[verifier::external_type_specification]
pub struct ExAddress24(srec::Address24);

#[verifier::external_type_specification]
pub struct ExAddress32(srec::Address32);

#[verifier::external_type_specification]
pub struct ExCount16(srec::Count16);

#[verifier::external_type_specification]
pub struct ExCount24(srec::Count24);

#[verifier::external_type_specification]
#[verifier::reject_recursive_types(T)]
pub struct ExData<T>(srec::Data<T>);

#[verifier::external_type_specification]
pub struct ExRecord(srec::Record);

/// A record as plain values: its type digit, its address field and its data.
pub fn record_fields(rec: srec::Record) -> (r: (u8, u32, Vec<u8>))
    ensures
        match rec {
            srec::Record::S0(_) => r.0 == 0 && r.1 == 0 && r.2@.len() == 0,
            srec::Record::S1(d) => r.0 == 1 && r.1 == d.address.0 as u32 && r.2@ == d.data@,
            srec::Record::S2(d) => r.0 == 2 && r.1 == d.address.0 && r.2@ == d.data@,
            srec::Record::S3(d) => r.0 == 3 && r.1 == d.address.0 && r.2@ == d.data@,
            srec::Record::S5(c) => r.0 == 5 && r.1 == c.0 as u32 && r.2@.len() == 0,
            srec::Record::S6(c) => r.0 == 6 && r.1 == c.0 && r.2@.len() == 0,
            srec::Record::S7(a) => r.0 == 7 && r.1 == a.0 && r.2@.len() == 0,
            srec::Record::S8(a) => r.0 == 8 && r.1 == a.0 && r.2@.len() == 0,
            srec::Record::S9(a) => r.0 == 9 && r.1 == a.0 as u32 && r.2@.len() == 0,
        },
{
    match rec {
        srec::Record::S0(_) => (0, 0, Vec::new()),
        srec::Record::S1(d) => (1, d.address.0 as u32, d.data),
        srec::Record::S2(d) => (2, d.address.0, d.data),
        srec::Record::S3(d) => (3, d.address.0, d.data),
        srec::Record::S5(c) => (5, c.0 as u32, Vec::new()),
        srec::Record::S6(c) => (6, c.0, Vec::new()),
        srec::Record::S7(a) => (7, a.0, Vec::new()),
        srec::Record::S8(a) => (8, a.0, Vec::new()),
        srec::Record::S9(a) => (9, a.0 as u32, Vec::new()),
    }
}

/// The bytes of a record that its checksum covers: the byte count (address,
/// data and checksum), the address with its high byte first, and the data.
pub open spec fn record_bytes(address: u16, data: Seq<u8>) -> Seq<u8> {
    seq![((data.len() + 3) % 256) as u8, (address / 256) as u8, (address % 256) as u8] + data
}

/// The sum of some bytes.
pub open spec fn byte_sum(b: Seq<u8>) -> nat
    decreases b.len(),
{
    if b.len() == 0 {
        0
    } else {
        byte_sum(b.drop_last()) + b.last() as nat
    }
}

/// Bytes as upper-case hexadecimal digits, two per byte.
pub open spec fn hex_bytes(b: Seq<u8>) -> Seq<char>
    decreases b.len(),
{
    if b.len() == 0 {
        Seq::empty()
    } else {
        hex_bytes(b.drop_last()) + hex2(b.last(), true)
    }
}

/// One line of the format: `S`, the type digit, the covered bytes in hex,
/// the checksum (the complement of their sum's low byte) and a line break.
pub open spec fn srec_line(type_digit: char, address: u16, data: Seq<u8>) -> Seq<char> {
    let b = record_bytes(address, data);
    seq!['S', type_digit] + hex_bytes(b) + hex2((255 - byte_sum(b) % 256) as u8, true) + seq!['\n']
}

/// The lines of data records (`S1`).
pub open spec fn data_lines(recs: Seq<(u16, Seq<u8>)>) -> Seq<char>
    decreases recs.len(),
{
    if recs.len() == 0 {
        Seq::empty()
    } else {
        data_lines(recs.drop_last()) + srec_line('1', recs.last().0, recs.last().1)
    }
}

/// The text that srec's writer produces for data records (`S1`, each with a
/// 16-bit address and its bytes) followed, if given, by a start-address
/// record (`S9`).
pub open spec fn srec_file_text(data_records: Seq<(u16, Seq<u8>)>, start: Option<u16>) -> Seq<char> {
    data_lines(data_records) + match start {
        Some(a) => srec_line('9', a, Seq::empty()),
        None => Seq::empty(),
    }
}

/// The records that srec's reader finds in a text, each as its type digit,
/// address field and data; for the first line that is no valid record, the
/// code of the reader's error (see `kind_code`).
pub uninterp spec fn srec_records_in(text: Seq<char>) -> Result<Seq<(u8, u32, Seq<u8>)>, u8>;

/// Why srec's reader refuses a line.
#[derive(Debug, Clone, Copy, PartialEq, Eq, Structural)]
pub enum ReaderErrorKind {
    NotEnoughData,
    UnexpectedCharacter,
    ByteCountZero,
    ChecksumMismatch,
}

/// The code of a reader error.
pub open spec fn kind_code(k: ReaderErrorKind) -> u8 {
    match k {
        ReaderErrorKind::NotEnoughData => 0,
        ReaderErrorKind::UnexpectedCharacter => 1,
        ReaderErrorKind::ByteCountZero => 2,
        ReaderErrorKind::ChecksumMismatch => 3,
    }
}

#[verifier::external_type_specification]
pub struct ExReaderError(srec::ReaderError);

/// A reader error of srec as a plain value.
pub fn reader_error_kind(e: srec::ReaderError) -> (r: ReaderErrorKind)
    ensures
        match e {
            srec::ReaderError::NotEnoughData => r == ReaderErrorKind::NotEnoughData,
            srec::ReaderError::UnexpectedCharacter => r == ReaderErrorKind::UnexpectedCharacter,
            srec::ReaderError::ByteCountZero => r == ReaderErrorKind::ByteCountZero,
            srec::ReaderError::ChecksumMismatch => r == ReaderErrorKind::ChecksumMismatch,
        },
{
    match e {
        srec::ReaderError::NotEnoughData => ReaderErrorKind::NotEnoughData,
        srec::ReaderError::UnexpectedCharacter => ReaderErrorKind::UnexpectedCharacter,
        srec::ReaderError::ByteCountZero => ReaderErrorKind::ByteCountZero,
        srec::ReaderError::ChecksumMismatch => ReaderErrorKind::ChecksumMismatch,
    }
}

/// Whitespace that srec's reader trims from the ends of a line.
pub open spec fn is_blank(c: char) -> bool {
    c == ' ' || c == '\t' || c == '\r' || c == '\x0B' || c == '\x0C'
}

/// The first position from `i` on that holds no blank.
pub open spec fn first_non_blank(s: Seq<char>, i: nat) -> nat
    decreases s.len() - i,
{
    if i < s.len() && is_blank(s[i as int]) {
        first_non_blank(s, i + 1)
    } else {
        i
    }
}

/// The byte that the two hexadecimal digits at `i` spell, if they do.
pub open spec fn pair_at(s: Seq<char>, i: int) -> Option<u8> {
    if 0 <= i && i + 1 < s.len() {
        match (hex_value(s[i]), hex_value(s[i + 1])) {
            (Some(h), Some(l)) => Some((h * 16 + l) as u8),
            _ => None,
        }
    } else {
        None
    }
}

/// A header record (`S0`) that starts at `p` and that srec's reader can
/// take: its byte count is at least 3 and its text bytes are ASCII.
pub open spec fn header_ok(s: Seq<char>, p: int) -> bool {
    pair_at(s, p + 2) matches Some(c) && c >= 3 && forall|k: int|
        2 <= k < c - 1 ==> (#[trigger] pair_at(s, p + 4 + 2 * k) matches Some(b) && b < 128)
}

/// A line, from position `i`, that is no header record or is one that
/// srec's reader can take.
pub open spec fn line_readable(s: Seq<char>, i: nat) -> bool {
    let p = first_non_blank(s, i);
    (p + 1 < s.len() && s[p as int] == 'S' && s[p + 1int] == '0') ==> header_ok(s, p as int)
}

/// A text that srec's reader reads without panicking: all ASCII, and every
/// header record well formed.
pub open spec fn srec_readable(s: Seq<char>) -> bool {
    &&& forall|i: int| 0 <= i < s.len() ==> (#[trigger] s[i] as u32) < 128
    &&& forall|i: int|
        0 <= i < s.len() && (i == 0 || s[i - 1] == '\n') ==> #[trigger] line_readable(s, i as nat)
}

fn pair(s: &Vec<char>, i: usize) -> (r: Option<u8>)
    ensures
        r == pair_at(s@, i as int),
{
    if i >= s.len() || s.len() - i < 2 {
        return None;
    }
    match (hex_digit(s[i]), hex_digit(s[i + 1])) {
        (Some(h), Some(l)) => Some(h * 16 + l),
        _ => None,
    }
}

fn header_check(s: &Vec<char>, p: usize) -> (r: bool)
    requires
        p < s@.len(),
    ensures
        r == header_ok(s@, p as int),
{
    if s.len() - p < 4 {
        return false;
    }
    let c = match pair(s, p + 2) {
        Some(c) => c,
        None => {
            return false;
        },
    };
    if c < 3 {
        return false;
    }
    let n = s.len();
    let mut k: usize = 2;
    while k < c as usize - 1
        invariant
            2 <= k <= c as usize - 1 || k == 2,
            c >= 3,
            p < n,
            n == s@.len(),
            pair_at(s@, p + 2) == Some(c),
            forall|j: int| 2 <= j < k ==> (#[trigger] pair_at(s@, p + 4 + 2 * j) matches Some(b) && b < 128),
        decreases c - k,
    {
        let off = 4 + 2 * k;
        if off >= n - p {
            assert(pair_at(s@, p + 4 + 2 * k) is None);
            return false;
        }
        match pair(s, p + off) {
            Some(b) => {
                if b >= 128 {
                    return false;
                }
            },
            None => {
                return false;
            },
        }
        k = k + 1;
    }
    true
}

fn line_check(s: &Vec<char>, i: usize) -> (r: bool)
    requires
        i <= s@.len(),
    ensures
        r == line_readable(s@, i as nat),
{
    let n = s.len();
    let mut p = i;
    while p < n && is_blank_char(s[p])
        invariant
            i <= p <= n,
            n == s@.len(),
            first_non_blank(s@, i as nat) == first_non_blank(s@, p as nat),
        decreases n - p,
    {
        p = p + 1;
    }
    if p < n && n - p > 1 && s[p] == 'S' && s[p + 1] == '0' {
        header_check(s, p)
    } else {
        true
    }
}

fn is_blank_char(c: char) -> (r: bool)
    ensures
        r == is_blank(c),
{
    c == ' ' || c == '\t' || c == '\r' || c == '\x0B' || c == '\x0C'
}

/// Whether srec's reader can take a text without panicking.
pub fn srec_text_readable(s: &Vec<char>) -> (r: bool)
    ensures
        r == srec_readable(s@),
{
    let n = s.len();
    let mut i: usize = 0;
    while i < n
        invariant
            i <= n,
            n == s@.len(),
            forall|j: int| 0 <= j < i ==> (#[trigger] s@[j] as u32) < 128,
        decreases n - i,
    {
        if s[i] as u32 >= 128 {
            return false;
        }
        i = i + 1;
    }
    let mut i: usize = 0;
    while i < n
        invariant
            i <= n,
            n == s@.len(),
            forall|j: int| 0 <= j < n ==> (#[trigger] s@[j] as u32) < 128,
            forall|j: int|
                0 <= j < i && (j == 0 || s@[j - 1] == '\n') ==> #[trigger] line_readable(s@, j as nat),
        decreases n - i,
    {
        if i == 0 || s[i - 1] == '\n' {
            if !line_check(s, i) {
                let ghost j: int = i as int;
                assert(0 <= j < s@.len() && (j == 0 || s@[j - 1] == '\n') && !line_readable(
                    s@,
                    j as nat,
                ));
                return false;
            }
        }
        i = i + 1;
    }
    true
}

/// A record of srec built from plain values: `S9` with the address when
/// `start` is set, else `S1` with the address and the data.
pub fn make_record(start: bool, address: u16, data: Vec<u8>) -> (r: srec::Record)
    ensures
        start ==> r == srec::Record::S9(srec::Address16(address)),
        !start ==> (r matches srec::Record::S1(d) && d.address == srec::Address16(address) && d.data@ == data@),
{
    if start {
        srec::Record::S9(srec::Address16(address))
    } else {
        srec::Record::S1(srec::Data { address: srec::Address16(address), data })
    }
}

/// Relies on srec::generate_srec_file (with `make_record` in srec's writer):
/// one line per record, `S`, the type, the byte count, the address, the data
/// and the checksum as upper-case hexadecimal, each line ended by a newline.
#[verifier::external_body]
fn srec_text(data_records: Vec<(u16, Vec<u8>)>, start: Option<u16>) -> (r: String)
    ensures
        r@ == srec_file_text(data_records@.map_values(|p: (u16, Vec<u8>)| (p.0, p.1@)), start),
{
    let mut records: Vec<srec::Record> = data_records.into_iter().map(|(a, d)| make_record(false, a, d)).collect();
    records.extend(start.map(|a| make_record(true, a, Vec::new())));
    srec::generate_srec_file(&records)
}

/// Relies on srec::read_records: the records of a text, one per non-empty
/// line, or the error of the first line that is no record; the result
/// depends on the text alone. The reader panics on text that is not ASCII
/// (it splits lines at byte positions) and on a header record that is too
/// short or whose text is not UTF-8, so those are excluded.
#[verifier::external_body]
fn read_srec(text: &str) -> (r: Result<Vec<(u8, u32, Vec<u8>)>, ReaderErrorKind>)
    requires
        srec_readable(text@),
    ensures
        match r {
            Ok(v) => srec_records_in(text@) == Ok::<Seq<(u8, u32, Seq<u8>)>, u8>(
                v@.map_values(|x: (u8, u32, Vec<u8>)| (x.0, x.1, x.2@)),
            ),
            Err(k) => srec_records_in(text@) == Err::<Seq<(u8, u32, Seq<u8>)>, u8>(kind_code(k)),
        },
{
    srec::read_records(text).map(|rec| rec.map(record_fields).map_err(reader_error_kind)).collect()
}

/// Where the scan that splits an image into records stands.
pub struct ScanState {
    /// The records closed so far, each as its first and last address.
    pub recs: Seq<(nat, nat)>,
    /// The first address of the open record, if one is open.
    pub start: Option<nat>,
    /// How many zero bytes came last.
    pub nulls: nat,
}

/// The largest number of data bytes in one record.
pub const MAX_RECORD_DATA: usize = 30;

/// One address of the scan. A record is closed at the second of two zero
/// bytes in a row, or when it would grow past 30 bytes.
pub open spec fn scan_step(mem: Seq<u8>, st: ScanState, addr: nat) -> ScanState {
    if mem[addr as int] == 0 {
        if st.nulls + 1 == 2 && st.start is Some {
            ScanState {
                recs: st.recs.push((st.start.unwrap(), (addr - 2) as nat)),
                start: None,
                nulls: 2,
            }
        } else {
            ScanState { nulls: st.nulls + 1, ..st }
        }
    } else {
        match st.start {
            None => ScanState { start: Some(addr), nulls: 0, ..st },
            Some(s) => if addr - s >= 30 {
                let end = if addr - 1 < s + 29 {
                    (addr - 1) as nat
                } else {
                    s + 29
                };
                ScanState { recs: st.recs.push((s, end)), start: Some(addr), nulls: 0 }
            } else {
                ScanState { nulls: 0, ..st }
            },
        }
    }
}

/// The scan over the addresses below `n`.
pub open spec fn scan(mem: Seq<u8>, n: nat) -> ScanState
    decreases n,
{
    if n == 0 {
        ScanState { recs: Seq::empty(), start: None, nulls: 0 }
    } else {
        scan_step(mem, scan(mem, (n - 1) as nat), (n - 1) as nat)
    }
}

/// The data records of an image, each as its first and last address.
pub open spec fn record_ranges(mem: Seq<u8>) -> Seq<(nat, nat)> {
    let st = scan(mem, 256);
    match st.start {
        Some(s) => st.recs.push((s, if s + 29 < 255 { s + 29 } else { 255 })),
        None => st.recs,
    }
}

/// The data records of an image, each as its address and its bytes.
pub open spec fn data_records(mem: Seq<u8>) -> Seq<(u16, Seq<u8>)> {
    record_ranges(mem).map_values(
        |r: (nat, nat)| (r.0 as u16, mem.subrange(r.0 as int, r.1 + 1int)),
    )
}

/// The start-address record of an image: the byte at 0xFF, if it is not zero.
pub open spec fn start_record(mem: Seq<u8>) -> Option<u16> {
    if mem[255] != 0 {
        Some(mem[255] as u16)
    } else {
        None
    }
}

/// Whether an address lies in one of the ranges.
pub open spec fn covered(recs: Seq<(nat, nat)>, a: nat) -> bool {
    exists|i: int| 0 <= i < recs.len() && #[trigger] recs[i].0 <= a <= recs[i].1
}

/// What the scan keeps true.
pub open spec fn scan_inv(mem: Seq<u8>, st: ScanState, n: nat) -> bool {
    &&& forall|i: int|
        0 <= i < st.recs.len() ==> st.recs[i].0 <= st.recs[i].1 < n && st.recs[i].1 - st.recs[i].0
            < 30
    &&& forall|a: nat|
        a < n && mem[a as int] != 0 ==> covered(st.recs, a) || (st.start matches Some(s) && s
            <= a)
    &&& st.nulls <= n
    &&& forall|a: nat| n - st.nulls <= a < n ==> mem[a as int] == 0
    &&& st.start matches Some(s) ==> {
        &&& s < n
        &&& mem[s as int] != 0
        &&& st.nulls < n
        &&& mem[n - 1 - st.nulls] != 0
        &&& n - 1 - st.nulls - s < 30
        &&& forall|a: nat| s <= a < n && mem[a as int] != 0 ==> a - s < 30
    }
    &&& st.start is None ==> st.nulls >= 2 || (n == 0 && st.nulls == 0) || forall|a: nat|
        a < n ==> mem[a as int] == 0
}

proof fn lemma_scan_inv(mem: Seq<u8>, n: nat)
    requires
        mem.len() == 256,
        n <= 256,
    ensures
        scan_inv(mem, scan(mem, n), n),
    decreases n,
{
    if n > 0 {
        let m = (n - 1) as nat;
        lemma_scan_inv(mem, m);
        let st = scan(mem, m);
        let st2 = scan_step(mem, st, m);
        assert(scan(mem, n) == st2);
        assert forall|a: nat| a < n && mem[a as int] != 0 implies covered(st2.recs, a) || (
        st2.start matches Some(s) && s <= a) by {
            if a < m {
                if covered(st.recs, a) {
                    let i = choose|i: int| 0 <= i < st.recs.len() && #[trigger] st.recs[i].0 <= a <= st.recs[i].1;
                    assert(st2.recs[i] == st.recs[i]);
                } else if st2.start is None || st2.start.unwrap() > a {
                    let i = st.recs.len() as int;
                    assert(st2.recs[i].0 <= a <= st2.recs[i].1);
                }
            }
        }
    }
}

/// The data records of an image: runs of bytes split at two zero bytes in
/// a row and at 30 bytes, each with its address.
pub fn s19_records(mem: &[u8; 256]) -> (r: Vec<(u16, Vec<u8>)>)
    ensures
        r@.map_values(|p: (u16, Vec<u8>)| (p.0, p.1@)) == data_records(mem@),
{
    let ghost m = mem@;
    let mut ranges: Vec<(usize, usize)> = Vec::new();
    let mut start: Option<usize> = None;
    let mut nulls: usize = 0;
    let mut addr: usize = 0;
    assert(ranges@.map_values(|p: (usize, usize)| (p.0 as nat, p.1 as nat)) =~= Seq::<(nat, nat)>::empty());
    while addr < 256
        invariant
            addr <= 256,
            m == mem@,
            m.len() == 256,
            nulls <= addr,
            scan(m, addr as nat) == (ScanState {
                recs: ranges@.map_values(|p: (usize, usize)| (p.0 as nat, p.1 as nat)),
                start: match start {
                    Some(s) => Some(s as nat),
                    None => None,
                },
                nulls: nulls as nat,
            }),
            start matches Some(s) ==> s < addr,
            forall|i: int| 0 <= i < ranges@.len() ==> ranges@[i].1 < 256,
        decreases 256 - addr,
    {
        proof {
            lemma_scan_inv(m, addr as nat);
        }
        let ghost st = scan(m, addr as nat);
        let ghost old_ranges = ranges@;
        if mem[addr] == 0 {
            if nulls + 1 == 2 && start.is_some() {
                let s = start.unwrap();
                ranges.push((s, addr - 2));
                start = None;
                nulls = 2;
            } else {
                nulls = nulls + 1;
            }
        } else {
            match start {
                None => {
                    start = Some(addr);
                    nulls = 0;
                },
                Some(s) => {
                    if addr - s >= 30 {
                        let end = if addr - 1 < s + 29 {
                            addr - 1
                        } else {
                            s + 29
                        };
                        ranges.push((s, end));
                        start = Some(addr);
                    }
                    nulls = 0;
                },
            }
        }
        assert(ranges@.map_values(|p: (usize, usize)| (p.0 as nat, p.1 as nat)) =~= scan_step(
            m,
            st,
            addr as nat,
        ).recs);
        addr = addr + 1;
    }
    proof {
        lemma_scan_inv(m, 256);
    }
    assert forall|j: int| 0 <= j < ranges@.len() implies #[trigger] ranges@[j].0 <= ranges@[j].1 < 256 by {
        assert(ranges@.map_values(|p: (usize, usize)| (p.0 as nat, p.1 as nat))[j] == scan(m, 256).recs[j]);
    }
    if let Some(s) = start {
        let end = if s + 29 < 255 {
            s + 29
        } else {
            255
        };
        ranges.push((s, end));
    }
    assert(ranges@.map_values(|p: (usize, usize)| (p.0 as nat, p.1 as nat)) =~= record_ranges(m));
    let mut out: Vec<(u16, Vec<u8>)> = Vec::new();
    let mut i: usize = 0;
    while i < ranges.len()
        invariant
            i <= ranges@.len(),
            m == mem@,
            m.len() == 256,
            ranges@.map_values(|p: (usize, usize)| (p.0 as nat, p.1 as nat)) == record_ranges(m),
            forall|j: int| 0 <= j < ranges@.len() ==> #[trigger] ranges@[j].0 <= ranges@[j].1 < 256,
            out@.map_values(|p: (u16, Vec<u8>)| (p.0, p.1@)) == data_records(m).subrange(0, i as int),
        decreases ranges@.len() - i,
    {
        let (s, e) = ranges[i];
        assert(record_ranges(m)[i as int] == (s as nat, e as nat)) by {
            assert(ranges@.map_values(|p: (usize, usize)| (p.0 as nat, p.1 as nat))[i as int] == (
            s as nat, e as nat));
        }
        let mut data: Vec<u8> = Vec::new();
        let mut k: usize = s;
        while k <= e
            invariant
                s <= k <= e + 1,
                e < 256,
                m == mem@,
                data@ == m.subrange(s as int, k as int),
            decreases e + 1 - k,
        {
            data.push(mem[k]);
            assert(data@ =~= m.subrange(s as int, k + 1));
            k = k + 1;
        }
        assert(data_records(m).len() == record_ranges(m).len());
        assert(data_records(m)[i as int] == (s as u16, m.subrange(s as int, e + 1)));
        let ghost before = out@;
        out.push((s as u16, data));
        assert(out@.map_values(|p: (u16, Vec<u8>)| (p.0, p.1@)) =~= before.map_values(
            |p: (u16, Vec<u8>)| (p.0, p.1@),
        ).push((s as u16, m.subrange(s as int, e + 1))));
        assert(out@.map_values(|p: (u16, Vec<u8>)| (p.0, p.1@)) =~= data_records(m).subrange(
            0,
            i + 1,
        ));
        i = i + 1;
    }
    assert(data_records(m).subrange(0, i as int) =~= data_records(m));
    out
}

/// The image in the record-oriented format: its data records, then a
/// start-address record with the byte at 0xFF if that byte is not zero.
pub fn emit_s19(mem: &[u8; 256]) -> (r: String)
    ensures
        r@ == srec_file_text(data_records(mem@), start_record(mem@)),
{
    let records = s19_records(mem);
    let start = if mem[255] != 0 {
        Some(mem[255] as u16)
    } else {
        None
    };
    srec_text(records, start)
}

/// Why records do not load into an image.
#[derive(Debug, Clone, Copy, PartialEq, Eq, Structural)]
pub enum S19ParseError {
    /// A line of the text is no valid record; why.
    Reader(ReaderErrorKind),
    /// The text is not ASCII, or holds a header record (`S0`) that is too
    /// short or whose text is not ASCII.
    Unreadable,
    /// A record of a type that carries neither data nor a start address.
    UnsupportedRecordType(u8),
    /// A record whose address lies past 0xFF; its type and address.
    AddrTooLarge(u8, u32),
}

/// An image with bytes written from address `a` on, wrapping past 0xFF.
pub open spec fn write_bytes(mem: Seq<u8>, a: nat, d: Seq<u8>) -> Seq<u8>
    decreases d.len(),
{
    if d.len() == 0 {
        mem
    } else {
        write_bytes(mem, a, d.drop_last()).update(((a + d.len() - 1) % 256) as int, d.last())
    }
}

/// The image after one record: data records write their bytes, start
/// records set the byte at 0xFF, a header changes nothing.
pub open spec fn load_record(mem: Seq<u8>, rec: (u8, u32, Seq<u8>)) -> Result<Seq<u8>, S19ParseError> {
    let (t, a, d) = rec;
    if t == 0 {
        Ok(mem)
    } else if t == 1 || t == 2 || t == 3 {
        if a > 255 {
            Err(S19ParseError::AddrTooLarge(t, a))
        } else {
            Ok(write_bytes(mem, a as nat, d))
        }
    } else if t == 7 || t == 8 || t == 9 {
        if a > 255 {
            Err(S19ParseError::AddrTooLarge(t, a))
        } else {
            Ok(mem.update(255, a as u8))
        }
    } else {
        Err(S19ParseError::UnsupportedRecordType(t))
    }
}

/// The image that records load into, starting from zeros.
pub open spec fn load_spec(recs: Seq<(u8, u32, Seq<u8>)>) -> Result<Seq<u8>, S19ParseError>
    decreases recs.len(),
{
    if recs.len() == 0 {
        Ok(Seq::new(256, |i: int| 0u8))
    } else {
        match load_spec(recs.drop_last()) {
            Ok(mem) => load_record(mem, recs.last()),
            Err(e) => Err(e),
        }
    }
}

proof fn lemma_load_err_prefix(recs: Seq<(u8, u32, Seq<u8>)>, k: int)
    requires
        0 <= k <= recs.len(),
        load_spec(recs.subrange(0, k)) is Err,
    ensures
        load_spec(recs) == load_spec(recs.subrange(0, k)),
    decreases recs.len() - k,
{
    if k < recs.len() {
        assert(recs.subrange(0, k + 1).drop_last() =~= recs.subrange(0, k));
        lemma_load_err_prefix(recs, k + 1);
    } else {
        assert(recs.subrange(0, k) =~= recs);
    }
}

/// The records of a text as plain values.
pub open spec fn records_view(v: Seq<(u8, u32, Vec<u8>)>) -> Seq<(u8, u32, Seq<u8>)> {
    v.map_values(|x: (u8, u32, Vec<u8>)| (x.0, x.1, x.2@))
}

/// Loads records into an image of zeros, in order.
pub fn load_records(recs: &Vec<(u8, u32, Vec<u8>)>) -> (r: Result<[u8; 256], S19ParseError>)
    ensures
        match load_spec(records_view(recs@)) {
            Ok(mem) => r matches Ok(img) && img@ == mem,
            Err(e) => r == Err::<[u8; 256], S19ParseError>(e),
        },
{
    let ghost rv = records_view(recs@);
    let mut mem = [0u8; 256];
    assert(mem@ =~= Seq::new(256, |i: int| 0u8));
    let mut i: usize = 0;
    assert(rv.subrange(0, 0) =~= Seq::<(u8, u32, Seq<u8>)>::empty());
    while i < recs.len()
        invariant
            i <= recs@.len(),
            rv == records_view(recs@),
            load_spec(rv.subrange(0, i as int)) == Ok::<Seq<u8>, S19ParseError>(mem@),
        decreases recs@.len() - i,
    {
        assert(rv.subrange(0, i + 1).drop_last() =~= rv.subrange(0, i as int));
        assert(rv.subrange(0, i + 1).last() == rv[i as int]);
        let t = recs[i].0;
        let a = recs[i].1;
        if t == 0 {
        } else if t == 1 || t == 2 || t == 3 || t == 7 || t == 8 || t == 9 {
            if a > 255 {
                proof {
                    lemma_load_err_prefix(rv, i + 1);
                }
                return Err(S19ParseError::AddrTooLarge(t, a));
            }
            if t <= 3 {
                let d = &recs[i].2;
                let ghost before = mem@;
                let mut k: usize = 0;
                assert(d@.subrange(0, 0) =~= Seq::<u8>::empty());
                while k < d.len()
                    invariant
                        k <= d@.len(),
                        a <= 255,
                        mem@ == write_bytes(before, a as nat, d@.subrange(0, k as int)),
                    decreases d@.len() - k,
                {
                    let adr = (a as usize + k % 256) % 256;
                    assert((a + k) % 256 == (a + k % 256) % 256) by (nonlinear_arith)
                        requires
                            a <= 255,
                    ;
                    mem[adr] = d[k];
                    assert(d@.subrange(0, k + 1).drop_last() =~= d@.subrange(0, k as int));
                    k = k + 1;
                }
                assert(d@.subrange(0, k as int) =~= d@);
            } else {
                mem[255] = a as u8;
            }
        } else {
            proof {
                lemma_load_err_prefix(rv, i + 1);
            }
            return Err(S19ParseError::UnsupportedRecordType(t));
        }
        i = i + 1;
    }
    assert(rv.subrange(0, i as int) =~= rv);
    Ok(mem)
}

/// Reads an image from text in the record-oriented format.
pub fn parse_s19(text: &str) -> (r: Result<[u8; 256], S19ParseError>)
    ensures
        !srec_readable(text@) ==> r == Err::<[u8; 256], S19ParseError>(S19ParseError::Unreadable),
        srec_readable(text@) ==> match srec_records_in(text@) {
            Err(c) => r matches Err(S19ParseError::Reader(k)) && kind_code(k) == c,
            Ok(recs) => match load_spec(recs) {
                Ok(mem) => r matches Ok(img) && img@ == mem,
                Err(e) => r == Err::<[u8; 256], S19ParseError>(e),
            },
        },
{
    let chars = chars_of(text);
    if !srec_text_readable(&chars) {
        return Err(S19ParseError::Unreadable);
    }
    match read_srec(text) {
        Err(k) => Err(S19ParseError::Reader(k)),
        Ok(recs) => load_records(&recs),
    }
}

/// The records that the data and start-address records of an image are,
/// as a reader of the format hands them back.
pub open spec fn loader_records(mem: Seq<u8>) -> Seq<(u8, u32, Seq<u8>)> {
    data_records(mem).map_values(|r: (u16, Seq<u8>)| (1u8, r.0 as u32, r.1)) + match start_record(
        mem,
    ) {
        Some(a) => seq![(9u8, a as u32, Seq::<u8>::empty())],
        None => Seq::empty(),
    }
}

proof fn lemma_write_bytes_in_range(mem: Seq<u8>, a: nat, d: Seq<u8>)
    requires
        mem.len() == 256,
        a + d.len() <= 256,
    ensures
        write_bytes(mem, a, d) == Seq::new(
            256,
            |i: int|
                if a <= i < a + d.len() {
                    d[i - a]
                } else {
                    mem[i]
                },
        ),
    decreases d.len(),
{
    if d.len() > 0 {
        lemma_write_bytes_in_range(mem, a, d.drop_last());
        assert((a + d.len() - 1) % 256 == a + d.len() - 1);
        assert(write_bytes(mem, a, d) =~= Seq::new(
            256,
            |i: int|
                if a <= i < a + d.len() {
                    d[i - a]
                } else {
                    mem[i]
                },
        ));
    } else {
        assert(write_bytes(mem, a, d) =~= Seq::new(
            256,
            |i: int|
                if a <= i < a + d.len() {
                    d[i - a]
                } else {
                    mem[i]
                },
        ));
    }
}

/// The image that keeps the bytes of `mem` that the ranges cover, and zeros elsewhere.
pub open spec fn covered_image(mem: Seq<u8>, ranges: Seq<(nat, nat)>) -> Seq<u8> {
    Seq::new(256, |i: int| if covered(ranges, i as nat) { mem[i] } else { 0u8 })
}

/// Every record range lies within the image and holds at most 30 bytes.
pub proof fn lemma_record_ranges(mem: Seq<u8>)
    requires
        mem.len() == 256,
    ensures
        forall|i: int|
            0 <= i < record_ranges(mem).len() ==> #[trigger] record_ranges(mem)[i].0
                <= record_ranges(mem)[i].1 <= 255 && record_ranges(mem)[i].1 - record_ranges(mem)[i].0 < 30,
        forall|a: nat| a < 256 && mem[a as int] != 0 ==> covered(record_ranges(mem), a),
{
    lemma_scan_inv(mem, 256);
    let st = scan(mem, 256);
    let r = record_ranges(mem);
    assert forall|i: int| 0 <= i < r.len() implies #[trigger] r[i].0 <= r[i].1 <= 255 && r[i].1 - r[i].0 < 30 by {
        if i < st.recs.len() {
            assert(r[i] == st.recs[i]);
        }
    }
    assert forall|a: nat| a < 256 && mem[a as int] != 0 implies covered(r, a) by {
        if covered(st.recs, a) {
            let i = choose|i: int| 0 <= i < st.recs.len() && #[trigger] st.recs[i].0 <= a <= st.recs[i].1;
            assert(r[i] == st.recs[i]);
        } else {
            let i = st.recs.len() as int;
            assert(r[i].0 <= a <= r[i].1);
        }
    }
}

proof fn lemma_load_data_prefix(mem: Seq<u8>, k: int)
    requires
        mem.len() == 256,
        0 <= k <= record_ranges(mem).len(),
    ensures
        load_spec(
            data_records(mem).map_values(|r: (u16, Seq<u8>)| (1u8, r.0 as u32, r.1)).subrange(0, k),
        ) == Ok::<Seq<u8>, S19ParseError>(covered_image(mem, record_ranges(mem).subrange(0, k))),
    decreases k,
{
    let recs = data_records(mem).map_values(|r: (u16, Seq<u8>)| (1u8, r.0 as u32, r.1));
    let ranges = record_ranges(mem);
    lemma_record_ranges(mem);
    if k == 0 {
        assert(covered_image(mem, ranges.subrange(0, 0)) =~= Seq::new(256, |i: int| 0u8));
    } else {
        lemma_load_data_prefix(mem, k - 1);
        assert(recs.subrange(0, k).drop_last() =~= recs.subrange(0, k - 1));
        let (s0, e0) = ranges[k - 1];
        assert(s0 <= e0 <= 255);
        let d = mem.subrange(s0 as int, e0 + 1int);
        assert(recs.subrange(0, k).last() == (1u8, s0 as u32, d));
        let prev = covered_image(mem, ranges.subrange(0, k - 1));
        lemma_write_bytes_in_range(prev, s0, d);
        assert forall|i: int| 0 <= i < 256 implies #[trigger] covered(ranges.subrange(0, k), i as nat) == (
        covered(ranges.subrange(0, k - 1), i as nat) || (s0 <= i <= e0)) by {
            if covered(ranges.subrange(0, k), i as nat) {
                let j = choose|j: int| 0 <= j < k && #[trigger] ranges.subrange(0, k)[j].0 <= i
                    <= ranges.subrange(0, k)[j].1;
                if j < k - 1 {
                    assert(ranges.subrange(0, k - 1)[j] == ranges.subrange(0, k)[j]);
                }
            }
            if covered(ranges.subrange(0, k - 1), i as nat) {
                let j = choose|j: int| 0 <= j < k - 1 && #[trigger] ranges.subrange(0, k - 1)[j].0
                    <= i <= ranges.subrange(0, k - 1)[j].1;
                assert(ranges.subrange(0, k)[j] == ranges.subrange(0, k - 1)[j]);
            }
            if s0 <= i <= e0 {
                assert(ranges.subrange(0, k)[k - 1] == (s0, e0));
            }
        }
        assert(write_bytes(prev, s0, d) =~= covered_image(mem, ranges.subrange(0, k)));
    }
}

/// Round trip of the record-oriented format: loading the data records and
/// the start-address record of an image into zeros gives the image back.
pub proof fn lemma_s19_round_trip(mem: Seq<u8>)
    requires
        mem.len() == 256,
    ensures
        load_spec(loader_records(mem)) == Ok::<Seq<u8>, S19ParseError>(mem),
{
    let data = data_records(mem).map_values(|r: (u16, Seq<u8>)| (1u8, r.0 as u32, r.1));
    let n = record_ranges(mem).len() as int;
    lemma_load_data_prefix(mem, n);
    lemma_record_ranges(mem);
    assert(data.subrange(0, n) =~= data);
    assert(record_ranges(mem).subrange(0, n) =~= record_ranges(mem));
    assert(covered_image(mem, record_ranges(mem)) =~= mem);
    if mem[255] != 0 {
        let all = loader_records(mem);
        assert(all.drop_last() =~= data);
        assert(mem.update(255, mem[255]) =~= mem);
    } else {
        assert(loader_records(mem) =~= data);
    }
}

/// Each data record holds at most 30 bytes.
pub proof fn lemma_records_at_most_thirty(mem: Seq<u8>)
    requires
        mem.len() == 256,
    ensures
        forall|i: int| 0 <= i < data_records(mem).len() ==> #[trigger] data_records(mem)[i].1.len() <= 30,
{
    lemma_record_ranges(mem);
}

} // verus!
