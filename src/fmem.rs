//! The memory-patch format: a header and one `#setMemory` line for each
//! byte of the image that is not zero.

use vstd::prelude::*;
use vstd::string::*;

use crate::lexer::{is_ws, line_end, Span};
use crate::text::{hex2, hex_char, push_hex2};

verus! {

/// The `#setMemory` lines for the addresses below `n`.
pub open spec fn set_memory_lines(mem: Seq<u8>, n: nat) -> Seq<char>
    decreases n,
{
    if n == 0 {
        Seq::empty()
    } else {
        let a = (n - 1) as nat;
        set_memory_lines(mem, a) + if mem[a as int] != 0 {
            "\n #setMemory  "@ + hex2(a as u8, true) + "="@ + hex2(mem[a as int], true)
        } else {
            Seq::empty()
        }
    }
}

/// The memory-patch text of an image.
pub open spec fn fmem_text(file_name: Seq<char>, mem: Seq<u8>) -> Seq<char> {
    "File: "@ + file_name + "\n\n # ClearAllMemory\n # ClearAllRegisters"@ + set_memory_lines(mem, 256)
}

/// The image in the memory-patch format: a header naming the file, then
/// one line per byte that is not zero, in ascending address order, with
/// address and value as two upper-case hexadecimal digits each.
pub fn emit_fmem(mem: &[u8; 256], file_name: &str) -> (r: String)
    ensures
        r@ == fmem_text(file_name@, mem@),
{
    let mut out = String::from_str("File: ");
    out.append(file_name);
    out.append("\n\n # ClearAllMemory\n # ClearAllRegisters");
    let ghost header = out@;
    assert(out@ == "File: "@ + file_name@ + "\n\n # ClearAllMemory\n # ClearAllRegisters"@);
    let mut adr: usize = 0;
    while adr < 256
        invariant
            adr <= 256,
            out@ == header + set_memory_lines(mem@, adr as nat),
        decreases 256 - adr,
    {
        let byte = mem[adr];
        if byte != 0 {
            out.append("\n #setMemory  ");
            push_hex2(&mut out, adr as u8, true);
            out.append("=");
            push_hex2(&mut out, byte, true);
        }
        assert(out@ =~= header + set_memory_lines(mem@, (adr + 1) as nat));
        adr = adr + 1;
    }
    out
}

/// The value of a hexadecimal digit, upper or lower case.
pub open spec fn hex_value(c: char) -> Option<u8> {
    if '0' <= c && c <= '9' {
        Some((c as u32 - '0' as u32) as u8)
    } else if 'a' <= c && c <= 'f' {
        Some((c as u32 - 'a' as u32 + 10) as u8)
    } else if 'A' <= c && c <= 'F' {
        Some((c as u32 - 'A' as u32 + 10) as u8)
    } else {
        None
    }
}

/// The byte that two hexadecimal digits spell.
pub open spec fn hex_byte_spec(two: Seq<char>) -> Option<u8> {
    if two.len() != 2 {
        None
    } else {
        match (hex_value(two[0]), hex_value(two[1])) {
            (Some(hi), Some(lo)) => Some((hi * 16 + lo) as u8),
            _ => None,
        }
    }
}

/// The value of a hexadecimal digit.
pub fn hex_digit(c: char) -> (r: Option<u8>)
    ensures
        r == hex_value(c),
        r matches Some(d) ==> d < 16,
{
    if '0' <= c && c <= '9' {
        Some((c as u32 - '0' as u32) as u8)
    } else if 'a' <= c && c <= 'f' {
        Some((c as u32 - 'a' as u32 + 10) as u8)
    } else if 'A' <= c && c <= 'F' {
        Some((c as u32 - 'A' as u32 + 10) as u8)
    } else {
        None
    }
}

/// The byte that two hexadecimal digits spell.
pub fn hex_byte(two: &[char]) -> (r: Option<u8>)
    ensures
        r == hex_byte_spec(two@),
{
    if two.len() != 2 {
        return None;
    }
    match (hex_digit(two[0]), hex_digit(two[1])) {
        (Some(hi), Some(lo)) => Some(hi * 16 + lo),
        _ => None,
    }
}

/// The digits that the encoder writes read back as the byte they came from.
pub proof fn lemma_hex_round_trip(b: u8, upper: bool)
    ensures
        hex_byte_spec(hex2(b, upper)) == Some(b),
{
    let hi = b / 16;
    let lo = b % 16;
    assert(hex_value(hex_char(hi, upper)) == Some(hi));
    assert(hex_value(hex_char(lo, upper)) == Some(lo));
}

/// What one line of a memory-patch text says.
#[derive(Debug, Clone, Copy, PartialEq, Eq, Structural)]
pub enum FmemDirective {
    /// A line that is no directive.
    Nothing,
    SetMemory(u8, u8),
    ClearAllMemory,
    ClearAllRegisters,
}

/// The first position from `i` on, below `end`, that holds no whitespace.
pub open spec fn skip_ws_to(l: Seq<char>, i: nat) -> nat
    decreases l.len() - i,
{
    if i < l.len() && is_ws(l[i as int]) {
        skip_ws_to(l, i + 1)
    } else {
        i
    }
}

/// The first position from `i` on that holds whitespace, or the end.
pub open spec fn word_end(l: Seq<char>, i: nat) -> nat
    decreases l.len() - i,
{
    if i < l.len() && !is_ws(l[i as int]) {
        word_end(l, i + 1)
    } else {
        i
    }
}

/// The first position from `i` on that holds `c`, or the end.
pub open spec fn find_char(l: Seq<char>, i: nat, c: char) -> nat
    decreases l.len() - i,
{
    if i < l.len() && l[i as int] != c {
        find_char(l, i + 1, c)
    } else {
        i
    }
}

/// A piece of text without the whitespace at either end.
pub open spec fn trim(l: Seq<char>) -> Seq<char>
    decreases l.len(),
{
    if l.len() > 0 && is_ws(l[0]) {
        trim(l.drop_first())
    } else if l.len() > 0 && is_ws(l.last()) {
        trim(l.drop_last())
    } else {
        l
    }
}

/// The `<adr>=<val>` part of a `#setMemory` line.
pub open spec fn set_memory_spec(rest: Seq<char>) -> Result<FmemDirective, Seq<char>> {
    let eq = find_char(rest, 0, '=');
    if eq >= rest.len() {
        Err("expected <adr>=<val>"@)
    } else {
        let adr = trim(rest.subrange(0, eq as int));
        let after = rest.subrange(eq + 1int, rest.len() as int);
        let val = trim(after.subrange(0, find_char(after, 0, '=') as int));
        if adr.len() != 2 {
            Err("address must be exactly two hex digits"@)
        } else if val.len() != 2 {
            Err("value must be exactly two hex digits"@)
        } else {
            match (hex_byte_spec(adr), hex_byte_spec(val)) {
                (Some(a), Some(v)) => Ok(FmemDirective::SetMemory(a, v)),
                _ => Err("invalid hex digit"@),
            }
        }
    }
}

/// What a line says: lines whose first character that is not whitespace
/// is no `#` say nothing; a `#` is followed by a directive name.
pub open spec fn fmem_line_spec(l: Seq<char>) -> Result<FmemDirective, Seq<char>> {
    let p = skip_ws_to(l, 0);
    if p >= l.len() || l[p as int] != '#' {
        Ok(FmemDirective::Nothing)
    } else {
        let q = skip_ws_to(l, p + 1);
        let e = word_end(l, q);
        let name = l.subrange(q as int, e as int);
        if name == "setMemory"@ {
            set_memory_spec(l.subrange(e as int, l.len() as int))
        } else if name == "ClearAllMemory"@ {
            Ok(FmemDirective::ClearAllMemory)
        } else if name == "ClearAllRegisters"@ {
            Ok(FmemDirective::ClearAllRegisters)
        } else {
            Err("unknown directive"@)
        }
    }
}

/// The line that the encoder writes for a byte reads back as that byte at
/// that address.
pub proof fn lemma_set_memory_line(a: u8, v: u8)
    ensures
        fmem_line_spec(" #setMemory  "@ + hex2(a, true) + "="@ + hex2(v, true)) == Ok::<
            FmemDirective,
            Seq<char>,
        >(FmemDirective::SetMemory(a, v)),
{
    reveal_strlit(" #setMemory  ");
    reveal_strlit("=");
    reveal_strlit("setMemory");
    let l = " #setMemory  "@ + hex2(a, true) + "="@ + hex2(v, true);
    lemma_hex_round_trip(a, true);
    lemma_hex_round_trip(v, true);
    let ha = hex2(a, true);
    let hv = hex2(v, true);
    assert(l.len() == 18);
    assert(l[0] == ' ' && l[1] == '#');
    assert(skip_ws_to(l, 1) == 1);
    assert(skip_ws_to(l, 0) == 1);
    assert(skip_ws_to(l, 2) == 2);
    assert(!is_ws(ha[0]) && !is_ws(ha[1]) && !is_ws(hv[0]) && !is_ws(hv[1]));
    assert(ha[0] != '=' && ha[1] != '=' && hv[0] != '=' && hv[1] != '=');
    assert(word_end(l, 2) == 11) by {
        assert(l.subrange(2, 11) =~= "setMemory"@);
        assert(is_ws(l[11]));
        assert(word_end(l, 11) == 11);
        assert(word_end(l, 10) == 11);
        assert(word_end(l, 9) == 11);
        assert(word_end(l, 8) == 11);
        assert(word_end(l, 7) == 11);
        assert(word_end(l, 6) == 11);
        assert(word_end(l, 5) == 11);
        assert(word_end(l, 4) == 11);
        assert(word_end(l, 3) == 11);
    }
    assert(l.subrange(2, 11) =~= "setMemory"@);
    let rest = l.subrange(11, 18);
    assert(rest =~= seq![' ', ' ', ha[0], ha[1], '=', hv[0], hv[1]]);
    assert(find_char(rest, 4, '=') == 4);
    assert(find_char(rest, 3, '=') == 4);
    assert(find_char(rest, 2, '=') == 4);
    assert(find_char(rest, 1, '=') == 4);
    assert(find_char(rest, 0, '=') == 4);
    let adr_raw = rest.subrange(0, 4);
    assert(adr_raw =~= seq![' ', ' ', ha[0], ha[1]]);
    assert(adr_raw.drop_first() =~= seq![' ', ha[0], ha[1]]);
    assert(adr_raw.drop_first().drop_first() =~= ha);
    assert(trim(ha) == ha);
    assert(trim(adr_raw.drop_first()) == ha);
    assert(trim(adr_raw) == ha);
    let after = rest.subrange(5, 7);
    assert(after =~= hv);
    assert(find_char(after, 2, '=') == 2);
    assert(find_char(after, 1, '=') == 2);
    assert(find_char(after, 0, '=') == 2);
    assert(after.subrange(0, 2) =~= hv);
    assert(trim(hv) == hv);
}

/// Why a memory-patch text does not read: a message and the line it is about.
#[derive(Debug)]
pub struct ParseError {
    pub msg: String,
    pub span: Span,
}

/// What a memory-patch text holds: the image and the two clearing flags.
#[derive(Debug, Clone)]
pub struct FmemParse {
    pub mem: [u8; 256],
    pub clear_all_memory: bool,
    pub clear_all_registers: bool,
}

/// What a memory-patch text holds, as the contracts see it.
pub struct FmemView {
    pub mem: Seq<u8>,
    pub clear_all_memory: bool,
    pub clear_all_registers: bool,
}

/// The state after one directive.
pub open spec fn apply_directive(st: FmemView, d: FmemDirective) -> FmemView {
    match d {
        FmemDirective::Nothing => st,
        FmemDirective::SetMemory(a, v) => FmemView { mem: st.mem.update(a as int, v), ..st },
        FmemDirective::ClearAllMemory => FmemView { clear_all_memory: true, ..st },
        FmemDirective::ClearAllRegisters => FmemView { clear_all_registers: true, ..st },
    }
}

/// Reads the lines of a text from position `i` on, each up to the next line break.
pub open spec fn fmem_from(s: Seq<char>, i: nat, st: FmemView) -> Result<FmemView, (Seq<char>, Span)>
    decreases s.len() - i,
{
    if i > s.len() {
        Ok(st)
    } else {
        let e = line_end(s, i);
        match fmem_line_spec(s.subrange(i as int, e as int)) {
            Err(m) => Err((m, Span { start: i as usize, end: e as usize })),
            Ok(d) => if i <= e < s.len() {
                fmem_from(s, e + 1, apply_directive(st, d))
            } else {
                Ok(apply_directive(st, d))
            },
        }
    }
}

/// Reading a whole text, from an image of zeros with both flags clear.
pub open spec fn fmem_parse_spec(s: Seq<char>) -> Result<FmemView, (Seq<char>, Span)> {
    fmem_from(
        s,
        0,
        FmemView { mem: Seq::new(256, |i: int| 0u8), clear_all_memory: false, clear_all_registers: false },
    )
}

fn is_space(c: char) -> (r: bool)
    ensures
        r == is_ws(c),
{
    c == ' ' || c == '\t' || c == '\n' || c == '\r' || c == '\x0C'
}

fn skip_spaces(l: &Vec<char>, i: usize) -> (r: usize)
    requires
        i <= l@.len(),
    ensures
        r == skip_ws_to(l@, i as nat),
        i <= r <= l@.len(),
{
    let mut j = i;
    while j < l.len() && is_space(l[j])
        invariant
            i <= j <= l@.len(),
            skip_ws_to(l@, i as nat) == skip_ws_to(l@, j as nat),
        decreases l@.len() - j,
    {
        j = j + 1;
    }
    j
}

fn word_end_exec(l: &Vec<char>, i: usize) -> (r: usize)
    requires
        i <= l@.len(),
    ensures
        r == word_end(l@, i as nat),
        i <= r <= l@.len(),
{
    let mut j = i;
    while j < l.len() && !is_space(l[j])
        invariant
            i <= j <= l@.len(),
            word_end(l@, i as nat) == word_end(l@, j as nat),
        decreases l@.len() - j,
    {
        j = j + 1;
    }
    j
}

fn find_char_exec(l: &Vec<char>, i: usize, c: char) -> (r: usize)
    requires
        i <= l@.len(),
    ensures
        r == find_char(l@, i as nat, c),
        i <= r <= l@.len(),
{
    let mut j = i;
    while j < l.len() && l[j] != c
        invariant
            i <= j <= l@.len(),
            find_char(l@, i as nat, c) == find_char(l@, j as nat, c),
        decreases l@.len() - j,
    {
        j = j + 1;
    }
    j
}

fn copy_range(l: &Vec<char>, a: usize, b: usize) -> (r: Vec<char>)
    requires
        a <= b <= l@.len(),
    ensures
        r@ == l@.subrange(a as int, b as int),
{
    let mut out: Vec<char> = Vec::new();
    let mut k = a;
    while k < b
        invariant
            a <= k <= b,
            b <= l@.len(),
            out@ == l@.subrange(a as int, k as int),
        decreases b - k,
    {
        out.push(l[k]);
        assert(out@ =~= l@.subrange(a as int, k + 1));
        k = k + 1;
    }
    out
}

fn trimmed(l: &Vec<char>) -> (r: Vec<char>)
    ensures
        r@ == trim(l@),
{
    let mut a: usize = 0;
    let mut b: usize = l.len();
    assert(l@.subrange(0, l@.len() as int) =~= l@);
    while a < b && is_space(l[a])
        invariant
            a <= b <= l@.len(),
            b == l@.len(),
            trim(l@) == trim(l@.subrange(a as int, b as int)),
        decreases b - a,
    {
        assert(l@.subrange(a as int, b as int).drop_first() =~= l@.subrange(a + 1, b as int));
        a = a + 1;
    }
    while a < b && is_space(l[b - 1])
        invariant
            a <= b <= l@.len(),
            a < b ==> !is_ws(l@[a as int]),
            trim(l@) == trim(l@.subrange(a as int, b as int)),
        decreases b - a,
    {
        assert(l@.subrange(a as int, b as int).drop_last() =~= l@.subrange(a as int, b - 1));
        b = b - 1;
    }
    copy_range(l, a, b)
}

fn str_of(l: &Vec<char>, a: usize, b: usize, lit: &str) -> (r: bool)
    requires
        a <= b <= l@.len(),
    ensures
        r == (l@.subrange(a as int, b as int) == lit@),
{
    let n = lit.unicode_len();
    if b - a != n {
        return false;
    }
    let mut k: usize = 0;
    while k < n
        invariant
            k <= n,
            n == lit@.len(),
            b - a == n,
            b <= l@.len(),
            forall|j: int| 0 <= j < k ==> l@[a + j] == lit@[j],
        decreases n - k,
    {
        if l[a + k] != lit.get_char(k) {
            assert(l@.subrange(a as int, b as int)[k as int] != lit@[k as int]);
            return false;
        }
        k = k + 1;
    }
    assert(l@.subrange(a as int, b as int) =~= lit@);
    true
}

/// Reads the `<adr>=<val>` part of a `#setMemory` line.
fn parse_set_memory(rest: &Vec<char>) -> (r: Result<FmemDirective, String>)
    ensures
        match set_memory_spec(rest@) {
            Ok(d) => r matches Ok(x) && x == d,
            Err(m) => r matches Err(e) && e@ == m,
        },
{
    let eq = find_char_exec(rest, 0, '=');
    if eq >= rest.len() {
        return Err(String::from_str("expected <adr>=<val>"));
    }
    let adr = trimmed(&copy_range(rest, 0, eq));
    let after = copy_range(rest, eq + 1, rest.len());
    let second = find_char_exec(&after, 0, '=');
    let val = trimmed(&copy_range(&after, 0, second));
    if adr.len() != 2 {
        return Err(String::from_str("address must be exactly two hex digits"));
    }
    if val.len() != 2 {
        return Err(String::from_str("value must be exactly two hex digits"));
    }
    match (hex_byte(adr.as_slice()), hex_byte(val.as_slice())) {
        (Some(a), Some(v)) => Ok(FmemDirective::SetMemory(a, v)),
        _ => Err(String::from_str("invalid hex digit")),
    }
}

/// Reads one line of a memory-patch text.
pub fn parse_directive(l: &Vec<char>) -> (r: Result<FmemDirective, String>)
    ensures
        match fmem_line_spec(l@) {
            Ok(d) => r matches Ok(x) && x == d,
            Err(m) => r matches Err(e) && e@ == m,
        },
{
    let p = skip_spaces(l, 0);
    if p >= l.len() || l[p] != '#' {
        return Ok(FmemDirective::Nothing);
    }
    let q = skip_spaces(l, p + 1);
    let e = word_end_exec(l, q);
    if str_of(l, q, e, "setMemory") {
        let rest = copy_range(l, e, l.len());
        parse_set_memory(&rest)
    } else if str_of(l, q, e, "ClearAllMemory") {
        Ok(FmemDirective::ClearAllMemory)
    } else if str_of(l, q, e, "ClearAllRegisters") {
        Ok(FmemDirective::ClearAllRegisters)
    } else {
        Err(String::from_str("unknown directive"))
    }
}

/// Reads a memory-patch text: each line is a directive or is skipped. The
/// first line that does not read stops the reading with an error that
/// spans it.
pub fn parse_fmem(src: &str) -> (r: Result<FmemParse, ParseError>)
    ensures
        match fmem_parse_spec(src@) {
            Ok(v) => r matches Ok(p) && p.mem@ == v.mem && p.clear_all_memory == v.clear_all_memory
                && p.clear_all_registers == v.clear_all_registers,
            Err((m, sp)) => r matches Err(e) && e.msg@ == m && e.span == sp,
        },
{
    let n = src.unicode_len();
    let mut chars: Vec<char> = Vec::new();
    let mut k: usize = 0;
    while k < n
        invariant
            k <= n,
            n == src@.len(),
            chars@ == src@.subrange(0, k as int),
        decreases n - k,
    {
        chars.push(src.get_char(k));
        assert(chars@ =~= src@.subrange(0, k + 1));
        k = k + 1;
    }
    assert(chars@ =~= src@);
    let ghost s = chars@;
    let mut mem = [0u8; 256];
    let mut clear_all_memory = false;
    let mut clear_all_registers = false;
    assert(mem@ =~= Seq::new(256, |i: int| 0u8));
    let mut i: usize = 0;
    let mut done = false;
    while !done
        invariant
            s == chars@,
            s == src@,
            n == s.len(),
            i <= n,
            fmem_parse_spec(s) == if done {
                Ok::<FmemView, (Seq<char>, Span)>(
                    FmemView { mem: mem@, clear_all_memory, clear_all_registers },
                )
            } else {
                fmem_from(s, i as nat, FmemView { mem: mem@, clear_all_memory, clear_all_registers })
            },
        decreases n - i + if done {
            0int
        } else {
            1int
        },
    {
        let mut e = i;
        while e < n && chars[e] != '\n'
            invariant
                i <= e <= n,
                n == s.len(),
                s == chars@,
                line_end(s, i as nat) == line_end(s, e as nat),
            decreases n - e,
        {
            e = e + 1;
        }
        let line = copy_range(&chars, i, e);
        let ghost st = FmemView { mem: mem@, clear_all_memory, clear_all_registers };
        match parse_directive(&line) {
            Err(m) => {
                return Err(ParseError { msg: m, span: Span { start: i, end: e } });
            },
            Ok(d) => {
                match d {
                    FmemDirective::Nothing => {},
                    FmemDirective::SetMemory(a, v) => {
                        mem[a as usize] = v;
                    },
                    FmemDirective::ClearAllMemory => {
                        clear_all_memory = true;
                    },
                    FmemDirective::ClearAllRegisters => {
                        clear_all_registers = true;
                    },
                }
                assert(FmemView { mem: mem@, clear_all_memory, clear_all_registers } == apply_directive(
                    st,
                    d,
                ));
                if e < n {
                    i = e + 1;
                } else {
                    done = true;
                }
            },
        }
    }
    Ok(FmemParse { mem, clear_all_memory, clear_all_registers })
}

/// Lines joined with line breaks between them.
pub open spec fn join_lines(ls: Seq<Seq<char>>) -> Seq<char>
    decreases ls.len(),
{
    if ls.len() == 0 {
        Seq::empty()
    } else if ls.len() == 1 {
        ls[0]
    } else {
        ls[0] + seq!['\n'] + join_lines(ls.drop_first())
    }
}

/// The state after reading the lines in order, or the message of the
/// first that does not read.
pub open spec fn fold_lines(ls: Seq<Seq<char>>, st: FmemView) -> Result<FmemView, Seq<char>>
    decreases ls.len(),
{
    if ls.len() == 0 {
        Ok(st)
    } else {
        match fmem_line_spec(ls[0]) {
            Ok(d) => fold_lines(ls.drop_first(), apply_directive(st, d)),
            Err(m) => Err(m),
        }
    }
}

/// Whether a piece of text holds no line break.
pub open spec fn no_newline(l: Seq<char>) -> bool {
    forall|i: int| 0 <= i < l.len() ==> l[i] != '\n'
}

proof fn lemma_line_end_at(s: Seq<char>, i: nat, j: nat)
    requires
        i <= j <= s.len(),
        j == s.len() || s[j as int] == '\n',
        forall|k: int| i <= k < j ==> s[k] != '\n',
    ensures
        line_end(s, i) == j,
    decreases j - i,
{
    if i < j {
        lemma_line_end_at(s, i + 1, j);
    }
}

proof fn lemma_fmem_from_shift(x: Seq<char>, y: Seq<char>, i: nat, st: FmemView)
    requires
        i <= y.len(),
        fmem_from(y, i, st) is Ok,
    ensures
        fmem_from(x + y, x.len() + i, st) == fmem_from(y, i, st),
    decreases y.len() - i,
{
    let s = x + y;
    let e = line_end(y, i);
    crate::lexer::lemma_line_end_bounds(y, i);
    assert forall|k: int| x.len() + i <= k < x.len() + e implies s[k] != '\n' by {
        assert(s[k] == y[k - x.len()]);
        lemma_no_break_before_line_end(y, i, (k - x.len()) as nat);
    }
    lemma_line_end_at(s, x.len() + i, x.len() + e);
    assert(s.subrange((x.len() + i) as int, (x.len() + e) as int) =~= y.subrange(i as int, e as int));
    if e < y.len() {
        match fmem_line_spec(y.subrange(i as int, e as int)) {
            Ok(d) => {
                lemma_fmem_from_shift(x, y, e + 1, apply_directive(st, d));
            },
            Err(_) => {},
        }
    }
}

proof fn lemma_no_break_before_line_end(s: Seq<char>, i: nat, k: nat)
    requires
        i <= k < line_end(s, i),
        i <= s.len(),
    ensures
        s[k as int] != '\n',
    decreases k - i,
{
    if i < k {
        lemma_no_break_before_line_end(s, i + 1, k);
    }
}

/// Reading joined lines that hold no line break is reading them one by one.
proof fn lemma_read_joined(ls: Seq<Seq<char>>, st: FmemView)
    requires
        ls.len() > 0,
        forall|k: int| 0 <= k < ls.len() ==> no_newline(#[trigger] ls[k]),
    ensures
        fold_lines(ls, st) matches Ok(v) ==> fmem_from(join_lines(ls), 0, st) == Ok::<
            FmemView,
            (Seq<char>, Span),
        >(v),
    decreases ls.len(),
{
    let l0 = ls[0];
    assert(no_newline(l0));
    if let Ok(d) = fmem_line_spec(l0) {
        if ls.len() == 1 {
            let s = join_lines(ls);
            assert(s == l0);
            lemma_line_end_at(s, 0, s.len());
            assert(s.subrange(0, s.len() as int) =~= s);
            assert(ls.drop_first().len() == 0);
            assert(fold_lines(ls, st) == fold_lines(ls.drop_first(), apply_directive(st, d)));
            assert(fmem_from(s, 0, st) == Ok::<FmemView, (Seq<char>, Span)>(apply_directive(st, d)));
        } else {
            let rest = ls.drop_first();
            assert forall|k: int| 0 <= k < rest.len() implies no_newline(#[trigger] rest[k]) by {
                assert(rest[k] == ls[k + 1]);
            }
            let st2 = apply_directive(st, d);
            lemma_read_joined(rest, st2);
            let j = join_lines(rest);
            let x = l0 + seq!['\n'];
            let s = join_lines(ls);
            assert(s =~= x + j);
            lemma_line_end_at(s, 0, l0.len());
            assert(s.subrange(0, l0.len() as int) =~= l0);
            assert(fold_lines(ls, st) == fold_lines(rest, st2));
            assert(fmem_from(s, 0, st) == fmem_from(s, (l0.len() + 1) as nat, st2));
            if let Ok(v) = fold_lines(rest, st2) {
                lemma_fmem_from_shift(x, j, 0, st2);
                assert(x.len() + 0 == l0.len() + 1);
                assert(fmem_from(s, (l0.len() + 1) as nat, st2) == fmem_from(j, 0, st2));
            }
        }
    }
}

/// The line that the encoder writes for a byte that is not zero.
pub open spec fn set_line(a: u8, v: u8) -> Seq<char> {
    " #setMemory  "@ + hex2(a, true) + "="@ + hex2(v, true)
}

/// The header lines of the encoder's text.
pub open spec fn header_lines(name: Seq<char>) -> Seq<Seq<char>> {
    seq!["File: "@ + name, Seq::<char>::empty(), " # ClearAllMemory"@, " # ClearAllRegisters"@]
}

/// The encoder's `#setMemory` lines for the addresses below `n`.
pub open spec fn set_lines(mem: Seq<u8>, n: nat) -> Seq<Seq<char>>
    decreases n,
{
    if n == 0 {
        Seq::empty()
    } else {
        let a = (n - 1) as nat;
        set_lines(mem, a) + if mem[a as int] != 0 {
            seq![set_line(a as u8, mem[a as int])]
        } else {
            Seq::<Seq<char>>::empty()
        }
    }
}

proof fn lemma_join_push(ls: Seq<Seq<char>>, l: Seq<char>)
    requires
        ls.len() > 0,
    ensures
        join_lines(ls.push(l)) == join_lines(ls) + seq!['\n'] + l,
    decreases ls.len(),
{
    let p = ls.push(l);
    assert(p[0] == ls[0]);
    assert(p.len() >= 2);
    if ls.len() == 1 {
        assert(p.drop_first() =~= seq![l]);
        assert(join_lines(p.drop_first()) == l);
        assert(join_lines(ls) == ls[0]);
        assert(join_lines(p) == ls[0] + seq!['\n'] + l);
    } else {
        assert(p.drop_first() =~= ls.drop_first().push(l));
        lemma_join_push(ls.drop_first(), l);
        assert(join_lines(p) == ls[0] + seq!['\n'] + join_lines(p.drop_first()));
        assert(join_lines(ls) == ls[0] + seq!['\n'] + join_lines(ls.drop_first()));
        assert(join_lines(p) =~= join_lines(ls) + seq!['\n'] + l);
    }
}

proof fn lemma_fold_push(ls: Seq<Seq<char>>, l: Seq<char>, st: FmemView)
    ensures
        fold_lines(ls.push(l), st) == match fold_lines(ls, st) {
            Ok(v) => fold_lines(seq![l], v),
            Err(m) => Err(m),
        },
    decreases ls.len(),
{
    if ls.len() > 0 {
        assert(ls.push(l).drop_first() =~= ls.drop_first().push(l));
        match fmem_line_spec(ls[0]) {
            Ok(d) => lemma_fold_push(ls.drop_first(), l, apply_directive(st, d)),
            Err(_) => {},
        }
    } else {
        assert(ls.push(l) =~= seq![l]);
    }
}

proof fn lemma_word_end_at(l: Seq<char>, i: nat)
    requires
        i <= l.len(),
        forall|k: int| i <= k < l.len() ==> !is_ws(l[k]),
    ensures
        word_end(l, i) == l.len(),
    decreases l.len() - i,
{
    if i < l.len() {
        lemma_word_end_at(l, i + 1);
    }
}

proof fn lemma_clear_line(l: Seq<char>, name: Seq<char>)
    requires
        l == seq![' ', '#', ' '] + name,
        name.len() > 0,
        name.len() != 9,
        forall|k: int| 0 <= k < name.len() ==> !is_ws(name[k]),
    ensures
        fmem_line_spec(l) == if name == "ClearAllMemory"@ {
            Ok::<FmemDirective, Seq<char>>(FmemDirective::ClearAllMemory)
        } else if name == "ClearAllRegisters"@ {
            Ok::<FmemDirective, Seq<char>>(FmemDirective::ClearAllRegisters)
        } else {
            Err::<FmemDirective, Seq<char>>("unknown directive"@)
        },
{
    reveal_strlit("setMemory");
    assert(skip_ws_to(l, 1) == 1);
    assert(skip_ws_to(l, 0) == 1);
    assert(skip_ws_to(l, 3) == 3);
    assert(skip_ws_to(l, 2) == 3);
    assert forall|k: int| 3 <= k < l.len() implies !is_ws(l[k]) by {
        assert(l[k] == name[k - 3]);
    }
    lemma_word_end_at(l, 3);
    assert(l.subrange(3, l.len() as int) =~= name);
}

proof fn lemma_fold_header(name: Seq<char>, st: FmemView)
    requires
        no_newline(name),
    ensures
        fold_lines(header_lines(name), st) == Ok::<FmemView, Seq<char>>(
            FmemView { clear_all_memory: true, clear_all_registers: true, ..st },
        ),
{
    reveal_strlit("File: ");
    reveal_strlit(" # ClearAllMemory");
    reveal_strlit(" # ClearAllRegisters");
    reveal_strlit("ClearAllMemory");
    reveal_strlit("ClearAllRegisters");
    let h = header_lines(name);
    let l0 = "File: "@ + name;
    assert(l0[0] == 'F');
    assert(skip_ws_to(l0, 0) == 0);
    assert(fmem_line_spec(l0) == Ok::<FmemDirective, Seq<char>>(FmemDirective::Nothing));
    assert(skip_ws_to(Seq::<char>::empty(), 0) == 0);
    assert(fmem_line_spec(Seq::<char>::empty()) == Ok::<FmemDirective, Seq<char>>(FmemDirective::Nothing));
    let cm = "ClearAllMemory"@;
    let cr = "ClearAllRegisters"@;
    assert(" # ClearAllMemory"@ =~= seq![' ', '#', ' '] + cm);
    assert(" # ClearAllRegisters"@ =~= seq![' ', '#', ' '] + cr);
    lemma_clear_line(" # ClearAllMemory"@, cm);
    lemma_clear_line(" # ClearAllRegisters"@, cr);
    assert(cr != cm) by {
        assert(cr.len() != cm.len());
    }
    let h1 = h.drop_first();
    let h2 = h1.drop_first();
    let h3 = h2.drop_first();
    let h4 = h3.drop_first();
    assert(h1 =~= seq![Seq::<char>::empty(), " # ClearAllMemory"@, " # ClearAllRegisters"@]);
    assert(h2 =~= seq![" # ClearAllMemory"@, " # ClearAllRegisters"@]);
    assert(h3 =~= seq![" # ClearAllRegisters"@]);
    assert(h4 =~= Seq::<Seq<char>>::empty());
    let s1 = apply_directive(st, FmemDirective::Nothing);
    let s3 = apply_directive(s1, FmemDirective::ClearAllMemory);
    let s4 = apply_directive(s3, FmemDirective::ClearAllRegisters);
    assert(fold_lines(h4, s4) == Ok::<FmemView, Seq<char>>(s4));
    assert(fold_lines(h3, s3) == fold_lines(h4, s4));
    assert(fold_lines(h2, s1) == fold_lines(h3, s3));
    assert(fold_lines(h1, s1) == fold_lines(h2, s1));
    assert(fold_lines(h, st) == fold_lines(h1, s1));
}

/// The image that keeps the bytes of `mem` below `n`, and zeros above.
pub open spec fn image_below(mem: Seq<u8>, n: nat) -> Seq<u8> {
    Seq::new(256, |i: int| if i < n { mem[i] } else { 0u8 })
}

proof fn lemma_fold_set_lines(mem: Seq<u8>, n: nat, st: FmemView)
    requires
        mem.len() == 256,
        n <= 256,
        st.mem == Seq::new(256, |i: int| 0u8),
    ensures
        fold_lines(set_lines(mem, n), st) == Ok::<FmemView, Seq<char>>(
            FmemView { mem: image_below(mem, n), ..st },
        ),
    decreases n,
{
    if n == 0 {
        assert(image_below(mem, 0) =~= st.mem);
    } else {
        let a = (n - 1) as nat;
        lemma_fold_set_lines(mem, a, st);
        if mem[a as int] != 0 {
            let l = set_line(a as u8, mem[a as int]);
            lemma_fold_push(set_lines(mem, a), l, st);
            lemma_set_memory_line(a as u8, mem[a as int]);
            assert(seq![l].drop_first() =~= Seq::<Seq<char>>::empty());
            assert(seq![l][0] == l);
            let v = FmemView { mem: image_below(mem, a), ..st };
            let d = FmemDirective::SetMemory(a as u8, mem[a as int]);
            assert(fold_lines(seq![l], v) == fold_lines(seq![l].drop_first(), apply_directive(v, d)));
            assert(image_below(mem, a).update(a as int, mem[a as int]) =~= image_below(mem, n));
            assert(set_lines(mem, n) =~= set_lines(mem, a).push(l));
        } else {
            assert(set_lines(mem, n) =~= set_lines(mem, a));
            assert(image_below(mem, a) =~= image_below(mem, n));
        }
    }
}

proof fn lemma_fold_append(a: Seq<Seq<char>>, b: Seq<Seq<char>>, st: FmemView)
    ensures
        fold_lines(a + b, st) == match fold_lines(a, st) {
            Ok(v) => fold_lines(b, v),
            Err(m) => Err(m),
        },
    decreases a.len(),
{
    if a.len() > 0 {
        assert((a + b).drop_first() =~= a.drop_first() + b);
        match fmem_line_spec(a[0]) {
            Ok(d) => lemma_fold_append(a.drop_first(), b, apply_directive(st, d)),
            Err(_) => {},
        }
    } else {
        assert(a + b =~= b);
    }
}

proof fn lemma_join_text(name: Seq<char>, mem: Seq<u8>, n: nat)
    requires
        mem.len() == 256,
        n <= 256,
    ensures
        join_lines(header_lines(name) + set_lines(mem, n)) == "File: "@ + name
            + "\n\n # ClearAllMemory\n # ClearAllRegisters"@ + set_memory_lines(mem, n),
    decreases n,
{
    reveal_strlit("\n\n # ClearAllMemory\n # ClearAllRegisters");
    reveal_strlit(" # ClearAllMemory");
    reveal_strlit(" # ClearAllRegisters");
    let h = header_lines(name);
    if n == 0 {
        assert(h + set_lines(mem, 0) =~= h);
        let h1 = h.drop_first();
        let h2 = h1.drop_first();
        let h3 = h2.drop_first();
        assert(h3 =~= seq![" # ClearAllRegisters"@]);
        assert(h2 =~= seq![" # ClearAllMemory"@, " # ClearAllRegisters"@]);
        assert(h1 =~= seq![Seq::<char>::empty(), " # ClearAllMemory"@, " # ClearAllRegisters"@]);
        assert(join_lines(h3) == " # ClearAllRegisters"@);
        assert(join_lines(h2) == " # ClearAllMemory"@ + seq!['\n'] + join_lines(h3));
        assert(join_lines(h1) == Seq::<char>::empty() + seq!['\n'] + join_lines(h2));
        assert(join_lines(h) == "File: "@ + name + seq!['\n'] + join_lines(h1));
        assert(join_lines(h) =~= "File: "@ + name + "\n\n # ClearAllMemory\n # ClearAllRegisters"@);
        assert(set_memory_lines(mem, 0) =~= Seq::<char>::empty());
    } else {
        let a = (n - 1) as nat;
        lemma_join_text(name, mem, a);
        if mem[a as int] != 0 {
            let l = set_line(a as u8, mem[a as int]);
            assert(h + set_lines(mem, n) =~= (h + set_lines(mem, a)).push(l));
            lemma_join_push(h + set_lines(mem, a), l);
            reveal_strlit("\n #setMemory  ");
            reveal_strlit(" #setMemory  ");
            assert("\n #setMemory  "@ =~= seq!['\n'] + " #setMemory  "@);
        } else {
            assert(h + set_lines(mem, n) =~= h + set_lines(mem, a));
        }
    }
}

/// Round trip of the memory-patch format: reading the text that the
/// encoder writes for an image gives the image back, with both clearing
/// flags set. The file name must hold no line break.
pub proof fn lemma_fmem_round_trip(name: Seq<char>, mem: Seq<u8>)
    requires
        mem.len() == 256,
        no_newline(name),
    ensures
        fmem_parse_spec(fmem_text(name, mem)) == Ok::<FmemView, (Seq<char>, Span)>(
            FmemView { mem: mem, clear_all_memory: true, clear_all_registers: true },
        ),
{
    let zeros = FmemView { mem: Seq::new(256, |i: int| 0u8), clear_all_memory: false, clear_all_registers: false };
    let h = header_lines(name);
    let sl = set_lines(mem, 256);
    let ls = h + sl;
    lemma_join_text(name, mem, 256);
    lemma_fold_header(name, zeros);
    let after_header = FmemView { clear_all_memory: true, clear_all_registers: true, ..zeros };
    lemma_fold_set_lines(mem, 256, after_header);
    lemma_fold_append(h, sl, zeros);
    assert(image_below(mem, 256) =~= mem);
    lemma_lines_have_no_break(name, mem, 256);
    lemma_read_joined(ls, zeros);
}

proof fn lemma_lines_have_no_break(name: Seq<char>, mem: Seq<u8>, n: nat)
    requires
        mem.len() == 256,
        n <= 256,
        no_newline(name),
    ensures
        forall|k: int| 0 <= k < (header_lines(name) + set_lines(mem, n)).len() ==> no_newline(
            #[trigger] (header_lines(name) + set_lines(mem, n))[k],
        ),
    decreases n,
{
    reveal_strlit("File: ");
    reveal_strlit(" # ClearAllMemory");
    reveal_strlit(" # ClearAllRegisters");
    reveal_strlit(" #setMemory  ");
    reveal_strlit("=");
    let h = header_lines(name);
    let ls = h + set_lines(mem, n);
    if n == 0 {
        assert forall|k: int| 0 <= k < ls.len() implies no_newline(#[trigger] ls[k]) by {
            assert(ls[k] == h[k]);
            if k == 0 {
                assert forall|i: int| 0 <= i < ls[k].len() implies ls[k][i] != '\n' by {
                    if i >= 6 {
                        assert(ls[k][i] == name[i - 6]);
                    }
                }
            }
        }
    } else {
        let a = (n - 1) as nat;
        lemma_lines_have_no_break(name, mem, a);
        let prev = h + set_lines(mem, a);
        assert forall|k: int| 0 <= k < ls.len() implies no_newline(#[trigger] ls[k]) by {
            if k < prev.len() {
                assert(ls[k] == prev[k]);
            } else {
                let l = set_line(a as u8, mem[a as int]);
                assert(ls[k] == l);
                assert forall|i: int| 0 <= i < l.len() implies l[i] != '\n' by {
                    let ha = hex2(a as u8, true);
                    let hv = hex2(mem[a as int], true);
                    assert(l =~= " #setMemory  "@ + ha + "="@ + hv);
                }
            }
        }
    }
}

} // verus!
