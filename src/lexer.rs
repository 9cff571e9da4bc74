//! Lexical analysis: source text to tokens.

use vstd::prelude::*;

use vstd::string::*;

use crate::isa::{decode, isa, Instruction};

verus! {

/// A range of positions in the source text: `start` up to, not including, `end`.
#[derive(Debug, Clone, Copy, PartialEq, Eq, Structural)]
pub struct Span {
    pub start: usize,
    pub end: usize,
}

/// An assembler directive.
#[derive(Debug, Clone, Copy, PartialEq, Eq, Structural)]
pub enum Directive {
    Org,
    Equ,
    Fcb,
    Fcs,
    Rmb,
}

/// A register name as it may stand in an operand.
#[derive(Debug, Clone, Copy, PartialEq, Eq, Structural)]
pub enum NamedLiteral {
    SP,
    X,
    A,
    Y,
    CC,
    XPlus,
    XMinus,
    PlusX,
    MinusX,
    YPlus,
    YMinus,
    PlusY,
    MinusY,
}

/// The kind of a token.
#[derive(Debug, Clone, Copy, PartialEq, Eq, Structural)]
pub enum TokenKind {
    /// A character that starts no token.
    Invalid,
    Eof,
    Directive,
    Sym,
    Instruction,
    NamedLiteral,
    NumberLiteral,
    ImmediatePrefix,
    Colon,
    Comma,
    Comment,
}

/// What a token carries.
#[derive(Debug, Clone)]
pub enum TokenValue {
    Empty,
    Directive(Directive),
    Sym(String),
    Instruction(Instruction),
    NamedLiteral(NamedLiteral),
    NumberLiteral(u8),
}

/// What a token carries, with a symbol's name as characters.
pub enum ValueV {
    Empty,
    Directive(Directive),
    Sym(Seq<char>),
    Instruction(Instruction),
    NamedLiteral(NamedLiteral),
    NumberLiteral(u8),
}

impl View for TokenValue {
    type V = ValueV;

    open spec fn view(&self) -> ValueV {
        match self {
            TokenValue::Empty => ValueV::Empty,
            TokenValue::Directive(d) => ValueV::Directive(*d),
            TokenValue::Sym(s) => ValueV::Sym(s@),
            TokenValue::Instruction(i) => ValueV::Instruction(*i),
            TokenValue::NamedLiteral(n) => ValueV::NamedLiteral(*n),
            TokenValue::NumberLiteral(n) => ValueV::NumberLiteral(*n),
        }
    }
}

impl TokenValue {
    pub fn expect_directive(&self) -> (r: Directive)
        requires
            self is Directive,
        ensures
            self@ == ValueV::Directive(r),
    {
        match self {
            TokenValue::Directive(d) => *d,
            _ => Directive::Org,
        }
    }

    pub fn expect_sym(&self) -> (r: &String)
        requires
            self is Sym,
        ensures
            self@ == ValueV::Sym(r@),
    {
        match self {
            TokenValue::Sym(s) => s,
            _ => vstd::pervasive::unreached(),
        }
    }

    pub fn expect_instruction(&self) -> (r: Instruction)
        requires
            self is Instruction,
        ensures
            self@ == ValueV::Instruction(r),
    {
        match self {
            TokenValue::Instruction(i) => *i,
            _ => Instruction::NOP,
        }
    }

    pub fn expect_named_literal(&self) -> (r: NamedLiteral)
        requires
            self is NamedLiteral,
        ensures
            self@ == ValueV::NamedLiteral(r),
    {
        match self {
            TokenValue::NamedLiteral(n) => *n,
            _ => NamedLiteral::A,
        }
    }

    pub fn expect_number_literal(&self) -> (r: u8)
        requires
            self is NumberLiteral,
        ensures
            self@ == ValueV::NumberLiteral(r),
    {
        match self {
            TokenValue::NumberLiteral(n) => *n,
            _ => 0,
        }
    }
}

/// A token: its kind, what it carries, and where it stands.
#[derive(Debug, Clone)]
pub struct Token {
    pub kind: TokenKind,
    pub value: TokenValue,
    pub span: Span,
}

impl Token {
    /// The end-of-input token at a position.
    pub fn eof(pos: usize) -> (r: Self)
        ensures
            r.kind == TokenKind::Eof,
            r.value@ == ValueV::Empty,
            r.span == (Span { start: pos, end: pos }),
    {
        Token { kind: TokenKind::Eof, value: TokenValue::Empty, span: Span { start: pos, end: pos } }
    }
}

/// ASCII whitespace.
pub open spec fn is_ws(c: char) -> bool {
    c == ' ' || c == '\t' || c == '\n' || c == '\r' || c == '\x0C'
}

/// A letter.
pub open spec fn is_alpha(c: char) -> bool {
    ('A' <= c && c <= 'Z') || ('a' <= c && c <= 'z')
}

/// A character that may continue an identifier.
pub open spec fn is_ident(c: char) -> bool {
    is_alpha(c) || c == '_' || ('0' <= c && c <= '9')
}

/// The first position from `i` on that holds no whitespace.
pub open spec fn skip_ws(s: Seq<char>, i: nat) -> nat
    decreases s.len() - i,
{
    if i < s.len() && is_ws(s[i as int]) {
        skip_ws(s, i + 1)
    } else {
        i
    }
}

/// The end of the identifier that starts at `i`.
pub open spec fn ident_end(s: Seq<char>, i: nat) -> nat
    decreases s.len() - i,
{
    if i < s.len() && is_ident(s[i as int]) {
        ident_end(s, i + 1)
    } else {
        i
    }
}

/// The position of the line break that ends the line of `i`, or the end.
pub open spec fn line_end(s: Seq<char>, i: nat) -> nat
    decreases s.len() - i,
{
    if i < s.len() && s[i as int] != '\n' {
        line_end(s, i + 1)
    } else {
        i
    }
}

/// The value of a digit in a base (2, 10 or 16). The digits 0 and 1 count
/// in every base.
pub open spec fn digit_value(c: char, base: nat) -> Option<nat> {
    if c == '0' || c == '1' {
        Some((c as nat - '0' as nat) as nat)
    } else if '2' <= c && c <= '9' && base >= 10 {
        Some((c as nat - '0' as nat) as nat)
    } else if 'a' <= c && c <= 'f' && base == 16 {
        Some((c as nat - 'a' as nat + 10) as nat)
    } else if 'A' <= c && c <= 'F' && base == 16 {
        Some((c as nat - 'A' as nat + 10) as nat)
    } else {
        None
    }
}

/// The value and end of a number read from `i` on: digits are taken while
/// the value stays within a byte; the first digit that would take it past
/// 255 ends the number.
pub open spec fn number_scan(s: Seq<char>, i: nat, base: nat, sum: nat) -> (nat, nat)
    decreases s.len() - i,
{
    if i < s.len() && digit_value(s[i as int], base) is Some && sum * base + digit_value(
        s[i as int],
        base,
    ).unwrap() <= 255 {
        number_scan(s, i + 1, base, sum * base + digit_value(s[i as int], base).unwrap())
    } else {
        (sum, i)
    }
}

/// The text of a mnemonic.
pub open spec fn mnemonic(ins: Instruction) -> Seq<char> {
    match ins {
        Instruction::NOP => "NOP"@,
        Instruction::ANDCC => "ANDCC"@,
        Instruction::ORCC => "ORCC"@,
        Instruction::CLRA => "CLRA"@,
        Instruction::NEGA => "NEGA"@,
        Instruction::INCA => "INCA"@,
        Instruction::DECA => "DECA"@,
        Instruction::TSTA => "TSTA"@,
        Instruction::COMA => "COMA"@,
        Instruction::LSLA => "LSLA"@,
        Instruction::LSRA => "LSRA"@,
        Instruction::ROLA => "ROLA"@,
        Instruction::RORA => "RORA"@,
        Instruction::ASRA => "ASRA"@,
        Instruction::PSHA => "PSHA"@,
        Instruction::PSHX => "PSHX"@,
        Instruction::PSHY => "PSHY"@,
        Instruction::PSHC => "PSHC"@,
        Instruction::PULA => "PULA"@,
        Instruction::PULX => "PULX"@,
        Instruction::PULY => "PULY"@,
        Instruction::PULC => "PULC"@,
        Instruction::TFR => "TFR"@,
        Instruction::BSR => "BSR"@,
        Instruction::BRA => "BRA"@,
        Instruction::BMI => "BMI"@,
        Instruction::BPL => "BPL"@,
        Instruction::BEQ => "BEQ"@,
        Instruction::BNE => "BNE"@,
        Instruction::BVS => "BVS"@,
        Instruction::BVC => "BVC"@,
        Instruction::BCS => "BCS"@,
        Instruction::BCC => "BCC"@,
        Instruction::BHI => "BHI"@,
        Instruction::BLS => "BLS"@,
        Instruction::BGT => "BGT"@,
        Instruction::BGE => "BGE"@,
        Instruction::BLE => "BLE"@,
        Instruction::BLT => "BLT"@,
        Instruction::STX => "STX"@,
        Instruction::STY => "STY"@,
        Instruction::STSP => "STSP"@,
        Instruction::JMP => "JMP"@,
        Instruction::JSR => "JSR"@,
        Instruction::CLR => "CLR"@,
        Instruction::NEG => "NEG"@,
        Instruction::INC => "INC"@,
        Instruction::DEC => "DEC"@,
        Instruction::TST => "TST"@,
        Instruction::COM => "COM"@,
        Instruction::LSL => "LSL"@,
        Instruction::LSR => "LSR"@,
        Instruction::ROL => "ROL"@,
        Instruction::ROR => "ROR"@,
        Instruction::ASR => "ASR"@,
        Instruction::RTS => "RTS"@,
        Instruction::RTI => "RTI"@,
        Instruction::LDX => "LDX"@,
        Instruction::LDY => "LDY"@,
        Instruction::LDSP => "LDSP"@,
        Instruction::SBCA => "SBCA"@,
        Instruction::SUBA => "SUBA"@,
        Instruction::ADCA => "ADCA"@,
        Instruction::ADDA => "ADDA"@,
        Instruction::CMPA => "CMPA"@,
        Instruction::BITA => "BITA"@,
        Instruction::ANDA => "ANDA"@,
        Instruction::ORA => "ORA"@,
        Instruction::EORA => "EORA"@,
        Instruction::CMPX => "CMPX"@,
        Instruction::CMPY => "CMPY"@,
        Instruction::CMPSP => "CMPSP"@,
        Instruction::EXG => "EXG"@,
        Instruction::LEASP => "LEASP"@,
        Instruction::LEAX => "LEAX"@,
        Instruction::LEAY => "LEAY"@,
        Instruction::STA => "STA"@,
        Instruction::LDA => "LDA"@,
    }
}

/// The text of a mnemonic.
pub fn mnemonic_str(ins: Instruction) -> (r: &'static str)
    ensures
        r@ == mnemonic(ins),
{
    match ins {
        Instruction::NOP => "NOP",
        Instruction::ANDCC => "ANDCC",
        Instruction::ORCC => "ORCC",
        Instruction::CLRA => "CLRA",
        Instruction::NEGA => "NEGA",
        Instruction::INCA => "INCA",
        Instruction::DECA => "DECA",
        Instruction::TSTA => "TSTA",
        Instruction::COMA => "COMA",
        Instruction::LSLA => "LSLA",
        Instruction::LSRA => "LSRA",
        Instruction::ROLA => "ROLA",
        Instruction::RORA => "RORA",
        Instruction::ASRA => "ASRA",
        Instruction::PSHA => "PSHA",
        Instruction::PSHX => "PSHX",
        Instruction::PSHY => "PSHY",
        Instruction::PSHC => "PSHC",
        Instruction::PULA => "PULA",
        Instruction::PULX => "PULX",
        Instruction::PULY => "PULY",
        Instruction::PULC => "PULC",
        Instruction::TFR => "TFR",
        Instruction::BSR => "BSR",
        Instruction::BRA => "BRA",
        Instruction::BMI => "BMI",
        Instruction::BPL => "BPL",
        Instruction::BEQ => "BEQ",
        Instruction::BNE => "BNE",
        Instruction::BVS => "BVS",
        Instruction::BVC => "BVC",
        Instruction::BCS => "BCS",
        Instruction::BCC => "BCC",
        Instruction::BHI => "BHI",
        Instruction::BLS => "BLS",
        Instruction::BGT => "BGT",
        Instruction::BGE => "BGE",
        Instruction::BLE => "BLE",
        Instruction::BLT => "BLT",
        Instruction::STX => "STX",
        Instruction::STY => "STY",
        Instruction::STSP => "STSP",
        Instruction::JMP => "JMP",
        Instruction::JSR => "JSR",
        Instruction::CLR => "CLR",
        Instruction::NEG => "NEG",
        Instruction::INC => "INC",
        Instruction::DEC => "DEC",
        Instruction::TST => "TST",
        Instruction::COM => "COM",
        Instruction::LSL => "LSL",
        Instruction::LSR => "LSR",
        Instruction::ROL => "ROL",
        Instruction::ROR => "ROR",
        Instruction::ASR => "ASR",
        Instruction::RTS => "RTS",
        Instruction::RTI => "RTI",
        Instruction::LDX => "LDX",
        Instruction::LDY => "LDY",
        Instruction::LDSP => "LDSP",
        Instruction::SBCA => "SBCA",
        Instruction::SUBA => "SUBA",
        Instruction::ADCA => "ADCA",
        Instruction::ADDA => "ADDA",
        Instruction::CMPA => "CMPA",
        Instruction::BITA => "BITA",
        Instruction::ANDA => "ANDA",
        Instruction::ORA => "ORA",
        Instruction::EORA => "EORA",
        Instruction::CMPX => "CMPX",
        Instruction::CMPY => "CMPY",
        Instruction::CMPSP => "CMPSP",
        Instruction::EXG => "EXG",
        Instruction::LEASP => "LEASP",
        Instruction::LEAX => "LEAX",
        Instruction::LEAY => "LEAY",
        Instruction::STA => "STA",
        Instruction::LDA => "LDA",
    }
}

/// The instruction whose mnemonic is `id`: the first one in opcode order.
pub open spec fn instruction_from(id: Seq<char>, op: nat) -> Option<Instruction>
    decreases 256 - op,
{
    if op >= 256 {
        None
    } else {
        match isa(op as u8) {
            Some((ins, _)) => if mnemonic(ins) == id {
                Some(ins)
            } else {
                instruction_from(id, op + 1)
            },
            None => instruction_from(id, op + 1),
        }
    }
}

/// The register that a name denotes.
pub open spec fn named_literal_spec(id: Seq<char>) -> Option<NamedLiteral> {
    if id == "SP"@ {
        Some(NamedLiteral::SP)
    } else if id == "X"@ {
        Some(NamedLiteral::X)
    } else if id == "A"@ {
        Some(NamedLiteral::A)
    } else if id == "Y"@ {
        Some(NamedLiteral::Y)
    } else if id == "CC"@ {
        Some(NamedLiteral::CC)
    } else if id == "X+"@ {
        Some(NamedLiteral::XPlus)
    } else if id == "X-"@ {
        Some(NamedLiteral::XMinus)
    } else if id == "+X"@ {
        Some(NamedLiteral::PlusX)
    } else if id == "-X"@ {
        Some(NamedLiteral::MinusX)
    } else if id == "Y+"@ {
        Some(NamedLiteral::YPlus)
    } else if id == "Y-"@ {
        Some(NamedLiteral::YMinus)
    } else if id == "+Y"@ {
        Some(NamedLiteral::PlusY)
    } else if id == "-Y"@ {
        Some(NamedLiteral::MinusY)
    } else {
        None
    }
}

/// The directive that a name denotes.
pub open spec fn directive_spec(id: Seq<char>) -> Option<Directive> {
    if id == "ORG"@ {
        Some(Directive::Org)
    } else if id == "EQU"@ {
        Some(Directive::Equ)
    } else if id == "FCB"@ {
        Some(Directive::Fcb)
    } else if id == "FCS"@ {
        Some(Directive::Fcs)
    } else if id == "RMB"@ {
        Some(Directive::Rmb)
    } else {
        None
    }
}

/// Looks a name up among the register names.
pub fn parse_named_literal(s: &str) -> (r: Option<NamedLiteral>)
    ensures
        r == named_literal_spec(s@),
{
    let t = s.to_owned();
    if t == String::from_str("SP") {
        Some(NamedLiteral::SP)
    } else if t == String::from_str("X") {
        Some(NamedLiteral::X)
    } else if t == String::from_str("A") {
        Some(NamedLiteral::A)
    } else if t == String::from_str("Y") {
        Some(NamedLiteral::Y)
    } else if t == String::from_str("CC") {
        Some(NamedLiteral::CC)
    } else if t == String::from_str("X+") {
        Some(NamedLiteral::XPlus)
    } else if t == String::from_str("X-") {
        Some(NamedLiteral::XMinus)
    } else if t == String::from_str("+X") {
        Some(NamedLiteral::PlusX)
    } else if t == String::from_str("-X") {
        Some(NamedLiteral::MinusX)
    } else if t == String::from_str("Y+") {
        Some(NamedLiteral::YPlus)
    } else if t == String::from_str("Y-") {
        Some(NamedLiteral::YMinus)
    } else if t == String::from_str("+Y") {
        Some(NamedLiteral::PlusY)
    } else if t == String::from_str("-Y") {
        Some(NamedLiteral::MinusY)
    } else {
        None
    }
}

/// Looks a name up among the directives.
pub fn parse_directive(s: &str) -> (r: Option<Directive>)
    ensures
        r == directive_spec(s@),
{
    let t = s.to_owned();
    if t == String::from_str("ORG") {
        Some(Directive::Org)
    } else if t == String::from_str("EQU") {
        Some(Directive::Equ)
    } else if t == String::from_str("FCB") {
        Some(Directive::Fcb)
    } else if t == String::from_str("FCS") {
        Some(Directive::Fcs)
    } else if t == String::from_str("RMB") {
        Some(Directive::Rmb)
    } else {
        None
    }
}

/// Looks a name up among the mnemonics.
pub fn parse_instruction(s: &str) -> (r: Option<Instruction>)
    ensures
        r == instruction_from(s@, 0),
{
    let t = s.to_owned();
    let mut op: u16 = 0;
    while op < 256
        invariant
            op <= 256,
            t@ == s@,
            instruction_from(s@, 0) == instruction_from(s@, op as nat),
        decreases 256 - op,
    {
        if let Some((ins, _)) = decode(op as u8) {
            if String::from_str(mnemonic_str(ins)) == t {
                return Some(ins);
            }
        }
        op = op + 1;
    }
    None
}

/// The token that an identifier is: an instruction, a register, a
/// directive, or else a symbol.
pub open spec fn classify(id: Seq<char>, p: nat, e: nat) -> (TokenKind, ValueV, nat, nat) {
    match instruction_from(id, 0) {
        Some(i) => (TokenKind::Instruction, ValueV::Instruction(i), p, e),
        None => match named_literal_spec(id) {
            Some(n) => (TokenKind::NamedLiteral, ValueV::NamedLiteral(n), p, e),
            None => match directive_spec(id) {
                Some(d) => (TokenKind::Directive, ValueV::Directive(d), p, e),
                None => (TokenKind::Sym, ValueV::Sym(id), p, e),
            },
        },
    }
}

/// The next token from position `pos` on, as its kind, value, start and
/// end. Whitespace and comments (`;` to the end of the line) are skipped.
pub open spec fn lex_at(s: Seq<char>, pos: nat) -> (TokenKind, ValueV, nat, nat)
    decreases s.len() - pos,
{
    let p = skip_ws(s, pos);
    if p >= s.len() {
        (TokenKind::Eof, ValueV::Empty, p, p)
    } else {
        let c = s[p as int];
        if c == '#' {
            (TokenKind::ImmediatePrefix, ValueV::Empty, p, p + 1)
        } else if c == ':' {
            (TokenKind::Colon, ValueV::Empty, p, p + 1)
        } else if c == ',' {
            (TokenKind::Comma, ValueV::Empty, p, p + 1)
        } else if c == ';' {
            let e = line_end(s, p);
            let next = if e < s.len() {
                e + 1
            } else {
                e
            };
            if pos < next <= s.len() {
                lex_at(s, next)
            } else {
                (TokenKind::Eof, ValueV::Empty, next, next)
            }
        } else if is_alpha(c) {
            let e = ident_end(s, p);
            let id = s.subrange(p as int, e as int);
            if (id == "X"@ || id == "Y"@) && e < s.len() && (s[e as int] == '+' || s[e as int]
                == '-') {
                (
                    TokenKind::NamedLiteral,
                    ValueV::NamedLiteral(named_literal_spec(s.subrange(p as int, e + 1int)).unwrap()),
                    p,
                    e + 1,
                )
            } else {
                classify(id, p, e)
            }
        } else if c == '+' || c == '-' {
            if p + 1 < s.len() && (s[p + 1int] == 'X' || s[p + 1int] == 'Y') && !(p + 2 < s.len()
                && is_ident(s[p + 2int])) {
                (
                    TokenKind::NamedLiteral,
                    ValueV::NamedLiteral(named_literal_spec(s.subrange(p as int, p + 2int)).unwrap()),
                    p,
                    p + 2,
                )
            } else {
                (TokenKind::Invalid, ValueV::Empty, p, p + 1)
            }
        } else if '0' <= c && c <= '9' {
            let (v, e) = number_scan(s, p, 10, 0);
            (TokenKind::NumberLiteral, ValueV::NumberLiteral(v as u8), p, e)
        } else if c == '$' {
            let (v, e) = number_scan(s, p + 1, 16, 0);
            (TokenKind::NumberLiteral, ValueV::NumberLiteral(v as u8), p, e)
        } else if c == '%' {
            let (v, e) = number_scan(s, p + 1, 2, 0);
            (TokenKind::NumberLiteral, ValueV::NumberLiteral(v as u8), p, e)
        } else {
            (TokenKind::Invalid, ValueV::Empty, p, p + 1)
        }
    }
}

proof fn lemma_skip_ws_bounds(s: Seq<char>, i: nat)
    requires
        i <= s.len(),
    ensures
        i <= skip_ws(s, i) <= s.len(),
        skip_ws(s, i) < s.len() ==> !is_ws(s[skip_ws(s, i) as int]),
    decreases s.len() - i,
{
    if i < s.len() && is_ws(s[i as int]) {
        lemma_skip_ws_bounds(s, i + 1);
    }
}

proof fn lemma_ident_end_bounds(s: Seq<char>, i: nat)
    requires
        i <= s.len(),
    ensures
        i <= ident_end(s, i) <= s.len(),
    decreases s.len() - i,
{
    if i < s.len() && is_ident(s[i as int]) {
        lemma_ident_end_bounds(s, i + 1);
    }
}

pub(crate) proof fn lemma_line_end_bounds(s: Seq<char>, i: nat)
    requires
        i <= s.len(),
    ensures
        i <= line_end(s, i) <= s.len(),
        line_end(s, i) < s.len() ==> s[line_end(s, i) as int] == '\n',
    decreases s.len() - i,
{
    if i < s.len() && s[i as int] != '\n' {
        lemma_line_end_bounds(s, i + 1);
    }
}

proof fn lemma_number_scan_bounds(s: Seq<char>, i: nat, base: nat, sum: nat)
    requires
        i <= s.len(),
        sum <= 255,
    ensures
        i <= number_scan(s, i, base, sum).1 <= s.len(),
        number_scan(s, i, base, sum).0 <= 255,
    decreases s.len() - i,
{
    if i < s.len() && digit_value(s[i as int], base) is Some && sum * base + digit_value(
        s[i as int],
        base,
    ).unwrap() <= 255 {
        lemma_number_scan_bounds(s, i + 1, base, sum * base + digit_value(s[i as int], base).unwrap());
    }
}

/// The lexer: reads tokens one at a time from source text.
pub struct Lexer<'a> {
    source: &'a str,
    chars: Vec<char>,
    pos: usize,
}

impl<'a> Lexer<'a> {
    /// The text being read.
    pub closed spec fn text(&self) -> Seq<char> {
        self.chars@
    }

    /// The position reading has reached.
    pub closed spec fn position(&self) -> nat {
        self.pos as nat
    }

    /// The lexer's own consistency: its characters are those of its source.
    pub closed spec fn wf(&self) -> bool {
        &&& self.source@ == self.chars@
        &&& self.pos <= self.chars@.len()
    }

    pub fn new(source: &'a str) -> (r: Self)
        ensures
            r.text() == source@,
            r.position() == 0,
            r.wf(),
    {
        let n = source.unicode_len();
        let mut chars: Vec<char> = Vec::new();
        let mut i: usize = 0;
        while i < n
            invariant
                i <= n,
                n == source@.len(),
                chars@ == source@.subrange(0, i as int),
            decreases n - i,
        {
            chars.push(source.get_char(i));
            assert(chars@ =~= source@.subrange(0, i + 1));
            i = i + 1;
        }
        assert(chars@ =~= source@);
        Lexer { source, chars, pos: 0 }
    }

    /// The length of the text.
    pub fn len(&self) -> (n: usize)
        requires
            self.wf(),
        ensures
            n == self.text().len(),
    {
        self.chars.len()
    }

    /// The next token; at the end of the text, an end-of-input token.
    pub fn next_token(&mut self) -> (r: Token)
        requires
            old(self).wf(),
        ensures
            lex_at(old(self).text(), old(self).position()) == (
                r.kind,
                r.value@,
                r.span.start as nat,
                r.span.end as nat,
            ),
            final(self).text() == old(self).text(),
            final(self).position() == r.span.end,
            final(self).wf(),
    {
        self.lex_next_token()
    }

    fn skip_whitespace(&mut self)
        requires
            old(self).wf(),
        ensures
            final(self).wf(),
            final(self).chars@ == old(self).chars@,
            final(self).source == old(self).source,
            final(self).pos == skip_ws(old(self).chars@, old(self).pos as nat),
    {
        let ghost start = self.pos as nat;
        while self.pos < self.chars.len() && is_whitespace(self.chars[self.pos])
            invariant
                self.wf(),
                self.chars@ == old(self).chars@,
                self.source == old(self).source,
                skip_ws(self.chars@, start) == skip_ws(self.chars@, self.pos as nat),
            decreases self.chars@.len() - self.pos,
        {
            self.pos = self.pos + 1;
        }
    }

    fn collect_identifier_end(&self, p: usize) -> (e: usize)
        requires
            self.wf(),
            p <= self.chars@.len(),
        ensures
            e == ident_end(self.chars@, p as nat),
    {
        let mut e = p;
        while e < self.chars.len() && is_identifier_char(self.chars[e])
            invariant
                p <= e <= self.chars@.len(),
                ident_end(self.chars@, p as nat) == ident_end(self.chars@, e as nat),
            decreases self.chars@.len() - e,
        {
            e = e + 1;
        }
        e
    }

    fn parse_number(&self, p: usize, base: u16) -> (r: (u8, usize))
        requires
            self.wf(),
            p <= self.chars@.len(),
            base == 2 || base == 10 || base == 16,
        ensures
            number_scan(self.chars@, p as nat, base as nat, 0) == (r.0 as nat, r.1 as nat),
    {
        let mut sum: u16 = 0;
        let mut i = p;
        let mut done = false;
        while !done && i < self.chars.len()
            invariant
                p <= i <= self.chars@.len(),
                sum <= 255,
                base == 2 || base == 10 || base == 16,
                number_scan(self.chars@, p as nat, base as nat, 0) == number_scan(
                    self.chars@,
                    i as nat,
                    base as nat,
                    sum as nat,
                ),
                done ==> number_scan(self.chars@, i as nat, base as nat, sum as nat) == (
                    sum as nat,
                    i as nat,
                ),
            decreases self.chars@.len() - i + if done {
                0int
            } else {
                1int
            },
        {
            match digit(self.chars[i], base) {
                Some(d) => {
                    if sum * base + d > 255 {
                        done = true;
                    } else {
                        sum = sum * base + d;
                        i = i + 1;
                    }
                },
                None => {
                    done = true;
                },
            }
        }
        (sum as u8, i)
    }

    fn lex_next_token(&mut self) -> (r: Token)
        requires
            old(self).wf(),
        ensures
            lex_at(old(self).text(), old(self).position()) == (
                r.kind,
                r.value@,
                r.span.start as nat,
                r.span.end as nat,
            ),
            final(self).text() == old(self).text(),
            final(self).position() == r.span.end,
            final(self).wf(),
    {
        let ghost s = self.chars@;
        let n = self.chars.len();
        let mut scanning = true;
        while scanning
            invariant
                self.wf(),
                self.chars@ == s,
                s == old(self).chars@,
                self.source == old(self).source,
                n == s.len(),
                old(self).pos <= self.pos,
                lex_at(s, old(self).pos as nat) == lex_at(s, self.pos as nat),
                !scanning ==> self.pos < n && skip_ws(s, self.pos as nat) == self.pos && s[self.pos as int]
                    != ';',
            decreases s.len() - self.pos + if scanning {
                1int
            } else {
                0int
            },
        {
            let ghost before = self.pos as nat;
            self.skip_whitespace();
            proof {
                lemma_skip_ws_bounds(s, before);
            }
            if self.pos >= n {
                assert(lex_at(s, before) == (TokenKind::Eof, ValueV::Empty, self.pos as nat, self.pos as nat));
                assert(self.chars@ == old(self).chars@);
                let t = Token::eof(self.pos);
                assert(lex_at(old(self).text(), old(self).position()) == (t.kind, t.value@, t.span.start as nat, t.span.end as nat));
                return t;
            }
            if self.chars[self.pos] != ';' {
                scanning = false;
                assert(lex_at(s, before) == lex_at(s, self.pos as nat));
            } else {
                let mut e = self.pos;
                while e < n && self.chars[e] != '\n'
                    invariant
                        self.pos <= e <= n,
                        n == s.len(),
                        self.chars@ == s,
                        line_end(s, self.pos as nat) == line_end(s, e as nat),
                    decreases n - e,
                {
                    e = e + 1;
                }
                proof {
                    lemma_line_end_bounds(s, self.pos as nat);
                }
                let next = if e < n {
                    e + 1
                } else {
                    e
                };
                assert(lex_at(s, before) == lex_at(s, next as nat));
                self.pos = next;
            }
        }
        let p = self.pos;
        let c = self.chars[p];
        assert(lex_at(s, old(self).pos as nat) == lex_at(s, p as nat));
        let (kind, value, end) = if c == '#' {
            (TokenKind::ImmediatePrefix, TokenValue::Empty, p + 1)
        } else if c == ':' {
            (TokenKind::Colon, TokenValue::Empty, p + 1)
        } else if c == ',' {
            (TokenKind::Comma, TokenValue::Empty, p + 1)
        } else if is_letter(c) {
            let e = self.collect_identifier_end(p);
            proof {
                lemma_ident_end_bounds(s, p as nat);
            }
            let id = self.source.substring_char(p, e);
            let single_xy = e == p + 1 && (c == 'X' || c == 'Y');
            proof {
                reveal_strlit("X");
                reveal_strlit("Y");
                let sub = s.subrange(p as int, e as int);
                assert("X"@ =~= seq!['X']);
                assert("Y"@ =~= seq!['Y']);
                if e == p + 1 {
                    assert(sub =~= seq![c]);
                }
                if sub == "X"@ || sub == "Y"@ {
                    assert(sub.len() == 1);
                    assert(sub[0] == c);
                }
                assert(single_xy == (sub == "X"@ || sub == "Y"@));
            }
            if single_xy && e < n && (self.chars[e] == '+' || self.chars[e] == '-') {
                let lit = self.source.substring_char(p, e + 1);
                let named = parse_named_literal(lit);
                proof {
                    reveal_strlit("X+");
                    reveal_strlit("X-");
                    reveal_strlit("Y+");
                    reveal_strlit("Y-");
                    let pair = s.subrange(p as int, e + 1);
                    assert(pair =~= seq![c, s[e as int]]);
                    assert("X+"@ =~= seq!['X', '+']);
                    assert("X-"@ =~= seq!['X', '-']);
                    assert("Y+"@ =~= seq!['Y', '+']);
                    assert("Y-"@ =~= seq!['Y', '-']);
                    reveal_strlit("SP");
                    reveal_strlit("CC");
                    reveal_strlit("A");
                    assert(pair == "X+"@ || pair == "X-"@ || pair == "Y+"@ || pair == "Y-"@);
                }
                assert(named is Some);
                match named {
                    Some(nl) => (TokenKind::NamedLiteral, TokenValue::NamedLiteral(nl), e + 1),
                    None => (TokenKind::Invalid, TokenValue::Empty, e + 1),
                }
            } else if let Some(ins) = parse_instruction(id) {
                assert(lex_at(s, p as nat) == (TokenKind::Instruction, ValueV::Instruction(ins), p as nat, e as nat));
                (TokenKind::Instruction, TokenValue::Instruction(ins), e)
            } else if let Some(nl) = parse_named_literal(id) {
                (TokenKind::NamedLiteral, TokenValue::NamedLiteral(nl), e)
            } else if let Some(d) = parse_directive(id) {
                (TokenKind::Directive, TokenValue::Directive(d), e)
            } else {
                (TokenKind::Sym, TokenValue::Sym(id.to_owned()), e)
            }
        } else if c == '+' || c == '-' {
            if p + 1 < n && (self.chars[p + 1] == 'X' || self.chars[p + 1] == 'Y') && !(p + 2 < n
                && is_identifier_char(self.chars[p + 2])) {
                let lit = self.source.substring_char(p, p + 2);
                let named = parse_named_literal(lit);
                proof {
                    reveal_strlit("+X");
                    reveal_strlit("-X");
                    reveal_strlit("+Y");
                    reveal_strlit("-Y");
                    let pair = s.subrange(p as int, p + 2);
                    assert(pair =~= seq![c, s[p + 1]]);
                    assert("+X"@ =~= seq!['+', 'X']);
                    assert("-X"@ =~= seq!['-', 'X']);
                    assert("+Y"@ =~= seq!['+', 'Y']);
                    assert("-Y"@ =~= seq!['-', 'Y']);
                    reveal_strlit("SP");
                    reveal_strlit("CC");
                    reveal_strlit("X");
                    reveal_strlit("Y");
                    reveal_strlit("A");
                    reveal_strlit("X+");
                    reveal_strlit("X-");
                    reveal_strlit("Y+");
                    reveal_strlit("Y-");
                    assert(pair == "+X"@ || pair == "-X"@ || pair == "+Y"@ || pair == "-Y"@);
                }
                assert(named is Some);
                match named {
                    Some(nl) => (TokenKind::NamedLiteral, TokenValue::NamedLiteral(nl), p + 2),
                    None => (TokenKind::Invalid, TokenValue::Empty, p + 2),
                }
            } else {
                (TokenKind::Invalid, TokenValue::Empty, p + 1)
            }
        } else if '0' <= c && c <= '9' {
            proof {
                lemma_number_scan_bounds(s, p as nat, 10, 0);
            }
            let (v, e) = self.parse_number(p, 10);
            (TokenKind::NumberLiteral, TokenValue::NumberLiteral(v), e)
        } else if c == '$' {
            proof {
                lemma_number_scan_bounds(s, (p + 1) as nat, 16, 0);
            }
            let (v, e) = self.parse_number(p + 1, 16);
            (TokenKind::NumberLiteral, TokenValue::NumberLiteral(v), e)
        } else if c == '%' {
            proof {
                lemma_number_scan_bounds(s, (p + 1) as nat, 2, 0);
            }
            let (v, e) = self.parse_number(p + 1, 2);
            (TokenKind::NumberLiteral, TokenValue::NumberLiteral(v), e)
        } else {
            (TokenKind::Invalid, TokenValue::Empty, p + 1)
        };
        assert(skip_ws(s, p as nat) == p);
        assert(lex_at(s, p as nat) == (kind, value@, p as nat, end as nat));
        self.pos = end;
        Token { kind, value, span: Span { start: p, end } }
    }
}

fn is_whitespace(c: char) -> (r: bool)
    ensures
        r == is_ws(c),
{
    c == ' ' || c == '\t' || c == '\n' || c == '\r' || c == '\x0C'
}

fn is_letter(c: char) -> (r: bool)
    ensures
        r == is_alpha(c),
{
    ('A' <= c && c <= 'Z') || ('a' <= c && c <= 'z')
}

fn is_identifier_char(c: char) -> (r: bool)
    ensures
        r == is_ident(c),
{
    is_letter(c) || c == '_' || ('0' <= c && c <= '9')
}

fn digit(c: char, base: u16) -> (r: Option<u16>)
    requires
        base == 2 || base == 10 || base == 16,
    ensures
        r matches Some(d) ==> digit_value(c, base as nat) == Some(d as nat) && d < 16,
        r is None ==> digit_value(c, base as nat) is None,
{
    if c == '0' || c == '1' {
        Some((c as u32 - '0' as u32) as u16)
    } else if '2' <= c && c <= '9' && base >= 10 {
        Some((c as u32 - '0' as u32) as u16)
    } else if 'a' <= c && c <= 'f' && base == 16 {
        Some((c as u32 - 'a' as u32 + 10) as u16)
    } else if 'A' <= c && c <= 'F' && base == 16 {
        Some((c as u32 - 'A' as u32 + 10) as u16)
    } else {
        None
    }
}

/// A token lies between the position it was read from and the end of the
/// text, and every token but the end of input holds at least one character.
pub proof fn lemma_lex_at_bounds(s: Seq<char>, q: nat)
    requires
        q <= s.len(),
    ensures
        q <= lex_at(s, q).2 <= lex_at(s, q).3 <= s.len(),
        lex_at(s, q).0 != TokenKind::Eof ==> lex_at(s, q).2 < lex_at(s, q).3,
    decreases s.len() - q,
{
    lemma_skip_ws_bounds(s, q);
    let p = skip_ws(s, q);
    if p < s.len() {
        let c = s[p as int];
        if c == ';' {
            lemma_line_end_bounds(s, p);
            let e = line_end(s, p);
            let next = if e < s.len() {
                e + 1
            } else {
                e
            };
            if q < next <= s.len() {
                lemma_lex_at_bounds(s, next);
            }
        } else if is_alpha(c) {
            lemma_ident_end_bounds(s, p);
            lemma_ident_end_bounds(s, p + 1);
        } else if '0' <= c && c <= '9' {
            lemma_number_scan_bounds(s, p, 10, 0);
            lemma_number_scan_bounds(s, p + 1, 10, digit_value(c, 10).unwrap());
        } else if c == '$' {
            lemma_number_scan_bounds(s, p + 1, 16, 0);
        } else if c == '%' {
            lemma_number_scan_bounds(s, p + 1, 2, 0);
        }
    }
}

} // verus!
