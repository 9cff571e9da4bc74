//! Parsing: tokens to a program of instruction, directive and label lines.

use vstd::prelude::*;

use vstd::string::*;

use crate::isa::{encode, encodes_first, isa, AutoIndex, IndexReg, Instruction, Mode, RegName};
use crate::lexer::{lex_at, Directive, Lexer, NamedLiteral, Span, Token, TokenKind, TokenValue, ValueV};

verus! {

/// A number, or a symbol that stands for one.
#[derive(Debug, Clone)]
pub enum NumOrSym {
    Num(u8),
    Sym(String),
}

/// One operand as it was written.
#[derive(Debug, Clone)]
pub enum Atom {
    NumOrSym(NumOrSym),
    Reg(NamedLiteral),
    Empty,
}

/// An operand of an assembled instruction.
#[derive(Debug, Clone)]
pub enum Operand {
    /// `#Data`
    Imm(NumOrSym),
    /// `Adr`
    AbsAdr(NumOrSym),
    /// `Adr` of a branch, encoded relative to the next instruction.
    RelAdr(NumOrSym),
    /// `n` of an indexed form.
    N(NumOrSym),
    /// A register, which the opcode already encodes.
    Reg(NamedLiteral),
}

/// An instruction with its opcode chosen.
#[derive(Debug, Clone)]
pub struct AsmInstruction {
    pub span: Span,
    pub opcode: u8,
    pub operands: Vec<Operand>,
    /// Where the operands stand in the source.
    pub operand_span: Span,
}

/// The number of bytes an instruction occupies: its opcode and one byte for
/// each operand that is not a register.
pub open spec fn instruction_footprint(ins: AsmInstruction) -> nat {
    1 + operand_bytes(ins.operands@)
}

/// The number of operands that are written as a byte.
pub open spec fn operand_bytes(ops: Seq<Operand>) -> nat
    decreases ops.len(),
{
    if ops.len() == 0 {
        0
    } else {
        operand_bytes(ops.drop_last()) + if ops.last() is Reg {
            0nat
        } else {
            1nat
        }
    }
}

impl AsmInstruction {
    /// The size of an instruction in bytes: the opcode and its operand bytes.
    pub fn size(&self) -> (r: usize)
        requires
            self.operands@.len() < usize::MAX,
        ensures
            r == instruction_footprint(*self),
    {
        let mut n: usize = 1;
        let mut i: usize = 0;
        while i < self.operands.len()
            invariant
                i <= self.operands@.len(),
                n == 1 + operand_bytes(self.operands@.subrange(0, i as int)),
                n <= i + 1,
                self.operands@.len() < usize::MAX,
            decreases self.operands@.len() - i,
        {
            assert(self.operands@.subrange(0, i + 1).drop_last() =~= self.operands@.subrange(
                0,
                i as int,
            ));
            if !matches!(self.operands[i], Operand::Reg(_)) {
                n = n + 1;
            }
            i = i + 1;
        }
        assert(self.operands@.subrange(0, i as int) =~= self.operands@);
        n
    }
}

/// A directive with its arguments.
#[derive(Debug, Clone)]
pub struct AsmDirective {
    pub span: Span,
    pub name: Directive,
    pub args: Vec<Atom>,
}

/// A label definition.
#[derive(Debug, Clone)]
pub struct AsmSymbol {
    pub span: Span,
    pub name: String,
}

/// One line of a program.
#[derive(Debug)]
pub enum AsmLine {
    Instruction(AsmInstruction),
    Directive(AsmDirective),
    Symbol(AsmSymbol),
}

/// Why the source does not parse: a message and where in the source.
#[derive(Debug)]
pub struct ParseError {
    pub msg: String,
    pub span: Span,
}

impl ParseError {
    pub fn new(msg: String, span: Span) -> (r: Self)
        ensures
            r.msg@ == msg@,
            r.span == span,
    {
        ParseError { msg, span }
    }
}

/// A parsed program: its lines in source order.
#[derive(Debug)]
pub struct ProgramAST {
    pub lines: Vec<AsmLine>,
}

/// A number or symbol, with the symbol's name as characters.
pub enum NumOrSymV {
    Num(u8),
    Sym(Seq<char>),
}

impl View for NumOrSym {
    type V = NumOrSymV;

    open spec fn view(&self) -> NumOrSymV {
        match self {
            NumOrSym::Num(n) => NumOrSymV::Num(*n),
            NumOrSym::Sym(s) => NumOrSymV::Sym(s@),
        }
    }
}

/// An operand as written, with names as characters.
pub enum AtomV {
    NumOrSym(NumOrSymV),
    Reg(NamedLiteral),
    Empty,
}

impl View for Atom {
    type V = AtomV;

    open spec fn view(&self) -> AtomV {
        match self {
            Atom::NumOrSym(v) => AtomV::NumOrSym(v@),
            Atom::Reg(r) => AtomV::Reg(*r),
            Atom::Empty => AtomV::Empty,
        }
    }
}

/// An operand of an assembled instruction, with names as characters.
pub enum OperandV {
    Imm(NumOrSymV),
    AbsAdr(NumOrSymV),
    RelAdr(NumOrSymV),
    N(NumOrSymV),
    Reg(NamedLiteral),
}

impl View for Operand {
    type V = OperandV;

    open spec fn view(&self) -> OperandV {
        match self {
            Operand::Imm(v) => OperandV::Imm(v@),
            Operand::AbsAdr(v) => OperandV::AbsAdr(v@),
            Operand::RelAdr(v) => OperandV::RelAdr(v@),
            Operand::N(v) => OperandV::N(v@),
            Operand::Reg(r) => OperandV::Reg(*r),
        }
    }
}

/// A line of a program, with names as characters.
pub enum LineV {
    /// Span, opcode, operands, and the span of the operands.
    Instruction(Span, u8, Seq<OperandV>, Span),
    /// Span, directive and arguments.
    Directive(Span, Directive, Seq<AtomV>),
    /// Span and name of a label.
    Symbol(Span, Seq<char>),
}

impl View for AsmLine {
    type V = LineV;

    open spec fn view(&self) -> LineV {
        match self {
            AsmLine::Instruction(i) => LineV::Instruction(
                i.span,
                i.opcode,
                i.operands@.map_values(|o: Operand| o@),
                i.operand_span,
            ),
            AsmLine::Directive(d) => LineV::Directive(d.span, d.name, d.args@.map_values(|a: Atom| a@)),
            AsmLine::Symbol(sym) => LineV::Symbol(sym.span, sym.name@),
        }
    }
}

/// The lines of a program as views.
pub open spec fn lines_view(lines: Seq<AsmLine>) -> Seq<LineV> {
    lines.map_values(|l: AsmLine| l@)
}

/// The shape of an instruction's operands.
pub enum FormV {
    Empty,
    One(AtomV),
    Two(AtomV, AtomV),
    Imm1(AtomV),
}

/// A parse error as its message and span.
pub type ErrV = (Seq<char>, Span);

/// The span from one position to another.
pub open spec fn span(start: nat, end: nat) -> Span {
    Span { start: start as usize, end: end as usize }
}

/// The operand that starts at `q`, and the position after it.
pub open spec fn atom_spec(s: Seq<char>, q: nat) -> Result<(AtomV, nat), ErrV> {
    let t = lex_at(s, q);
    match t.1 {
        ValueV::NamedLiteral(n) => Ok((AtomV::Reg(n), t.3)),
        ValueV::NumberLiteral(v) => Ok((AtomV::NumOrSym(NumOrSymV::Num(v)), t.3)),
        ValueV::Sym(id) => Ok((AtomV::NumOrSym(NumOrSymV::Sym(id)), t.3)),
        _ => Err(("Expected operand"@, span(t.2, t.3))),
    }
}

/// The operand form that starts at `q`, and the position after it.
pub open spec fn operands_spec(s: Seq<char>, q: nat) -> Result<(FormV, nat), ErrV> {
    let t = lex_at(s, q);
    if t.0 == TokenKind::ImmediatePrefix {
        match atom_spec(s, t.3) {
            Ok((a, q2)) => Ok((FormV::Imm1(a), q2)),
            Err(e) => Err(e),
        }
    } else if t.1 is NamedLiteral || t.1 is NumberLiteral || t.1 is Sym {
        match atom_spec(s, q) {
            Ok((a1, q1)) => {
                let t1 = lex_at(s, q1);
                if t1.0 == TokenKind::Comma {
                    match atom_spec(s, t1.3) {
                        Ok((a2, q2)) => Ok((FormV::Two(a1, a2), q2)),
                        Err(e) => Err(e),
                    }
                } else {
                    Ok((FormV::One(a1), q1))
                }
            },
            Err(e) => Err(e),
        }
    } else if t.0 == TokenKind::Comma {
        match atom_spec(s, t.3) {
            Ok((a, q2)) => Ok((FormV::Two(AtomV::Empty, a), q2)),
            Err(e) => Err(e),
        }
    } else {
        Ok((FormV::Empty, q))
    }
}

/// Whether the instruction set has an instruction in a mode.
pub open spec fn has_mode(ins: Instruction, mode: Mode) -> bool {
    exists|op: u8| isa(op) == Some((ins, mode))
}

/// The index register a register name denotes, if any.
pub open spec fn index_reg(r: NamedLiteral) -> Option<IndexReg> {
    match r {
        NamedLiteral::SP => Some(IndexReg::SP),
        NamedLiteral::X => Some(IndexReg::X),
        NamedLiteral::Y => Some(IndexReg::Y),
        _ => None,
    }
}

/// The transferable register a register name denotes, if any.
pub open spec fn reg_name(r: NamedLiteral) -> Option<RegName> {
    match r {
        NamedLiteral::A => Some(RegName::A),
        NamedLiteral::CC => Some(RegName::CC),
        NamedLiteral::X => Some(RegName::X),
        NamedLiteral::Y => Some(RegName::Y),
        NamedLiteral::SP => Some(RegName::SP),
        _ => None,
    }
}

/// The auto-increment form a register name denotes, if any.
pub open spec fn auto_index(r: NamedLiteral) -> Option<AutoIndex> {
    match r {
        NamedLiteral::XPlus => Some(AutoIndex::XPlus),
        NamedLiteral::XMinus => Some(AutoIndex::XMinus),
        NamedLiteral::PlusX => Some(AutoIndex::PlusX),
        NamedLiteral::MinusX => Some(AutoIndex::MinusX),
        NamedLiteral::YPlus => Some(AutoIndex::YPlus),
        NamedLiteral::YMinus => Some(AutoIndex::YMinus),
        NamedLiteral::PlusY => Some(AutoIndex::PlusY),
        NamedLiteral::MinusY => Some(AutoIndex::MinusY),
        _ => None,
    }
}

/// The addressing mode and operands of an instruction written in a form.
/// A single number or symbol is an absolute address where the instruction
/// has that mode, and a branch target otherwise.
pub open spec fn mode_spec(ins: Instruction, f: FormV) -> Option<(Mode, Seq<OperandV>)> {
    match f {
        FormV::Empty => Some((Mode::Inherent, Seq::empty())),
        FormV::Imm1(AtomV::NumOrSym(v)) => Some((Mode::Immediate, seq![OperandV::Imm(v)])),
        FormV::One(AtomV::NumOrSym(v)) => if has_mode(ins, Mode::Absolute) {
            Some((Mode::Absolute, seq![OperandV::AbsAdr(v)]))
        } else {
            Some((Mode::Relative, seq![OperandV::RelAdr(v)]))
        },
        FormV::Two(AtomV::NumOrSym(v), AtomV::Reg(r)) => match index_reg(r) {
            Some(ir) => Some((Mode::Indexed(ir), seq![OperandV::N(v)])),
            None => None,
        },
        FormV::Two(AtomV::Reg(r1), AtomV::Reg(r2)) => if r1 == NamedLiteral::A && (r2
            == NamedLiteral::X || r2 == NamedLiteral::Y) {
            Some((Mode::AccIndexed(index_reg(r2).unwrap()), Seq::empty()))
        } else {
            match (reg_name(r1), reg_name(r2)) {
                (Some(a), Some(b)) => Some((Mode::Pair(a, b), Seq::empty())),
                _ => None,
            }
        },
        FormV::Two(AtomV::Empty, AtomV::Reg(r)) => match auto_index(r) {
            Some(k) => Some((Mode::Auto(k), Seq::empty())),
            None => None,
        },
        _ => None,
    }
}

/// The instruction line whose mnemonic is the token at `q`, and the
/// position after it.
pub open spec fn instruction_spec(s: Seq<char>, q: nat, ins: Instruction) -> Result<(LineV, nat), ErrV> {
    let t = lex_at(s, q);
    match operands_spec(s, t.3) {
        Err(e) => Err(e),
        Ok((f, q1)) => {
            let op_start = if q1 == t.3 {
                q1
            } else {
                lex_at(s, t.3).2
            };
            match mode_spec(ins, f) {
                Some((mode, ops)) => if exists|op: u8| encodes_first(ins, mode, op) {
                    let op = choose|op: u8| encodes_first(ins, mode, op);
                    Ok((LineV::Instruction(span(t.2, q1), op, ops, span(op_start, q1)), q1))
                } else {
                    Err(("Invalid operand form for instruction"@, span(t.2, q1)))
                },
                None => Err(("Invalid operand form for instruction"@, span(t.2, q1))),
            }
        },
    }
}

/// The arguments of a list directive from `q` on: numbers and symbols
/// separated by commas. Yields them, the position after them, and the end
/// of the last token taken.
pub open spec fn args_spec(s: Seq<char>, q: nat, last_end: nat) -> (Seq<AtomV>, nat, nat)
    decreases s.len() - q,
{
    let t = lex_at(s, q);
    if q < s.len() && (t.1 is NumberLiteral || t.1 is Sym) {
        match atom_spec(s, q) {
            Ok((a, q1)) => {
                let t1 = lex_at(s, q1);
                if t1.0 == TokenKind::Comma && q < t1.3 <= s.len() {
                    let rest = args_spec(s, t1.3, t1.3);
                    (seq![a] + rest.0, rest.1, rest.2)
                } else {
                    (seq![a], q1, q1)
                }
            },
            Err(_) => (Seq::empty(), q, last_end),
        }
    } else {
        (Seq::empty(), q, last_end)
    }
}

/// The directive line whose keyword is the token at `q`, and the position
/// after it.
pub open spec fn directive_line_spec(s: Seq<char>, q: nat, d: Directive) -> Result<(LineV, nat), ErrV> {
    let t = lex_at(s, q);
    let t0 = lex_at(s, t.3);
    let takes_one = t0.1 is NumberLiteral || t0.1 is Sym;
    match d {
        Directive::Org => if takes_one {
            match atom_spec(s, t.3) {
                Ok((a, q1)) => Ok((LineV::Directive(span(t.2, t0.3), d, seq![a]), q1)),
                Err(e) => Err(e),
            }
        } else {
            Err(("Expected number or symbol"@, span(t.2, t0.3)))
        },
        Directive::Equ => if takes_one {
            match atom_spec(s, t.3) {
                Ok((a, q1)) => Ok((LineV::Directive(span(t.2, t0.3), d, seq![a]), q1)),
                Err(e) => Err(e),
            }
        } else {
            Err(("Expected number or symbol"@, span(t0.2, t0.3)))
        },
        _ => {
            let (args, q1, end) = args_spec(s, t.3, t.3);
            Ok((LineV::Directive(span(t.2, end), d, args), q1))
        },
    }
}

/// The line that starts with the token at `q` (not the end of input), and
/// the position after it.
pub open spec fn line_spec(s: Seq<char>, q: nat) -> Result<(LineV, nat), ErrV> {
    let t = lex_at(s, q);
    match t.1 {
        ValueV::Instruction(ins) => instruction_spec(s, q, ins),
        ValueV::Directive(d) => directive_line_spec(s, q, d),
        ValueV::Sym(id) => {
            let t1 = lex_at(s, t.3);
            Ok((LineV::Symbol(span(t.2, t.3), id), if t1.0 == TokenKind::Colon {
                t1.3
            } else {
                t.3
            }))
        },
        _ => if t.0 == TokenKind::Invalid {
            Err(("Invalid token"@, span(t.2, t.3)))
        } else {
            Err(("Unexpected token"@, span(t.2, t.3)))
        },
    }
}

/// The lines of the program from the token at `q` on.
pub open spec fn lines_spec(s: Seq<char>, q: nat) -> Result<Seq<LineV>, ErrV>
    decreases s.len() - q,
{
    if lex_at(s, q).0 == TokenKind::Eof || q > s.len() {
        Ok(Seq::empty())
    } else {
        match line_spec(s, q) {
            Err(e) => Err(e),
            Ok((line, q1)) => if q < q1 <= s.len() {
                match lines_spec(s, q1) {
                    Ok(rest) => Ok(seq![line] + rest),
                    Err(e) => Err(e),
                }
            } else {
                Ok(seq![line])
            },
        }
    }
}

/// The shape of an instruction's operands as written.
pub enum OperandForm {
    Empty,
    One(Atom),
    Two(Atom, Atom),
    Imm1(Atom),
}

impl View for OperandForm {
    type V = FormV;

    open spec fn view(&self) -> FormV {
        match self {
            OperandForm::Empty => FormV::Empty,
            OperandForm::One(a) => FormV::One(a@),
            OperandForm::Two(a, b) => FormV::Two(a@, b@),
            OperandForm::Imm1(a) => FormV::Imm1(a@),
        }
    }
}

/// A token as its kind, value, start and end.
pub open spec fn token_view(t: Token) -> (TokenKind, ValueV, nat, nat) {
    (t.kind, t.value@, t.span.start as nat, t.span.end as nat)
}

/// A parse error as its message and span.
pub open spec fn error_view(e: ParseError) -> ErrV {
    (e.msg@, e.span)
}

fn index_reg_of(r: NamedLiteral) -> (o: Option<IndexReg>)
    ensures
        o == index_reg(r),
{
    match r {
        NamedLiteral::SP => Some(IndexReg::SP),
        NamedLiteral::X => Some(IndexReg::X),
        NamedLiteral::Y => Some(IndexReg::Y),
        _ => None,
    }
}

fn reg_name_of(r: NamedLiteral) -> (o: Option<RegName>)
    ensures
        o == reg_name(r),
{
    match r {
        NamedLiteral::A => Some(RegName::A),
        NamedLiteral::CC => Some(RegName::CC),
        NamedLiteral::X => Some(RegName::X),
        NamedLiteral::Y => Some(RegName::Y),
        NamedLiteral::SP => Some(RegName::SP),
        _ => None,
    }
}

fn auto_index_of(r: NamedLiteral) -> (o: Option<AutoIndex>)
    ensures
        o == auto_index(r),
{
    match r {
        NamedLiteral::XPlus => Some(AutoIndex::XPlus),
        NamedLiteral::XMinus => Some(AutoIndex::XMinus),
        NamedLiteral::PlusX => Some(AutoIndex::PlusX),
        NamedLiteral::MinusX => Some(AutoIndex::MinusX),
        NamedLiteral::YPlus => Some(AutoIndex::YPlus),
        NamedLiteral::YMinus => Some(AutoIndex::YMinus),
        NamedLiteral::PlusY => Some(AutoIndex::PlusY),
        NamedLiteral::MinusY => Some(AutoIndex::MinusY),
        _ => None,
    }
}

/// The addressing mode and operands of an instruction written in a form.
fn form_mode(ins: Instruction, form: OperandForm) -> (r: Option<(Mode, Vec<Operand>)>)
    ensures
        match mode_spec(ins, form@) {
            Some((m, ops)) => r matches Some(x) && x.0 == m && x.1@.map_values(|o: Operand| o@)
                == ops,
            None => r is None,
        },
{
    match form {
        OperandForm::Empty => {
            let v: Vec<Operand> = Vec::new();
            assert(v@.map_values(|o: Operand| o@) =~= Seq::<OperandV>::empty());
            Some((Mode::Inherent, v))
        },
        OperandForm::Imm1(Atom::NumOrSym(v)) => {
            let ops = vec![Operand::Imm(v)];
            assert(ops@.map_values(|o: Operand| o@) =~= seq![OperandV::Imm(v@)]);
            Some((Mode::Immediate, ops))
        },
        OperandForm::One(Atom::NumOrSym(v)) => {
            let abs = encode(ins, Mode::Absolute);
            proof {
                if let Some(op) = abs {
                    assert(isa(op) == Some((ins, Mode::Absolute)));
                }
            }
            if abs.is_some() {
                let ops = vec![Operand::AbsAdr(v)];
                assert(ops@.map_values(|o: Operand| o@) =~= seq![OperandV::AbsAdr(v@)]);
                Some((Mode::Absolute, ops))
            } else {
                let ops = vec![Operand::RelAdr(v)];
                assert(ops@.map_values(|o: Operand| o@) =~= seq![OperandV::RelAdr(v@)]);
                Some((Mode::Relative, ops))
            }
        },
        OperandForm::Two(Atom::NumOrSym(v), Atom::Reg(r)) => match index_reg_of(r) {
            Some(ir) => {
                let ops = vec![Operand::N(v)];
                assert(ops@.map_values(|o: Operand| o@) =~= seq![OperandV::N(v@)]);
                Some((Mode::Indexed(ir), ops))
            },
            None => None,
        },
        OperandForm::Two(Atom::Reg(r1), Atom::Reg(r2)) => {
            let v: Vec<Operand> = Vec::new();
            assert(v@.map_values(|o: Operand| o@) =~= Seq::<OperandV>::empty());
            if r1 == NamedLiteral::A && (r2 == NamedLiteral::X || r2 == NamedLiteral::Y) {
                let ir = if r2 == NamedLiteral::X {
                    IndexReg::X
                } else {
                    IndexReg::Y
                };
                Some((Mode::AccIndexed(ir), v))
            } else {
                match (reg_name_of(r1), reg_name_of(r2)) {
                    (Some(a), Some(b)) => Some((Mode::Pair(a, b), v)),
                    _ => None,
                }
            }
        },
        OperandForm::Two(Atom::Empty, Atom::Reg(r)) => match auto_index_of(r) {
            Some(k) => {
                let v: Vec<Operand> = Vec::new();
                assert(v@.map_values(|o: Operand| o@) =~= Seq::<OperandV>::empty());
                Some((Mode::Auto(k), v))
            },
            None => None,
        },
        _ => None,
    }
}

/// The parser: reads a program from source text, one line at a time.
pub struct Parser<'a> {
    lexer: Lexer<'a>,
    curr_tok: Token,
    /// The position the current token was read from.
    at: usize,
    source_name: Option<String>,
}

impl<'a> Parser<'a> {
    /// The text being parsed.
    pub closed spec fn text(&self) -> Seq<char> {
        self.lexer.text()
    }

    /// The position the current token was read from.
    pub closed spec fn position(&self) -> nat {
        self.at as nat
    }

    /// The parser's own consistency: its current token is the one at its position.
    pub closed spec fn wf(&self) -> bool {
        &&& self.lexer.wf()
        &&& self.at <= self.lexer.text().len()
        &&& token_view(self.curr_tok) == lex_at(self.lexer.text(), self.at as nat)
        &&& self.lexer.position() == self.curr_tok.span.end
    }

    /// A parser at the start of a source text.
    pub fn from_source(source: &'a str) -> (r: Self)
        ensures
            r.text() == source@,
            r.position() == 0,
            r.wf(),
    {
        let mut lexer = Lexer::new(source);
        let curr_tok = lexer.next_token();
        Parser { lexer, curr_tok, at: 0, source_name: None }
    }

    /// Names the source, for diagnostics.
    pub fn with_source_name(self, name: String) -> (r: Self)
        ensures
            r.text() == self.text(),
            r.position() == self.position(),
            self.wf() ==> r.wf(),
    {
        Parser { source_name: Some(name), ..self }
    }

    fn advance(&mut self)
        requires
            old(self).wf(),
        ensures
            final(self).wf(),
            final(self).text() == old(self).text(),
            final(self).at == old(self).curr_tok.span.end,
    {
        proof {
            crate::lexer::lemma_lex_at_bounds(self.lexer.text(), self.at as nat);
        }
        self.at = self.curr_tok.span.end;
        self.curr_tok = self.lexer.next_token();
    }

    fn parse_atom(&mut self) -> (r: Result<Atom, ParseError>)
        requires
            old(self).wf(),
        ensures
            final(self).wf(),
            final(self).text() == old(self).text(),
            match atom_spec(old(self).text(), old(self).at as nat) {
                Ok((a, q)) => r matches Ok(x) && x@ == a && final(self).at == q,
                Err(e) => r matches Err(err) && error_view(err) == e,
            },
    {
        let a = match &self.curr_tok.value {
            TokenValue::NamedLiteral(n) => Atom::Reg(*n),
            TokenValue::NumberLiteral(v) => Atom::NumOrSym(NumOrSym::Num(*v)),
            TokenValue::Sym(name) => Atom::NumOrSym(NumOrSym::Sym(name.clone())),
            _ => {
                return Err(ParseError::new(String::from_str("Expected operand"), self.curr_tok.span));
            },
        };
        self.advance();
        Ok(a)
    }

    fn parse_operands(&mut self) -> (r: Result<OperandForm, ParseError>)
        requires
            old(self).wf(),
        ensures
            final(self).wf(),
            final(self).text() == old(self).text(),
            match operands_spec(old(self).text(), old(self).at as nat) {
                Ok((f, q)) => r matches Ok(x) && x@ == f && final(self).at == q,
                Err(e) => r matches Err(err) && error_view(err) == e,
            },
    {
        let kind = self.curr_tok.kind;
        if kind == TokenKind::ImmediatePrefix {
            self.advance();
            let a = self.parse_atom()?;
            Ok(OperandForm::Imm1(a))
        } else if matches!(self.curr_tok.value, TokenValue::NamedLiteral(_) | TokenValue::NumberLiteral(_) | TokenValue::Sym(_)) {
            let a1 = self.parse_atom()?;
            if self.curr_tok.kind == TokenKind::Comma {
                self.advance();
                let a2 = self.parse_atom()?;
                Ok(OperandForm::Two(a1, a2))
            } else {
                Ok(OperandForm::One(a1))
            }
        } else if kind == TokenKind::Comma {
            self.advance();
            let a = self.parse_atom()?;
            Ok(OperandForm::Two(Atom::Empty, a))
        } else {
            Ok(OperandForm::Empty)
        }
    }

    fn parse_instruction(&mut self, ins: Instruction) -> (r: Result<AsmInstruction, ParseError>)
        requires
            old(self).wf(),
            old(self).curr_tok.value@ == ValueV::Instruction(ins),
        ensures
            final(self).wf(),
            final(self).text() == old(self).text(),
            match instruction_spec(old(self).text(), old(self).at as nat, ins) {
                Ok((l, q)) => r matches Ok(x) && AsmLine::Instruction(x)@ == l && final(self).at == q,
                Err(e) => r matches Err(err) && error_view(err) == e,
            },
    {
        let ghost s = self.text();
        let ghost q0 = self.at as nat;
        let start = self.curr_tok.span.start;
        self.advance();
        let after_mnemonic = self.at;
        let first_operand = self.curr_tok.span.start;
        let form = self.parse_operands()?;
        let end = self.at;
        let op_start = if end == after_mnemonic {
            end
        } else {
            first_operand
        };
        match form_mode(ins, form) {
            Some((mode, operands)) => match encode(ins, mode) {
                Some(opcode) => {
                    proof {
                        let c = choose|op: u8| encodes_first(ins, mode, op);
                        crate::isa::lemma_encodes_first_unique(ins, mode, c, opcode);
                    }
                    Ok(AsmInstruction {
                        span: Span { start, end },
                        opcode,
                        operands,
                        operand_span: Span { start: op_start, end },
                    })
                },
                None => Err(ParseError::new(
                    String::from_str("Invalid operand form for instruction"),
                    Span { start, end },
                )),
            },
            None => Err(ParseError::new(
                String::from_str("Invalid operand form for instruction"),
                Span { start, end },
            )),
        }
    }

    fn parse_directive(&mut self, d: Directive) -> (r: Result<AsmDirective, ParseError>)
        requires
            old(self).wf(),
            old(self).curr_tok.value@ == ValueV::Directive(d),
        ensures
            final(self).wf(),
            final(self).text() == old(self).text(),
            match directive_line_spec(old(self).text(), old(self).at as nat, d) {
                Ok((l, q)) => r matches Ok(x) && AsmLine::Directive(x)@ == l && final(self).at == q,
                Err(e) => r matches Err(err) && error_view(err) == e,
            },
    {
        let ghost s = self.text();
        let start = self.curr_tok.span.start;
        self.advance();
        let next_span = self.curr_tok.span;
        let takes_one = matches!(self.curr_tok.value, TokenValue::NumberLiteral(_) | TokenValue::Sym(_));
        match d {
            Directive::Org | Directive::Equ => {
                if takes_one {
                    let a = self.parse_atom()?;
                    let args = vec![a];
                    assert(args@.map_values(|x: Atom| x@) =~= seq![a@]);
                    Ok(AsmDirective { span: Span { start, end: next_span.end }, name: d, args })
                } else if d == Directive::Org {
                    Err(ParseError::new(
                        String::from_str("Expected number or symbol"),
                        Span { start, end: next_span.end },
                    ))
                } else {
                    Err(ParseError::new(String::from_str("Expected number or symbol"), next_span))
                }
            },
            _ => {
                let (args, last_end) = self.parse_args();
                Ok(AsmDirective { span: Span { start, end: last_end }, name: d, args })
            },
        }
    }

    /// The numbers and symbols of a list directive, separated by commas,
    /// and the end of the last token taken.
    #[verifier::rlimit(40)]
    fn parse_args(&mut self) -> (r: (Vec<Atom>, usize))
        requires
            old(self).wf(),
        ensures
            final(self).wf(),
            final(self).text() == old(self).text(),
            args_spec(old(self).text(), old(self).at as nat, old(self).at as nat) == (
                r.0@.map_values(|x: Atom| x@),
                final(self).at as nat,
                r.1 as nat,
            ),
    {
        let ghost s = self.text();
        let mut args: Vec<Atom> = Vec::new();
        let mut last_end = self.at;
        let ghost q0 = self.at as nat;
        let mut more = true;
        assert(args@.map_values(|x: Atom| x@) =~= Seq::<AtomV>::empty());
        assert(args@.map_values(|x: Atom| x@) + args_spec(s, q0, q0).0 =~= args_spec(s, q0, q0).0);
        while more
            invariant
                self.wf(),
                self.text() == s,
                s == old(self).text(),
                q0 == old(self).at as nat,
                more ==> args_spec(s, q0, q0) == (
                    args@.map_values(|x: Atom| x@) + args_spec(s, self.at as nat, last_end as nat).0,
                    args_spec(s, self.at as nat, last_end as nat).1,
                    args_spec(s, self.at as nat, last_end as nat).2,
                ),
                !more ==> args_spec(s, q0, q0) == (
                    args@.map_values(|x: Atom| x@),
                    self.at as nat,
                    last_end as nat,
                ),
            decreases s.len() - self.at + if more {
                1int
            } else {
                0int
            },
        {
            let q = self.at;
            proof {
                crate::lexer::lemma_lex_at_bounds(s, q as nat);
            }
            if self.at < self.lexer_len() && matches!(self.curr_tok.value, TokenValue::NumberLiteral(_) | TokenValue::Sym(_)) {
                let a = match self.parse_atom() {
                    Ok(a) => a,
                    Err(_) => {
                        proof {
                            assert(false);
                        }
                        Atom::Empty
                    },
                };
                let q1 = self.at;
                let ghost before = args@;
                args.push(a);
                assert(args@.map_values(|x: Atom| x@) =~= before.map_values(|x: Atom| x@).push(a@));
                proof {
                    crate::lexer::lemma_lex_at_bounds(s, q1 as nat);
                }
                if self.curr_tok.kind == TokenKind::Comma && q < self.curr_tok.span.end {
                    let e = self.curr_tok.span.end;
                    self.advance();
                    last_end = e;
                    assert(args@.map_values(|x: Atom| x@) + args_spec(s, self.at as nat, last_end as nat).0
                        =~= before.map_values(|x: Atom| x@) + (seq![a@] + args_spec(s, self.at as nat, last_end as nat).0));
                } else {
                    last_end = q1;
                    more = false;
                    assert(args@.map_values(|x: Atom| x@) =~= before.map_values(|x: Atom| x@) + seq![a@]);
                }
            } else {
                more = false;
                assert(args@.map_values(|x: Atom| x@) + Seq::<AtomV>::empty() =~= args@.map_values(|x: Atom| x@));
            }
        }
        (args, last_end)
    }

    fn lexer_len(&self) -> (n: usize)
        requires
            self.wf(),
        ensures
            n == self.text().len(),
    {
        self.lexer.len()
    }

    /// Parses the line that starts with the current token.
    fn parse_line(&mut self) -> (r: Result<AsmLine, ParseError>)
        requires
            old(self).wf(),
            old(self).curr_tok.kind != TokenKind::Eof,
        ensures
            final(self).wf(),
            final(self).text() == old(self).text(),
            match line_spec(old(self).text(), old(self).at as nat) {
                Ok((l, q)) => r matches Ok(x) && x@ == l && final(self).at == q,
                Err(e) => r matches Err(err) && error_view(err) == e,
            },
    {
        match &self.curr_tok.value {
            TokenValue::Instruction(ins) => {
                let ins = *ins;
                match self.parse_instruction(ins) {
                    Ok(x) => Ok(AsmLine::Instruction(x)),
                    Err(e) => Err(e),
                }
            },
            TokenValue::Directive(d) => {
                let d = *d;
                match self.parse_directive(d) {
                    Ok(x) => Ok(AsmLine::Directive(x)),
                    Err(e) => Err(e),
                }
            },
            TokenValue::Sym(name) => {
                let sym = AsmSymbol { span: self.curr_tok.span, name: name.clone() };
                self.advance();
                if self.curr_tok.kind == TokenKind::Colon {
                    self.advance();
                }
                Ok(AsmLine::Symbol(sym))
            },
            _ => {
                let msg = if self.curr_tok.kind == TokenKind::Invalid {
                    String::from_str("Invalid token")
                } else {
                    String::from_str("Unexpected token")
                };
                Err(ParseError::new(msg, self.curr_tok.span))
            },
        }
    }

    /// Parses the program from the current token to the end of input.
    pub fn parse(&mut self) -> (r: Result<ProgramAST, ParseError>)
        requires
            old(self).wf(),
        ensures
            match lines_spec(old(self).text(), old(self).position()) {
                Ok(ls) => r matches Ok(ast) && lines_view(ast.lines@) == ls,
                Err(e) => r matches Err(err) && error_view(err) == e,
            },
    {
        let ghost s = self.text();
        let ghost q0 = self.at as nat;
        let mut lines: Vec<AsmLine> = Vec::new();
        assert(lines_view(lines@) =~= Seq::<LineV>::empty());
        let n = self.lexer_len();
        while self.curr_tok.kind != TokenKind::Eof
            invariant
                self.wf(),
                self.text() == s,
                s == old(self).text(),
                q0 == old(self).position(),
                n == s.len(),
                lines_spec(s, q0) == match lines_spec(s, self.at as nat) {
                    Ok(rest) => Ok::<Seq<LineV>, ErrV>(lines_view(lines@) + rest),
                    Err(e) => Err(e),
                },
            decreases s.len() - self.at,
        {
            let q = self.at;
            let ghost before = lines@;
            let line = match self.parse_line() {
                Ok(l) => l,
                Err(e) => {
                    assert(lines_spec(s, q as nat) == Err::<Seq<LineV>, ErrV>(error_view(e)));
                    return Err(e);
                },
            };
            lines.push(line);
            assert(lines_view(lines@) =~= lines_view(before).push(line@));
            if !(q < self.at && self.at <= n) {
                assert(lines_view(lines@) =~= lines_view(before) + seq![line@]);
                return Ok(ProgramAST { lines });
            }
            assert(lines_view(lines@) + Seq::<LineV>::empty() =~= lines_view(lines@));
            proof {
                match lines_spec(s, self.at as nat) {
                    Ok(rest) => {
                        assert(lines_view(lines@) + rest =~= lines_view(before) + (seq![line@] + rest));
                    },
                    Err(_) => {},
                }
            }
        }
        assert(lines_view(lines@) + Seq::<LineV>::empty() =~= lines_view(lines@));
        Ok(ProgramAST { lines })
    }
}

} // verus!
