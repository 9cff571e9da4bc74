//! The assembler back end: symbol collection, code generation into a
//! 256-byte image, and the whole assembler from source text to image.

use vstd::prelude::*;

use crate::lexer::{Directive, Span};
use crate::math_utils::{sub8, wrap8};
use crate::parser::{
    error_view, lines_spec, lines_view, Parser, instruction_footprint, operand_bytes, AsmDirective, AsmInstruction, AsmLine, Atom, NumOrSym,
    Operand, ParseError, ProgramAST,
};

verus! {

/// Why assembling failed.
#[derive(Debug)]
pub enum AssembleError {
    /// The source does not lex or parse.
    Parse(ParseError),
    /// An operand or directive names a symbol that no label defines.
    UndefinedSymbol { name: String, span: Span },
    /// A label is defined a second time.
    DuplicateSymbol { name: String, span: Span },
    /// A directive that the assembler does not implement (`EQU`, `FCS`, `RMB`),
    /// or a directive argument of the wrong kind.
    UnsupportedDirective { span: Span },
    /// An instruction does not fit in the 256-byte address space.
    OverflowFromInstruction { span: Span },
    /// The bytes of a directive do not fit in the 256-byte address space.
    OverflowFromDirective { span: Span },
}

/// What an [`AssembleError`] says, with names as character sequences.
pub enum AsmErr {
    Parse(Seq<char>, Span),
    Undefined(Seq<char>, Span),
    Duplicate(Seq<char>, Span),
    Unsupported(Span),
    OverflowIns(Span),
    OverflowDir(Span),
}

impl View for AssembleError {
    type V = AsmErr;

    open spec fn view(&self) -> AsmErr {
        match self {
            AssembleError::Parse(e) => AsmErr::Parse(e.msg@, e.span),
            AssembleError::UndefinedSymbol { name, span } => AsmErr::Undefined(name@, *span),
            AssembleError::DuplicateSymbol { name, span } => AsmErr::Duplicate(name@, *span),
            AssembleError::UnsupportedDirective { span } => AsmErr::Unsupported(*span),
            AssembleError::OverflowFromInstruction { span } => AsmErr::OverflowIns(*span),
            AssembleError::OverflowFromDirective { span } => AsmErr::OverflowDir(*span),
        }
    }
}

/// Why a write into [`Memory`] failed.
#[derive(Debug, Clone, Copy, PartialEq, Eq, Structural)]
pub enum MemoryError {
    /// Advancing the cursor would take it past address 256.
    Overflow,
    /// A byte was to be written at this address, which is past the last one.
    OutOfBounds(usize),
}

/// A 256-byte image being filled, with a write cursor that runs from 0 to
/// 256: 256 means "one past the last byte", which is not the same as 0.
pub struct Memory {
    data: [u8; 256],
    pc: u16,
}

impl Memory {
    #[verifier::type_invariant]
    spec fn cursor_in_range(&self) -> bool {
        self.pc <= 256
    }

    /// The bytes of the image.
    pub closed spec fn bytes(&self) -> Seq<u8> {
        self.data@
    }

    /// The write cursor, from 0 to 256.
    pub closed spec fn cursor(&self) -> nat {
        self.pc as nat
    }

    /// An image of zeros with the cursor at 0.
    pub fn new() -> (r: Self)
        ensures
            r.bytes() == Seq::new(256, |i: int| 0u8),
            r.cursor() == 0,
    {
        let m = Memory { data: [0u8; 256], pc: 0 };
        assert(m.data@ =~= Seq::new(256, |i: int| 0u8));
        m
    }

    /// Writes a byte at the cursor and advances it. Writing the byte at
    /// address 255 succeeds and leaves the cursor at 256; a write with the
    /// cursor at 256 fails and changes nothing.
    pub fn write_byte(&mut self, byte: u8) -> (r: Result<(), MemoryError>)
        ensures
            old(self).cursor() < 256 ==> r is Ok && final(self).cursor() == old(self).cursor() + 1
                && final(self).bytes() == old(self).bytes().update(
                old(self).cursor() as int,
                byte,
            ),
            old(self).cursor() == 256 ==> r == Err::<(), MemoryError>(MemoryError::OutOfBounds(256))
                && final(self).cursor() == old(self).cursor() && final(self).bytes() == old(
                self,
            ).bytes(),
            final(self).cursor() <= 256,
    {
        proof {
            use_type_invariant(&*self);
        }
        let addr = self.pc as usize;
        if addr >= 256 {
            return Err(MemoryError::OutOfBounds(addr));
        }
        self.data[addr] = byte;
        self.pc = self.pc + 1;
        Ok(())
    }

    /// Moves the cursor to an address.
    pub fn set_pc(&mut self, new_pc: u8)
        ensures
            final(self).cursor() == new_pc as nat,
            final(self).bytes() == old(self).bytes(),
    {
        self.pc = new_pc as u16;
    }

    /// The cursor as an address: 256 reads as 0.
    pub fn get_pc(&self) -> (r: u8)
        ensures
            r == wrap8(self.cursor() as int),
    {
        proof {
            use_type_invariant(self);
        }
        (self.pc % 256) as u8
    }

    /// Advances the cursor by `inc` bytes without writing. Fails, and
    /// changes nothing, if the cursor would pass 256.
    pub fn inc_pc(&mut self, inc: u8) -> (r: Result<(), MemoryError>)
        ensures
            old(self).cursor() + inc <= 256 ==> r is Ok && final(self).cursor() == old(self).cursor()
                + inc,
            old(self).cursor() + inc > 256 ==> r == Err::<(), MemoryError>(MemoryError::Overflow)
                && final(self).cursor() == old(self).cursor(),
            final(self).bytes() == old(self).bytes(),
            final(self).cursor() <= 256,
    {
        proof {
            use_type_invariant(&*self);
        }
        if self.pc + inc as u16 > 256 {
            return Err(MemoryError::Overflow);
        }
        self.pc = self.pc + inc as u16;
        Ok(())
    }

    /// Advances the cursor by `n` bytes without writing, unless that would
    /// take it past 256.
    fn advance(&mut self, n: u16) -> (r: Result<(), MemoryError>)
        ensures
            old(self).cursor() + n <= 256 ==> r is Ok && final(self).cursor() == old(self).cursor() + n,
            old(self).cursor() + n > 256 ==> r is Err && final(self).cursor() == old(self).cursor(),
            final(self).bytes() == old(self).bytes(),
    {
        proof {
            use_type_invariant(&*self);
        }
        if n > 256 - self.pc {
            return Err(MemoryError::Overflow);
        }
        self.pc = self.pc + n;
        Ok(())
    }

    pub fn get_data(&self) -> (r: &[u8; 256])
        ensures
            r@ == self.bytes(),
    {
        &self.data
    }
}

/// A symbol table: names with their addresses, in order of definition.
pub type SymTab = Seq<(Seq<char>, u8)>;

/// The address of a name: the first entry for it.
pub open spec fn lookup(t: SymTab, k: Seq<char>) -> Option<u8>
    decreases t.len(),
{
    if t.len() == 0 {
        None
    } else if t[0].0 == k {
        Some(t[0].1)
    } else {
        lookup(t.drop_first(), k)
    }
}

proof fn lemma_lookup_at(t: SymTab, k: Seq<char>, i: int)
    requires
        0 <= i <= t.len(),
        forall|j: int| 0 <= j < i ==> t[j].0 != k,
    ensures
        i < t.len() && t[i].0 == k ==> lookup(t, k) == Some(t[i].1),
        i == t.len() ==> lookup(t, k) is None,
    decreases i,
{
    if i > 0 {
        lemma_lookup_at(t.drop_first(), k, i - 1);
    }
}

proof fn lemma_lookup_push(t: SymTab, k: Seq<char>, e: (Seq<char>, u8))
    ensures
        lookup(t.push(e), k) == if lookup(t, k) is Some {
            lookup(t, k)
        } else if e.0 == k {
            Some(e.1)
        } else {
            None
        },
    decreases t.len(),
{
    if t.len() > 0 {
        assert(t.push(e).drop_first() =~= t.drop_first().push(e));
        assert(t.push(e)[0] == t[0]);
        lemma_lookup_push(t.drop_first(), k, e);
    } else {
        assert(t.push(e).drop_first() =~= Seq::<(Seq<char>, u8)>::empty());
        assert(t.push(e)[0] == e);
        assert(lookup(t.push(e).drop_first(), k) is None);
    }
}

/// The symbol table that a vector of names and addresses holds.
pub open spec fn table_view(v: Seq<(String, u8)>) -> SymTab {
    v.map_values(|p: (String, u8)| (p.0@, p.1))
}

fn find_symbol(table: &Vec<(String, u8)>, name: &String) -> (r: Option<u8>)
    ensures
        r == lookup(table_view(table@), name@),
{
    let mut i: usize = 0;
    while i < table.len()
        invariant
            i <= table@.len(),
            forall|j: int| 0 <= j < i ==> table_view(table@)[j].0 != name@,
        decreases table@.len() - i,
    {
        if table[i].0 == *name {
            proof {
                lemma_lookup_at(table_view(table@), name@, i as int);
            }
            return Some(table[i].1);
        }
        i = i + 1;
    }
    proof {
        lemma_lookup_at(table_view(table@), name@, i as int);
    }
    None
}

/// The value of a number or symbol operand, given the symbol table.
pub open spec fn num_or_sym_value(t: SymTab, v: NumOrSym) -> Option<u8> {
    match v {
        NumOrSym::Num(n) => Some(n),
        NumOrSym::Sym(s) => lookup(t, s@),
    }
}

/// The error for a symbol that the table lacks.
pub open spec fn undefined(v: NumOrSym, span: Span) -> AsmErr {
    match v {
        NumOrSym::Sym(s) => AsmErr::Undefined(s@, span),
        NumOrSym::Num(_) => AsmErr::Unsupported(span),
    }
}

/// The cursor and symbol table after one line of the first pass.
pub open spec fn collect_line(cur: nat, t: SymTab, line: AsmLine) -> Result<(nat, SymTab), AsmErr> {
    match line {
        AsmLine::Symbol(sym) => if lookup(t, sym.name@) is Some {
            Err(AsmErr::Duplicate(sym.name@, sym.span))
        } else {
            Ok((cur, t.push((sym.name@, wrap8(cur as int)))))
        },
        AsmLine::Directive(dir) => match dir.name {
            Directive::Org => match org_target(t, dir) {
                Ok(n) => Ok((n as nat, t)),
                Err(e) => Err(e),
            },
            Directive::Fcb => if cur + dir.args@.len() > 256 {
                Err(AsmErr::OverflowDir(dir.span))
            } else {
                Ok((cur + dir.args@.len(), t))
            },
            _ => Err(AsmErr::Unsupported(dir.span)),
        },
        AsmLine::Instruction(ins) => if cur + instruction_footprint(ins) > 256 {
            Err(AsmErr::OverflowIns(ins.span))
        } else {
            Ok((cur + instruction_footprint(ins), t))
        },
    }
}

/// The address that an `ORG` directive moves the cursor to.
pub open spec fn org_target(t: SymTab, dir: AsmDirective) -> Result<u8, AsmErr> {
    if dir.args@.len() == 0 {
        Err(AsmErr::Unsupported(dir.span))
    } else {
        match dir.args@[0] {
            Atom::NumOrSym(v) => match num_or_sym_value(t, v) {
                Some(n) => Ok(n),
                None => Err(undefined(v, dir.span)),
            },
            _ => Err(AsmErr::Unsupported(dir.span)),
        }
    }
}

/// The first pass over the lines: each label is bound to the cursor where
/// it stands. Yields the final cursor and the table.
pub open spec fn collect_spec(lines: Seq<AsmLine>) -> Result<(nat, SymTab), AsmErr>
    decreases lines.len(),
{
    if lines.len() == 0 {
        Ok((0, Seq::empty()))
    } else {
        match collect_spec(lines.drop_last()) {
            Ok((cur, t)) => collect_line(cur, t, lines.last()),
            Err(e) => Err(e),
        }
    }
}

/// The first pass: binds every label to its address.
pub fn collect_symbols(ast: &ProgramAST) -> (r: Result<Vec<(String, u8)>, AssembleError>)
    ensures
        match collect_spec(ast.lines@) {
            Ok((_, t)) => r matches Ok(v) && table_view(v@) == t,
            Err(e) => r matches Err(err) && err@ == e,
        },
{
    let mut symbols: Vec<(String, u8)> = Vec::new();
    let mut memory = Memory::new();
    let mut i: usize = 0;
    assert(ast.lines@.subrange(0, 0) =~= Seq::<AsmLine>::empty());
    assert(table_view(symbols@) =~= Seq::<(Seq<char>, u8)>::empty());
    while i < ast.lines.len()
        invariant
            i <= ast.lines@.len(),
            collect_spec(ast.lines@.subrange(0, i as int)) == Ok::<(nat, SymTab), AsmErr>(
                (memory.cursor(), table_view(symbols@)),
            ),
        decreases ast.lines@.len() - i,
    {
        let ghost prefix = ast.lines@.subrange(0, i + 1);
        assert(prefix.drop_last() =~= ast.lines@.subrange(0, i as int));
        match &ast.lines[i] {
            AsmLine::Symbol(sym) => {
                if find_symbol(&symbols, &sym.name).is_some() {
                    proof {
                        lemma_collect_err_prefix(ast.lines@, i + 1);
                    }
                    return Err(AssembleError::DuplicateSymbol { name: sym.name.clone(), span: sym.span });
                }
                let ghost before = symbols@;
                let name = sym.name.clone();
                symbols.push((name, memory.get_pc()));
                assert(table_view(symbols@) =~= table_view(before).push((sym.name@, wrap8(memory.cursor() as int))));
            },
            AsmLine::Directive(dir) => {
                match dir.name {
                    Directive::Org => {
                        match org_address(&symbols, dir) {
                            Ok(target) => memory.set_pc(target),
                            Err(e) => {
                                proof {
                                    lemma_collect_err_prefix(ast.lines@, i + 1);
                                }
                                return Err(e);
                            },
                        }
                    },
                    Directive::Fcb => {
                        if dir.args.len() > 256 || memory.advance(dir.args.len() as u16).is_err() {
                            proof {
                                lemma_collect_err_prefix(ast.lines@, i + 1);
                            }
                            return Err(AssembleError::OverflowFromDirective { span: dir.span });
                        }
                    },
                    _ => {
                        proof {
                            lemma_collect_err_prefix(ast.lines@, i + 1);
                        }
                        return Err(AssembleError::UnsupportedDirective { span: dir.span });
                    },
                }
            },
            AsmLine::Instruction(ins) => {
                match footprint_within(ins, 256) {
                    Some(size) => {
                        if memory.advance(size).is_err() {
                            proof {
                                lemma_collect_err_prefix(ast.lines@, i + 1);
                            }
                            return Err(AssembleError::OverflowFromInstruction { span: ins.span });
                        }
                    },
                    None => {
                        proof {
                            lemma_collect_err_prefix(ast.lines@, i + 1);
                        }
                        return Err(AssembleError::OverflowFromInstruction { span: ins.span });
                    },
                }
            },
        }
        i = i + 1;
    }
    assert(ast.lines@.subrange(0, i as int) =~= ast.lines@);
    Ok(symbols)
}

/// An error in the first pass over a prefix of the lines is the error of
/// the first pass over all of them.
proof fn lemma_collect_err_prefix(lines: Seq<AsmLine>, k: int)
    requires
        0 <= k <= lines.len(),
        collect_spec(lines.subrange(0, k)) is Err,
    ensures
        collect_spec(lines) == collect_spec(lines.subrange(0, k)),
    decreases lines.len() - k,
{
    if k < lines.len() {
        let p = lines.subrange(0, k + 1);
        assert(p.drop_last() =~= lines.subrange(0, k));
        lemma_collect_err_prefix(lines, k + 1);
    } else {
        assert(lines.subrange(0, k) =~= lines);
    }
}

/// The footprint of an instruction, if it is at most `room` bytes.
fn footprint_within(ins: &AsmInstruction, room: u16) -> (r: Option<u16>)
    requires
        room <= 256,
    ensures
        instruction_footprint(*ins) <= room ==> r == Some(instruction_footprint(*ins) as u16),
        instruction_footprint(*ins) > room ==> r is None,
{
    let mut n: u16 = 1;
    let mut i: usize = 0;
    while i < ins.operands.len()
        invariant
            i <= ins.operands@.len(),
            n == 1 + operand_bytes(ins.operands@.subrange(0, i as int)),
            n <= room as nat + 1,
            room <= 256,
        decreases ins.operands@.len() - i,
    {
        assert(ins.operands@.subrange(0, i + 1).drop_last() =~= ins.operands@.subrange(0, i as int));
        if !matches!(ins.operands[i], Operand::Reg(_)) {
            n = n + 1;
            if n > room {
                proof {
                    lemma_operand_bytes_prefix(ins.operands@, i + 1);
                }
                return None;
            }
        }
        i = i + 1;
    }
    assert(ins.operands@.subrange(0, i as int) =~= ins.operands@);
    if n > room {
        return None;
    }
    Some(n)
}

/// Operand bytes only grow as operands are added.
proof fn lemma_operand_bytes_prefix(ops: Seq<Operand>, k: int)
    requires
        0 <= k <= ops.len(),
    ensures
        operand_bytes(ops.subrange(0, k)) <= operand_bytes(ops),
    decreases ops.len() - k,
{
    if k < ops.len() {
        lemma_operand_bytes_prefix(ops, k + 1);
        assert(ops.subrange(0, k + 1).drop_last() =~= ops.subrange(0, k));
    } else {
        assert(ops.subrange(0, k) =~= ops);
    }
}

fn org_address(symbols: &Vec<(String, u8)>, dir: &AsmDirective) -> (r: Result<u8, AssembleError>)
    ensures
        match org_target(table_view(symbols@), *dir) {
            Ok(n) => r == Ok::<u8, AssembleError>(n),
            Err(e) => r matches Err(err) && err@ == e,
        },
{
    if dir.args.len() == 0 {
        return Err(AssembleError::UnsupportedDirective { span: dir.span });
    }
    match &dir.args[0] {
        Atom::NumOrSym(NumOrSym::Num(n)) => Ok(*n),
        Atom::NumOrSym(NumOrSym::Sym(s)) => match find_symbol(symbols, s) {
            Some(n) => Ok(n),
            None => Err(AssembleError::UndefinedSymbol { name: s.clone(), span: dir.span }),
        },
        _ => Err(AssembleError::UnsupportedDirective { span: dir.span }),
    }
}

/// An image with `b` written from address `cur` on.
pub open spec fn write_at(mem: Seq<u8>, cur: nat, b: Seq<u8>) -> Seq<u8> {
    Seq::new(
        mem.len(),
        |i: int|
            if cur <= i < cur + b.len() {
                b[i - cur]
            } else {
                mem[i]
            },
    )
}

/// The byte an operand contributes. `next` is the address that follows the
/// instruction, from which a branch offset counts.
pub open spec fn operand_byte(t: SymTab, op: Operand, next: nat) -> Option<u8> {
    match op {
        Operand::Imm(v) => num_or_sym_value(t, v),
        Operand::AbsAdr(v) => num_or_sym_value(t, v),
        Operand::N(v) => num_or_sym_value(t, v),
        Operand::RelAdr(v) => match num_or_sym_value(t, v) {
            Some(target) => Some(wrap8(target - next)),
            None => None,
        },
        Operand::Reg(_) => None,
    }
}

/// The number or symbol an operand is written with.
pub open spec fn operand_source(op: Operand) -> NumOrSym {
    match op {
        Operand::Imm(v) => v,
        Operand::AbsAdr(v) => v,
        Operand::N(v) => v,
        Operand::RelAdr(v) => v,
        Operand::Reg(_) => NumOrSym::Num(0),
    }
}

/// The operand bytes of an instruction, or the error of the first operand
/// whose symbol is undefined.
pub open spec fn operands_bytes(t: SymTab, ops: Seq<Operand>, next: nat, span: Span) -> Result<
    Seq<u8>,
    AsmErr,
>
    decreases ops.len(),
{
    if ops.len() == 0 {
        Ok(Seq::empty())
    } else {
        match operands_bytes(t, ops.drop_last(), next, span) {
            Err(e) => Err(e),
            Ok(b) => if ops.last() is Reg {
                Ok(b)
            } else {
                match operand_byte(t, ops.last(), next) {
                    Some(x) => Ok(b.push(x)),
                    None => Err(undefined(operand_source(ops.last()), span)),
                }
            },
        }
    }
}

/// The bytes of the arguments of an `FCB` directive.
pub open spec fn fcb_bytes(t: SymTab, args: Seq<Atom>, span: Span) -> Result<Seq<u8>, AsmErr>
    decreases args.len(),
{
    if args.len() == 0 {
        Ok(Seq::empty())
    } else {
        match fcb_bytes(t, args.drop_last(), span) {
            Err(e) => Err(e),
            Ok(b) => match args.last() {
                Atom::NumOrSym(v) => match num_or_sym_value(t, v) {
                    Some(x) => Ok(b.push(x)),
                    None => Err(undefined(v, span)),
                },
                _ => Err(AsmErr::Unsupported(span)),
            },
        }
    }
}

/// The cursor and image after one line of the second pass.
pub open spec fn emit_line(cur: nat, mem: Seq<u8>, t: SymTab, line: AsmLine) -> Result<
    (nat, Seq<u8>),
    AsmErr,
> {
    match line {
        AsmLine::Symbol(_) => Ok((cur, mem)),
        AsmLine::Directive(dir) => match dir.name {
            Directive::Org => match org_target(t, dir) {
                Ok(n) => Ok((n as nat, mem)),
                Err(e) => Err(e),
            },
            Directive::Fcb => if cur + dir.args@.len() > 256 {
                Err(AsmErr::OverflowDir(dir.span))
            } else {
                match fcb_bytes(t, dir.args@, dir.span) {
                    Ok(b) => Ok((cur + b.len(), write_at(mem, cur, b))),
                    Err(e) => Err(e),
                }
            },
            _ => Err(AsmErr::Unsupported(dir.span)),
        },
        AsmLine::Instruction(ins) => {
            let next = cur + instruction_footprint(ins);
            if next > 256 {
                Err(AsmErr::OverflowIns(ins.span))
            } else {
                match operands_bytes(t, ins.operands@, next, ins.operand_span) {
                    Ok(b) => Ok((next, write_at(mem, cur, seq![ins.opcode] + b))),
                    Err(e) => Err(e),
                }
            }
        },
    }
}

/// The second pass: writes every line's bytes, resolving symbols in the
/// table of the first pass.
pub open spec fn emit_spec(lines: Seq<AsmLine>, t: SymTab) -> Result<(nat, Seq<u8>), AsmErr>
    decreases lines.len(),
{
    if lines.len() == 0 {
        Ok((0, Seq::new(256, |i: int| 0u8)))
    } else {
        match emit_spec(lines.drop_last(), t) {
            Ok((cur, mem)) => emit_line(cur, mem, t, lines.last()),
            Err(e) => Err(e),
        }
    }
}

/// The assembler on a parsed program: the first pass, then the second.
pub open spec fn assemble_spec(lines: Seq<AsmLine>) -> Result<Seq<u8>, AsmErr> {
    match collect_spec(lines) {
        Err(e) => Err(e),
        Ok((_, t)) => match emit_spec(lines, t) {
            Ok((_, mem)) => Ok(mem),
            Err(e) => Err(e),
        },
    }
}

proof fn lemma_emit_err_prefix(lines: Seq<AsmLine>, t: SymTab, k: int)
    requires
        0 <= k <= lines.len(),
        emit_spec(lines.subrange(0, k), t) is Err,
    ensures
        emit_spec(lines, t) == emit_spec(lines.subrange(0, k), t),
    decreases lines.len() - k,
{
    if k < lines.len() {
        let p = lines.subrange(0, k + 1);
        assert(p.drop_last() =~= lines.subrange(0, k));
        lemma_emit_err_prefix(lines, t, k + 1);
    } else {
        assert(lines.subrange(0, k) =~= lines);
    }
}

fn value_of(symbols: &Vec<(String, u8)>, v: &NumOrSym) -> (r: Option<u8>)
    ensures
        r == num_or_sym_value(table_view(symbols@), *v),
{
    match v {
        NumOrSym::Num(n) => Some(*n),
        NumOrSym::Sym(s) => find_symbol(symbols, s),
    }
}

fn undefined_error(v: &NumOrSym, span: Span) -> (r: AssembleError)
    ensures
        r@ == undefined(*v, span),
{
    match v {
        NumOrSym::Sym(s) => AssembleError::UndefinedSymbol { name: s.clone(), span },
        NumOrSym::Num(_) => AssembleError::UnsupportedDirective { span },
    }
}

fn instruction_operand_bytes(symbols: &Vec<(String, u8)>, ins: &AsmInstruction, next: u16) -> (r:
    Result<Vec<u8>, AssembleError>)
    ensures
        match operands_bytes(table_view(symbols@), ins.operands@, next as nat, ins.operand_span) {
            Ok(b) => r matches Ok(v) && v@ == b,
            Err(e) => r matches Err(err) && err@ == e,
        },
{
    let ghost t = table_view(symbols@);
    let mut out: Vec<u8> = Vec::new();
    let mut i: usize = 0;
    assert(ins.operands@.subrange(0, 0) =~= Seq::<Operand>::empty());
    while i < ins.operands.len()
        invariant
            i <= ins.operands@.len(),
            t == table_view(symbols@),
            operands_bytes(t, ins.operands@.subrange(0, i as int), next as nat, ins.operand_span)
                == Ok::<Seq<u8>, AsmErr>(out@),
        decreases ins.operands@.len() - i,
    {
        let ghost p = ins.operands@.subrange(0, i + 1);
        assert(p.drop_last() =~= ins.operands@.subrange(0, i as int));
        assert(p.last() == ins.operands@[i as int]);
        let byte: Option<u8> = match &ins.operands[i] {
            Operand::Reg(_) => None,
            Operand::Imm(v) | Operand::AbsAdr(v) | Operand::N(v) => match value_of(symbols, v) {
                Some(x) => Some(x),
                None => {
                    proof {
                        lemma_operands_err_prefix(t, ins.operands@, next as nat, ins.operand_span, i + 1);
                    }
                    return Err(undefined_error(v, ins.operand_span));
                },
            },
            Operand::RelAdr(v) => match value_of(symbols, v) {
                Some(target) => Some(sub8(target, (next % 256) as u8)),
                None => {
                    proof {
                        lemma_operands_err_prefix(t, ins.operands@, next as nat, ins.operand_span, i + 1);
                    }
                    return Err(undefined_error(v, ins.operand_span));
                },
            },
        };
        if let Some(x) = byte {
            out.push(x);
        }
        proof {
            if let Operand::RelAdr(v) = ins.operands@[i as int] {
                let target = num_or_sym_value(t, v).unwrap();
                assert(wrap8(target - (next % 256)) == wrap8(target - next)) by {
                    assert((target - next as int) % 256 == (target - (next as int % 256)) % 256) by (nonlinear_arith);
                }
            }
        }
        i = i + 1;
    }
    assert(ins.operands@.subrange(0, i as int) =~= ins.operands@);
    Ok(out)
}

proof fn lemma_operands_err_prefix(t: SymTab, ops: Seq<Operand>, next: nat, span: Span, k: int)
    requires
        0 <= k <= ops.len(),
        operands_bytes(t, ops.subrange(0, k), next, span) is Err,
    ensures
        operands_bytes(t, ops, next, span) == operands_bytes(t, ops.subrange(0, k), next, span),
    decreases ops.len() - k,
{
    if k < ops.len() {
        assert(ops.subrange(0, k + 1).drop_last() =~= ops.subrange(0, k));
        lemma_operands_err_prefix(t, ops, next, span, k + 1);
    } else {
        assert(ops.subrange(0, k) =~= ops);
    }
}

proof fn lemma_fcb_err_prefix(t: SymTab, args: Seq<Atom>, span: Span, k: int)
    requires
        0 <= k <= args.len(),
        fcb_bytes(t, args.subrange(0, k), span) is Err,
    ensures
        fcb_bytes(t, args, span) == fcb_bytes(t, args.subrange(0, k), span),
    decreases args.len() - k,
{
    if k < args.len() {
        assert(args.subrange(0, k + 1).drop_last() =~= args.subrange(0, k));
        lemma_fcb_err_prefix(t, args, span, k + 1);
    } else {
        assert(args.subrange(0, k) =~= args);
    }
}

fn directive_bytes(symbols: &Vec<(String, u8)>, dir: &AsmDirective) -> (r: Result<Vec<u8>, AssembleError>)
    ensures
        match fcb_bytes(table_view(symbols@), dir.args@, dir.span) {
            Ok(b) => r matches Ok(v) && v@ == b,
            Err(e) => r matches Err(err) && err@ == e,
        },
{
    let ghost t = table_view(symbols@);
    let mut out: Vec<u8> = Vec::new();
    let mut i: usize = 0;
    assert(dir.args@.subrange(0, 0) =~= Seq::<Atom>::empty());
    while i < dir.args.len()
        invariant
            i <= dir.args@.len(),
            t == table_view(symbols@),
            fcb_bytes(t, dir.args@.subrange(0, i as int), dir.span) == Ok::<Seq<u8>, AsmErr>(out@),
        decreases dir.args@.len() - i,
    {
        let ghost p = dir.args@.subrange(0, i + 1);
        assert(p.drop_last() =~= dir.args@.subrange(0, i as int));
        assert(p.last() == dir.args@[i as int]);
        match &dir.args[i] {
            Atom::NumOrSym(v) => match value_of(symbols, v) {
                Some(x) => out.push(x),
                None => {
                    proof {
                        lemma_fcb_err_prefix(t, dir.args@, dir.span, i + 1);
                    }
                    return Err(undefined_error(v, dir.span));
                },
            },
            _ => {
                proof {
                    lemma_fcb_err_prefix(t, dir.args@, dir.span, i + 1);
                }
                return Err(AssembleError::UnsupportedDirective { span: dir.span });
            },
        }
        i = i + 1;
    }
    assert(dir.args@.subrange(0, i as int) =~= dir.args@);
    Ok(out)
}

impl Memory {
    /// Writes bytes from the cursor on.
    fn write_all(&mut self, bytes: &Vec<u8>)
        requires
            old(self).cursor() + bytes@.len() <= 256,
        ensures
            final(self).cursor() == old(self).cursor() + bytes@.len(),
            final(self).bytes() == write_at(old(self).bytes(), old(self).cursor(), bytes@),
    {
        let ghost start = self.cursor();
        let ghost before = self.bytes();
        proof {
            use_type_invariant(&*self);
        }
        assert(before =~= write_at(before, start, bytes@.subrange(0, 0)));
        let mut i: usize = 0;
        while i < bytes.len()
            invariant
                i <= bytes@.len(),
                start + bytes@.len() <= 256,
                self.cursor() == start + i,
                before.len() == 256,
                self.bytes() == write_at(before, start, bytes@.subrange(0, i as int)),
            decreases bytes@.len() - i,
        {
            let _ = self.write_byte(bytes[i]);
            assert(self.bytes() =~= write_at(before, start, bytes@.subrange(0, i + 1)));
            i = i + 1;
        }
        assert(bytes@.subrange(0, i as int) =~= bytes@);
    }
}

fn emit_program(ast: &ProgramAST, symbols: &Vec<(String, u8)>) -> (r: Result<[u8; 256], AssembleError>)
    ensures
        match emit_spec(ast.lines@, table_view(symbols@)) {
            Ok((_, mem)) => r matches Ok(img) && img@ == mem,
            Err(e) => r matches Err(err) && err@ == e,
        },
{
    let ghost t = table_view(symbols@);
    let mut memory = Memory::new();
    let mut i: usize = 0;
    assert(ast.lines@.subrange(0, 0) =~= Seq::<AsmLine>::empty());
    while i < ast.lines.len()
        invariant
            i <= ast.lines@.len(),
            t == table_view(symbols@),
            emit_spec(ast.lines@.subrange(0, i as int), t) == Ok::<(nat, Seq<u8>), AsmErr>(
                (memory.cursor(), memory.bytes()),
            ),
        decreases ast.lines@.len() - i,
    {
        proof {
            use_type_invariant(&memory);
        }
        let ghost p = ast.lines@.subrange(0, i + 1);
        assert(p.drop_last() =~= ast.lines@.subrange(0, i as int));
        match &ast.lines[i] {
            AsmLine::Symbol(_) => {},
            AsmLine::Directive(dir) => {
                match dir.name {
                    Directive::Org => {
                        match org_address(symbols, dir) {
                            Ok(target) => memory.set_pc(target),
                            Err(e) => {
                                proof {
                                    lemma_emit_err_prefix(ast.lines@, t, i + 1);
                                }
                                return Err(e);
                            },
                        }
                    },
                    Directive::Fcb => {
                        if dir.args.len() > 256 - memory.pc as usize {
                            proof {
                                lemma_emit_err_prefix(ast.lines@, t, i + 1);
                            }
                            return Err(AssembleError::OverflowFromDirective { span: dir.span });
                        }
                        match directive_bytes(symbols, dir) {
                            Ok(bytes) => {
                                proof {
                                    lemma_fcb_len(t, dir.args@, dir.span);
                                }
                                memory.write_all(&bytes);
                            },
                            Err(e) => {
                                proof {
                                    lemma_emit_err_prefix(ast.lines@, t, i + 1);
                                }
                                return Err(e);
                            },
                        }
                    },
                    _ => {
                        proof {
                            lemma_emit_err_prefix(ast.lines@, t, i + 1);
                        }
                        return Err(AssembleError::UnsupportedDirective { span: dir.span });
                    },
                }
            },
            AsmLine::Instruction(ins) => {
                let room = 256 - memory.pc;
                match footprint_within(ins, room) {
                    None => {
                        proof {
                            lemma_emit_err_prefix(ast.lines@, t, i + 1);
                        }
                        return Err(AssembleError::OverflowFromInstruction { span: ins.span });
                    },
                    Some(size) => {
                        let next = memory.pc + size;
                        match instruction_operand_bytes(symbols, ins, next) {
                            Ok(operand_bytes) => {
                                let mut bytes: Vec<u8> = Vec::new();
                                bytes.push(ins.opcode);
                                let mut k: usize = 0;
                                while k < operand_bytes.len()
                                    invariant
                                        k <= operand_bytes@.len(),
                                        bytes@ == seq![ins.opcode] + operand_bytes@.subrange(0, k as int),
                                    decreases operand_bytes@.len() - k,
                                {
                                    bytes.push(operand_bytes[k]);
                                    assert(bytes@ =~= seq![ins.opcode] + operand_bytes@.subrange(0, k + 1));
                                    k = k + 1;
                                }
                                assert(operand_bytes@.subrange(0, k as int) =~= operand_bytes@);
                                proof {
                                    lemma_operands_len(t, ins.operands@, next as nat, ins.operand_span);
                                }
                                memory.write_all(&bytes);
                            },
                            Err(e) => {
                                proof {
                                    lemma_emit_err_prefix(ast.lines@, t, i + 1);
                                }
                                return Err(e);
                            },
                        }
                    },
                }
            },
        }
        i = i + 1;
    }
    assert(ast.lines@.subrange(0, i as int) =~= ast.lines@);
    Ok(*memory.get_data())
}

/// An `FCB` directive writes one byte per argument.
proof fn lemma_fcb_len(t: SymTab, args: Seq<Atom>, span: Span)
    ensures
        fcb_bytes(t, args, span) matches Ok(b) ==> b.len() == args.len(),
    decreases args.len(),
{
    if args.len() > 0 {
        lemma_fcb_len(t, args.drop_last(), span);
    }
}

/// The operand bytes of an instruction are as many as its footprint counts.
proof fn lemma_operands_len(t: SymTab, ops: Seq<Operand>, next: nat, span: Span)
    ensures
        operands_bytes(t, ops, next, span) matches Ok(b) ==> b.len() == operand_bytes(ops),
    decreases ops.len(),
{
    if ops.len() > 0 {
        lemma_operands_len(t, ops.drop_last(), next, span);
    }
}

/// Assembles a parsed program into a 256-byte image.
pub fn assemble_ast(ast: &ProgramAST) -> (r: Result<[u8; 256], AssembleError>)
    ensures
        match assemble_spec(ast.lines@) {
            Ok(mem) => r matches Ok(img) && img@ == mem,
            Err(e) => r matches Err(err) && err@ == e,
        },
{
    let symbols = collect_symbols(ast)?;
    emit_program(ast, &symbols)
}

/// Assembles source text into a 256-byte image: parse, then the two passes.
/// `file_path` names the source for diagnostics.
pub fn assemble(src: &str, file_path: String) -> (r: Result<[u8; 256], AssembleError>)
    ensures
        match lines_spec(src@, 0) {
            Err(e) => r matches Err(AssembleError::Parse(pe)) && error_view(pe) == e,
            Ok(ls) => exists|lines: Seq<AsmLine>|
                lines_view(lines) == ls && match assemble_spec(lines) {
                    Ok(mem) => r matches Ok(img) && img@ == mem,
                    Err(e) => r matches Err(err) && err@ == e,
                },
        },
{
    let mut parser = Parser::from_source(src).with_source_name(file_path);
    match parser.parse() {
        Err(e) => Err(AssembleError::Parse(e)),
        Ok(ast) => {
            let r = assemble_ast(&ast);
            assert(lines_spec(src@, 0) == Ok::<Seq<crate::parser::LineV>, crate::parser::ErrV>(lines_view(ast.lines@)));
            r
        },
    }
}

/// The footprint of the instruction lines of a program, summed.
pub open spec fn total_footprint(lines: Seq<AsmLine>) -> nat
    decreases lines.len(),
{
    if lines.len() == 0 {
        0
    } else {
        total_footprint(lines.drop_last()) + match lines.last() {
            AsmLine::Instruction(ins) => instruction_footprint(ins),
            _ => 0,
        }
    }
}

/// Whether every line of a program is an instruction.
pub open spec fn all_instructions(lines: Seq<AsmLine>) -> bool {
    forall|i: int| 0 <= i < lines.len() ==> #[trigger] lines[i] is Instruction
}

proof fn lemma_collect_step(lines: Seq<AsmLine>, k: int)
    requires
        0 <= k < lines.len(),
    ensures
        collect_spec(lines.subrange(0, k + 1)) == match collect_spec(lines.subrange(0, k)) {
            Ok((c, t)) => collect_line(c, t, lines[k]),
            Err(e) => Err(e),
        },
{
    assert(lines.subrange(0, k + 1).drop_last() =~= lines.subrange(0, k));
}

/// The first pass never leaves the cursor past 256.
pub proof fn lemma_cursor_within_space(lines: Seq<AsmLine>)
    ensures
        collect_spec(lines) matches Ok((cur, _)) ==> cur <= 256,
    decreases lines.len(),
{
    if lines.len() > 0 {
        lemma_cursor_within_space(lines.drop_last());
    }
}

/// A program of instructions alone fits exactly when its footprint is at
/// most 256 bytes: the last instruction may end at address 255.
pub proof fn lemma_instructions_fit(lines: Seq<AsmLine>)
    requires
        all_instructions(lines),
        total_footprint(lines) <= 256,
    ensures
        collect_spec(lines) == Ok::<(nat, SymTab), AsmErr>((total_footprint(lines), Seq::empty())),
    decreases lines.len(),
{
    if lines.len() > 0 {
        let init = lines.drop_last();
        assert forall|i: int| 0 <= i < init.len() implies #[trigger] init[i] is Instruction by {
            assert(init[i] == lines[i]);
        }
        assert(lines[lines.len() - 1] is Instruction);
        lemma_instructions_fit(init);
    }
}

/// A program of instructions overflows at the instruction that would need
/// address 256: the first whose end lies past the address space.
pub proof fn lemma_overflow_at_crossing(lines: Seq<AsmLine>, k: int)
    requires
        all_instructions(lines),
        0 <= k < lines.len(),
        total_footprint(lines.subrange(0, k)) <= 256,
        total_footprint(lines.subrange(0, k + 1)) > 256,
    ensures
        collect_spec(lines) == Err::<(nat, SymTab), AsmErr>(
            AsmErr::OverflowIns(lines[k]->Instruction_0.span),
        ),
{
    let pre = lines.subrange(0, k);
    assert forall|i: int| 0 <= i < pre.len() implies #[trigger] pre[i] is Instruction by {
        assert(pre[i] == lines[i]);
    }
    lemma_instructions_fit(pre);
    lemma_collect_step(lines, k);
    assert(lines.subrange(0, k + 1).drop_last() =~= pre);
    assert(lines[k] is Instruction);
    lemma_collect_err_prefix(lines, k + 1);
}

proof fn lemma_prefix_ok(lines: Seq<AsmLine>, k: int)
    requires
        0 <= k <= lines.len(),
        collect_spec(lines) is Ok,
    ensures
        collect_spec(lines.subrange(0, k)) is Ok,
{
    if collect_spec(lines.subrange(0, k)) is Err {
        lemma_collect_err_prefix(lines, k);
    }
}

proof fn lemma_lookup_kept(lines: Seq<AsmLine>, a: int, b: int, name: Seq<char>, v: u8)
    requires
        0 <= a <= b <= lines.len(),
        collect_spec(lines.subrange(0, b)) is Ok,
        collect_spec(lines.subrange(0, a)) matches Ok((_, t)) && lookup(t, name) == Some(v),
    ensures
        collect_spec(lines.subrange(0, b)) matches Ok((_, t)) && lookup(t, name) == Some(v),
    decreases b - a,
{
    if a < b {
        lemma_collect_step(lines, b - 1);
        let sub = lines.subrange(0, b);
        lemma_prefix_ok(sub, b - 1);
        assert(sub.subrange(0, b - 1) =~= lines.subrange(0, b - 1));
        lemma_lookup_kept(lines, a, b - 1, name, v);
        let (c, t) = collect_spec(lines.subrange(0, b - 1))->Ok_0;
        if let AsmLine::Symbol(sym) = lines[b - 1] {
            lemma_lookup_push(t, name, (sym.name@, wrap8(c as int)));
        }
    }
}

/// A label is bound to the address where it stands, whether operands that
/// name it come before or after it: the table of the first pass, which the
/// second pass reads, holds that address.
pub proof fn lemma_label_address(lines: Seq<AsmLine>, k: int)
    requires
        0 <= k < lines.len(),
        lines[k] is Symbol,
        collect_spec(lines) is Ok,
    ensures
        collect_spec(lines.subrange(0, k)) is Ok,
        lookup(collect_spec(lines)->Ok_0.1, lines[k]->Symbol_0.name@) == Some(
            wrap8(collect_spec(lines.subrange(0, k))->Ok_0.0 as int),
        ),
{
    lemma_prefix_ok(lines, k);
    lemma_prefix_ok(lines, k + 1);
    lemma_collect_step(lines, k);
    let (c, t) = collect_spec(lines.subrange(0, k))->Ok_0;
    let sym = lines[k]->Symbol_0;
    lemma_lookup_push(t, sym.name@, (sym.name@, wrap8(c as int)));
    assert(lines.subrange(0, lines.len() as int) =~= lines);
    lemma_lookup_kept(lines, k + 1, lines.len() as int, sym.name@, wrap8(c as int));
}

/// A label defined twice is rejected, wherever the two definitions stand.
pub proof fn lemma_duplicate_label_rejected(lines: Seq<AsmLine>, i: int, j: int)
    requires
        0 <= i < j < lines.len(),
        lines[i] is Symbol,
        lines[j] is Symbol,
        lines[i]->Symbol_0.name@ == lines[j]->Symbol_0.name@,
    ensures
        collect_spec(lines) is Err,
{
    if collect_spec(lines) is Ok {
        lemma_prefix_ok(lines, i);
        lemma_prefix_ok(lines, i + 1);
        lemma_prefix_ok(lines, j);
        lemma_prefix_ok(lines, j + 1);
        lemma_collect_step(lines, i);
        lemma_collect_step(lines, j);
        let (c, t) = collect_spec(lines.subrange(0, i))->Ok_0;
        let name = lines[i]->Symbol_0.name@;
        lemma_lookup_push(t, name, (name, wrap8(c as int)));
        lemma_lookup_kept(lines, i + 1, j, name, wrap8(c as int));
    }
}

/// A label defined a second time, where the lines before that second
/// definition pass the first pass, makes assembly fail with a duplicate
/// symbol error at the second definition; the second pass is not entered.
pub proof fn lemma_duplicate_label_reported(lines: Seq<AsmLine>, i: int, j: int)
    requires
        0 <= i < j < lines.len(),
        lines[i] is Symbol,
        lines[j] is Symbol,
        lines[i]->Symbol_0.name@ == lines[j]->Symbol_0.name@,
        collect_spec(lines.subrange(0, j)) is Ok,
    ensures
        collect_spec(lines) == Err::<(nat, SymTab), AsmErr>(
            AsmErr::Duplicate(lines[j]->Symbol_0.name@, lines[j]->Symbol_0.span),
        ),
        assemble_spec(lines) == Err::<Seq<u8>, AsmErr>(
            AsmErr::Duplicate(lines[j]->Symbol_0.name@, lines[j]->Symbol_0.span),
        ),
{
    let pre = lines.subrange(0, j);
    lemma_prefix_ok(pre, i);
    lemma_prefix_ok(pre, i + 1);
    assert(pre.subrange(0, i) =~= lines.subrange(0, i));
    assert(pre.subrange(0, i + 1) =~= lines.subrange(0, i + 1));
    lemma_collect_step(lines, i);
    lemma_collect_step(lines, j);
    let (c, t) = collect_spec(lines.subrange(0, i))->Ok_0;
    let name = lines[i]->Symbol_0.name@;
    lemma_lookup_push(t, name, (name, wrap8(c as int)));
    lemma_lookup_kept(lines, i + 1, j, name, wrap8(c as int));
    lemma_collect_err_prefix(lines, j + 1);
}

} // verus!
