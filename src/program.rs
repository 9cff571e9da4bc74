//! The interpreter: a register file, condition flags, a 256-byte memory and
//! the fetch/execute state machine that runs one instruction per step.

use std::collections::VecDeque;

use vstd::prelude::*;
use vstd::string::*;

use crate::isa::{
    cycles_of, decode, instruction_cycles, instruction_size, isa, size_of, AutoIndex, IndexReg,
    Instruction, Mode, RegName,
};
use crate::math_utils::{
    add8, add_c, add_spec, rotate_left, rotate_left_spec, rotate_right, rotate_right_spec, shl,
    shl_spec, shr, shr_signed, shr_signed_spec, shr_spec, sub8, sub_c, sub_spec, wrap8,
};
use crate::register::Register;
use crate::text::{hex2, push_hex2};

verus! {

/// The number of messages the debug log keeps.
pub const DEBUG_LOG_CAPACITY: usize = 20;

/// A condition flag.
#[derive(Debug, Clone, Copy, PartialEq, Eq, Structural)]
pub enum CCFlag {
    /// Interrupt mask.
    I,
    /// Negative.
    N,
    /// Signed overflow.
    V,
    /// Zero.
    Z,
    /// Carry or borrow.
    C,
}

/// The bit of the condition-code register that holds a flag.
pub open spec fn flag_mask(flag: CCFlag) -> u8 {
    match flag {
        CCFlag::I => 0x10,
        CCFlag::N => 0x08,
        CCFlag::V => 0x04,
        CCFlag::Z => 0x02,
        CCFlag::C => 0x01,
    }
}

fn mask_of(flag: CCFlag) -> (r: u8)
    ensures
        r == flag_mask(flag),
{
    match flag {
        CCFlag::I => 0x10,
        CCFlag::N => 0x08,
        CCFlag::V => 0x04,
        CCFlag::Z => 0x02,
        CCFlag::C => 0x01,
    }
}

/// Whether a flag is set in a condition-code byte.
pub open spec fn flag_of(cc: u8, flag: CCFlag) -> bool {
    cc & flag_mask(flag) != 0
}

/// A condition-code byte with one flag set to `value`.
pub open spec fn with_flag(cc: u8, flag: CCFlag, value: bool) -> u8 {
    if value {
        cc | flag_mask(flag)
    } else {
        cc & !flag_mask(flag)
    }
}

/// Setting a flag changes that flag and no other.
pub proof fn lemma_with_flag(cc: u8, f: CCFlag, g: CCFlag, value: bool)
    ensures
        flag_of(with_flag(cc, f, value), g) == if f == g {
            value
        } else {
            flag_of(cc, g)
        },
{
    let m1 = flag_mask(f);
    let m2 = flag_mask(g);
    assert(m2 != 0);
    if f == g {
        assert(m1 == m2);
        assert((cc | m2) & m2 != 0) by (bit_vector)
            requires
                m2 != 0,
        ;
        assert((cc & !m2) & m2 == 0) by (bit_vector);
    } else {
        assert(m1 & m2 == 0) by (bit_vector)
            requires
                m1 == 1 || m1 == 2 || m1 == 4 || m1 == 8 || m1 == 16,
                m2 == 1 || m2 == 2 || m2 == 4 || m2 == 8 || m2 == 16,
                m1 != m2,
        ;
        assert(((cc | m1) & m2 != 0) == (cc & m2 != 0)) by (bit_vector)
            requires
                m1 & m2 == 0,
        ;
        assert(((cc & !m1) & m2 != 0) == (cc & m2 != 0)) by (bit_vector)
            requires
                m1 & m2 == 0,
        ;
    }
}

/// The condition-code register: five flags in one byte.
#[derive(Debug, Clone, Copy, PartialEq, Eq, Structural)]
pub struct CCFlags {
    data: u8,
}

impl View for CCFlags {
    type V = u8;

    closed spec fn view(&self) -> u8 {
        self.data
    }
}

impl CCFlags {
    pub fn new(data: u8) -> (r: Self)
        ensures
            r@ == data,
    {
        Self { data }
    }

    pub fn get(&self, flag: CCFlag) -> (r: bool)
        ensures
            r == flag_of(self@, flag),
    {
        (self.data & mask_of(flag)) != 0
    }

    pub fn set(&mut self, flag: CCFlag, value: bool)
        ensures
            final(self)@ == with_flag(old(self)@, flag, value),
    {
        let m = mask_of(flag);
        if value {
            self.data = self.data | m;
        } else {
            self.data = self.data & !m;
        }
    }

    /// Replaces all flags at once.
    pub fn overwrite(&mut self, data: u8)
        ensures
            final(self)@ == data,
    {
        self.data = data;
    }

    /// The whole register as a byte.
    pub fn bits(&self) -> (r: u8)
        ensures
            r == self@,
    {
        self.data
    }

    pub fn enable(&mut self, flag: CCFlag)
        ensures
            final(self)@ == with_flag(old(self)@, flag, true),
    {
        self.set(flag, true);
    }

    pub fn disable(&mut self, flag: CCFlag)
        ensures
            final(self)@ == with_flag(old(self)@, flag, false),
    {
        self.set(flag, false);
    }
}

/// N and Z from a result, and V as given; C is left as it was.
pub open spec fn nzv(cc: u8, r: u8, v: bool) -> u8 {
    with_flag(with_flag(with_flag(cc, CCFlag::N, r >= 128), CCFlag::Z, r == 0), CCFlag::V, v)
}

/// N and Z from a result, and V and C as given.
pub open spec fn nzvc(cc: u8, r: u8, v: bool, c: bool) -> u8 {
    with_flag(nzv(cc, r, v), CCFlag::C, c)
}

/// The register file.
#[derive(Debug, Clone, Copy)]
pub struct RegisterStore {
    a: Register,
    x: Register,
    y: Register,
    r: Register,
    i: Register,
    sp: Register,
    pc: Register,
    ta: Register,
    cc: CCFlags,
    ld: Register,
}

impl RegisterStore {
    /// All registers cleared.
    fn new() -> (r: Self)
        ensures
            r.a@ == 0 && r.x@ == 0 && r.y@ == 0 && r.sp@ == 0 && r.pc@ == 0 && r.i@ == 0
                && r.cc@ == 0,
            r.r@ == 0 && r.ta@ == 0 && r.ld@ == 0,
    {
        RegisterStore {
            a: Register::new(0),
            x: Register::new(0),
            y: Register::new(0),
            r: Register::new(0),
            i: Register::new(0),
            sp: Register::new(0),
            pc: Register::new(0),
            ta: Register::new(0),
            cc: CCFlags::new(0),
            ld: Register::new(0),
        }
    }
}

/// What stops a step: a byte that is no instruction.
#[derive(Debug, Clone, Copy, PartialEq, Eq, Structural)]
pub enum ExecError {
    InvalidOpcode { opcode: u8, pc: u8 },
}

/// The state of the machine as the contracts see it.
pub struct MachineState {
    /// The memory, 256 bytes.
    pub mem: Seq<u8>,
    /// The image that a reset restores.
    pub source: Seq<u8>,
    pub a: u8,
    pub x: u8,
    pub y: u8,
    pub sp: u8,
    pub pc: u8,
    /// The instruction register: the opcode fetched last.
    pub ir: u8,
    pub cc: u8,
    /// Clock cycles since the last reset.
    pub clk: u64,
    /// False in the reset state, before the program counter has been loaded.
    pub fetching: bool,
}

/// The value of an index register.
pub open spec fn index_value(s: MachineState, r: IndexReg) -> u8 {
    match r {
        IndexReg::SP => s.sp,
        IndexReg::X => s.x,
        IndexReg::Y => s.y,
    }
}

/// The effective address of an operand, with the index register updated
/// for the auto-increment and auto-decrement forms.
pub open spec fn address_spec(s: MachineState, mode: Mode, operand: u8) -> (MachineState, u8) {
    match mode {
        Mode::Absolute => (s, operand),
        Mode::Indexed(r) => (s, wrap8(operand + index_value(s, r))),
        Mode::AccIndexed(r) => (s, wrap8(s.a + index_value(s, r))),
        Mode::Auto(k) => match k {
            AutoIndex::XPlus => (MachineState { x: wrap8(s.x + 1), ..s }, s.x),
            AutoIndex::XMinus => (MachineState { x: wrap8(s.x - 1), ..s }, s.x),
            AutoIndex::PlusX => (MachineState { x: wrap8(s.x + 1), ..s }, wrap8(s.x + 1)),
            AutoIndex::MinusX => (MachineState { x: wrap8(s.x - 1), ..s }, wrap8(s.x - 1)),
            AutoIndex::YPlus => (MachineState { y: wrap8(s.y + 1), ..s }, s.y),
            AutoIndex::YMinus => (MachineState { y: wrap8(s.y - 1), ..s }, s.y),
            AutoIndex::PlusY => (MachineState { y: wrap8(s.y + 1), ..s }, wrap8(s.y + 1)),
            AutoIndex::MinusY => (MachineState { y: wrap8(s.y - 1), ..s }, wrap8(s.y - 1)),
        },
        _ => (s, 0),
    }
}

/// Whether bit 6 of a byte differs from bit 7: the overflow that a rotation reports.
pub open spec fn rotate_overflow(r: u8) -> bool {
    ((r / 64) % 2 == 1) != (r >= 128)
}

/// The result and the flags of a read-modify-write instruction on a value.
pub open spec fn rmw_spec(ins: Instruction, val: u8, cc: u8) -> (u8, u8) {
    match ins {
        Instruction::CLR | Instruction::CLRA => (0, nzvc(cc, 0, false, false)),
        Instruction::NEG | Instruction::NEGA => {
            let (r, _c, v) = sub_spec(0, val, false);
            (r, nzvc(cc, r, v, val != 0))
        },
        Instruction::INC | Instruction::INCA => {
            let (r, _c, v) = add_spec(val, 1, false);
            (r, nzv(cc, r, v))
        },
        Instruction::DEC | Instruction::DECA => {
            let (r, _c, v) = sub_spec(val, 1, false);
            (r, nzv(cc, r, v))
        },
        Instruction::TST | Instruction::TSTA => (val, nzvc(cc, val, false, false)),
        Instruction::COM | Instruction::COMA => ((255 - val) as u8, nzv(cc, (255 - val) as u8, false)),
        Instruction::LSL | Instruction::LSLA => {
            let (r, c, v) = shl_spec(val);
            (r, nzvc(cc, r, v, c))
        },
        Instruction::LSR | Instruction::LSRA => {
            let (r, c, v) = shr_spec(val);
            (r, nzvc(cc, r, v, c))
        },
        Instruction::ROL | Instruction::ROLA => {
            let (r, c) = rotate_left_spec(val);
            (r, nzvc(cc, r, rotate_overflow(r), c))
        },
        Instruction::ROR | Instruction::RORA => {
            let (r, c) = rotate_right_spec(val);
            (r, nzvc(cc, r, rotate_overflow(r), c))
        },
        _ => {
            let (r, c) = shr_signed_spec(val);
            (r, nzvc(cc, r, false, c))
        },
    }
}

/// Whether a conditional branch is taken under the given flags.
pub open spec fn branch_taken(ins: Instruction, cc: u8) -> bool {
    let n = flag_of(cc, CCFlag::N);
    let z = flag_of(cc, CCFlag::Z);
    let v = flag_of(cc, CCFlag::V);
    let c = flag_of(cc, CCFlag::C);
    match ins {
        Instruction::BMI => n,
        Instruction::BPL => !n,
        Instruction::BEQ => z,
        Instruction::BNE => !z,
        Instruction::BVS => v,
        Instruction::BVC => !v,
        Instruction::BCS => c,
        Instruction::BCC => !c,
        Instruction::BHI => !(c || z),
        Instruction::BLS => c || z,
        Instruction::BGT => !(n != v || z),
        Instruction::BGE => n == v,
        Instruction::BLE => n != v || z,
        Instruction::BLT => n != v,
        _ => true,
    }
}

/// The value of a register named in a transfer.
pub open spec fn reg_value(s: MachineState, r: RegName) -> u8 {
    match r {
        RegName::A => s.a,
        RegName::CC => s.cc,
        RegName::X => s.x,
        RegName::Y => s.y,
        RegName::SP => s.sp,
    }
}

/// The state with a register named in a transfer set to `v`.
pub open spec fn with_reg(s: MachineState, r: RegName, v: u8) -> MachineState {
    match r {
        RegName::A => MachineState { a: v, ..s },
        RegName::CC => MachineState { cc: v, ..s },
        RegName::X => MachineState { x: v, ..s },
        RegName::Y => MachineState { y: v, ..s },
        RegName::SP => MachineState { sp: v, ..s },
    }
}

/// The state with a value pushed on the stack: SP is decremented first.
pub open spec fn push_spec(s: MachineState, v: u8) -> MachineState {
    let sp = wrap8(s.sp - 1);
    MachineState { sp: sp, mem: s.mem.update(sp as int, v), ..s }
}

/// NOP, and the instructions that combine CC with an immediate byte.
pub open spec fn misc_spec(t: MachineState, ins: Instruction, operand: u8) -> MachineState {
    match ins {
        Instruction::ANDCC => MachineState { cc: t.cc & operand, ..t },
        Instruction::ORCC => MachineState { cc: t.cc | operand, ..t },
        _ => t,
    }
}

/// The read-modify-write instructions on accumulator A.
pub open spec fn rmw_acc_spec(t: MachineState, ins: Instruction) -> MachineState {
    let (r, cc) = rmw_spec(ins, t.a, t.cc);
    if ins == Instruction::TSTA {
        MachineState { cc: cc, ..t }
    } else {
        MachineState { a: r, cc: cc, ..t }
    }
}

/// The read-modify-write instructions on a byte of memory.
pub open spec fn rmw_mem_spec(t: MachineState, ins: Instruction, ea: u8, val: u8) -> MachineState {
    let (r, cc) = rmw_spec(ins, val, t.cc);
    if ins == Instruction::TST {
        MachineState { cc: cc, ..t }
    } else {
        MachineState { mem: t.mem.update(ea as int, r), cc: cc, ..t }
    }
}

/// Pushes, pulls and returns.
pub open spec fn stack_spec(t: MachineState, ins: Instruction) -> MachineState {
    let top = t.mem[t.sp as int];
    let popped = MachineState { sp: wrap8(t.sp + 1), ..t };
    match ins {
        Instruction::PSHA => push_spec(t, t.a),
        Instruction::PSHX => push_spec(t, t.x),
        Instruction::PSHY => push_spec(t, t.y),
        Instruction::PSHC => push_spec(t, t.cc),
        Instruction::PULA => MachineState { a: top, ..popped },
        Instruction::PULX => MachineState { x: top, ..popped },
        Instruction::PULY => MachineState { y: top, ..popped },
        Instruction::PULC => MachineState { cc: top, ..popped },
        Instruction::RTS => MachineState { pc: top, ..popped },
        _ => MachineState {
            cc: top,
            a: t.mem[wrap8(t.sp + 1) as int],
            x: t.mem[wrap8(t.sp + 2) as int],
            y: t.mem[wrap8(t.sp + 3) as int],
            pc: t.mem[wrap8(t.sp + 4) as int],
            sp: wrap8(t.sp + 5),
            ..t
        },
    }
}

/// Transfers and exchanges between registers.
pub open spec fn transfer_spec(t: MachineState, ins: Instruction, mode: Mode) -> MachineState {
    match mode {
        Mode::Pair(r1, r2) => if ins == Instruction::TFR {
            with_reg(t, r2, reg_value(t, r1))
        } else if r1 == RegName::A && r2 == RegName::CC {
            MachineState { a: t.cc, cc: t.a & 0x0f, ..t }
        } else {
            with_reg(with_reg(t, r1, reg_value(t, r2)), r2, reg_value(t, r1))
        },
        _ => t,
    }
}

/// Branches, jumps and subroutine calls. `t.pc` already holds the address
/// of the next instruction.
pub open spec fn flow_spec(t: MachineState, ins: Instruction, operand: u8, ea: u8) -> MachineState {
    let next = t.pc;
    match ins {
        Instruction::BSR => MachineState { pc: wrap8(next + operand), ..push_spec(t, next) },
        Instruction::JMP => MachineState { pc: ea, ..t },
        Instruction::JSR => MachineState { pc: ea, ..push_spec(t, next) },
        _ => if branch_taken(ins, t.cc) {
            MachineState { pc: wrap8(next + operand), ..t }
        } else {
            t
        },
    }
}

/// Loads, stores and address computations.
pub open spec fn load_store_spec(t: MachineState, ins: Instruction, ea: u8, val: u8) -> MachineState {
    match ins {
        Instruction::STA => MachineState { mem: t.mem.update(ea as int, t.a), ..t },
        Instruction::STX => MachineState { mem: t.mem.update(ea as int, t.x), ..t },
        Instruction::STY => MachineState { mem: t.mem.update(ea as int, t.y), ..t },
        Instruction::STSP => MachineState { mem: t.mem.update(ea as int, t.sp), ..t },
        Instruction::LDA => MachineState { a: val, cc: nzv(t.cc, val, false), ..t },
        Instruction::LDX => MachineState { x: val, cc: nzv(t.cc, val, false), ..t },
        Instruction::LDY => MachineState { y: val, cc: nzv(t.cc, val, false), ..t },
        Instruction::LDSP => MachineState { sp: val, cc: nzv(t.cc, val, false), ..t },
        Instruction::LEAX => MachineState { x: ea, ..t },
        Instruction::LEAY => MachineState { y: ea, ..t },
        _ => MachineState { sp: ea, ..t },
    }
}

/// Arithmetic, comparison and logic on a value.
pub open spec fn alu_spec(t: MachineState, ins: Instruction, val: u8) -> MachineState {
    let carry = flag_of(t.cc, CCFlag::C);
    match ins {
        Instruction::ADDA | Instruction::ADCA => {
            let (r, c, v) = add_spec(t.a, val, ins == Instruction::ADCA && carry);
            MachineState { a: r, cc: nzvc(t.cc, r, v, c), ..t }
        },
        Instruction::SUBA | Instruction::SBCA => {
            let (r, c, v) = sub_spec(t.a, val, ins == Instruction::SBCA && carry);
            MachineState { a: r, cc: nzvc(t.cc, r, v, c), ..t }
        },
        Instruction::CMPA | Instruction::CMPX | Instruction::CMPY | Instruction::CMPSP => {
            let lhs = if ins == Instruction::CMPA {
                t.a
            } else if ins == Instruction::CMPX {
                t.x
            } else if ins == Instruction::CMPY {
                t.y
            } else {
                t.sp
            };
            let (r, c, v) = sub_spec(lhs, val, false);
            MachineState { cc: nzvc(t.cc, r, v, c), ..t }
        },
        Instruction::BITA => MachineState { cc: nzv(t.cc, t.a & val, false), ..t },
        Instruction::ANDA => MachineState { a: t.a & val, cc: nzv(t.cc, t.a & val, false), ..t },
        Instruction::ORA => MachineState { a: t.a | val, cc: nzv(t.cc, t.a | val, false), ..t },
        _ => MachineState { a: t.a ^ val, cc: nzv(t.cc, t.a ^ val, false), ..t },
    }
}

/// The family of instructions that an instruction belongs to.
#[derive(Debug, Clone, Copy, PartialEq, Eq, Structural)]
pub enum Family {
    Misc,
    RmwAcc,
    RmwMem,
    Stack,
    Transfer,
    Flow,
    LoadStore,
    Alu,
}

/// The family of an instruction.
pub open spec fn family(ins: Instruction) -> Family {
    match ins {
        Instruction::NOP | Instruction::ANDCC | Instruction::ORCC => Family::Misc,
        Instruction::CLRA | Instruction::NEGA | Instruction::INCA | Instruction::DECA
        | Instruction::TSTA | Instruction::COMA | Instruction::LSLA | Instruction::LSRA
        | Instruction::ROLA | Instruction::RORA | Instruction::ASRA => Family::RmwAcc,
        Instruction::CLR | Instruction::NEG | Instruction::INC | Instruction::DEC
        | Instruction::TST | Instruction::COM | Instruction::LSL | Instruction::LSR
        | Instruction::ROL | Instruction::ROR | Instruction::ASR => Family::RmwMem,
        Instruction::PSHA | Instruction::PSHX | Instruction::PSHY | Instruction::PSHC
        | Instruction::PULA | Instruction::PULX | Instruction::PULY | Instruction::PULC
        | Instruction::RTS | Instruction::RTI => Family::Stack,
        Instruction::TFR | Instruction::EXG => Family::Transfer,
        Instruction::BSR | Instruction::BRA | Instruction::BMI | Instruction::BPL
        | Instruction::BEQ | Instruction::BNE | Instruction::BVS | Instruction::BVC
        | Instruction::BCS | Instruction::BCC | Instruction::BHI | Instruction::BLS
        | Instruction::BGT | Instruction::BGE | Instruction::BLE | Instruction::BLT
        | Instruction::JMP | Instruction::JSR => Family::Flow,
        Instruction::STA | Instruction::STX | Instruction::STY | Instruction::STSP
        | Instruction::LDA | Instruction::LDX | Instruction::LDY | Instruction::LDSP
        | Instruction::LEAX | Instruction::LEAY | Instruction::LEASP => Family::LoadStore,
        Instruction::ADDA | Instruction::ADCA | Instruction::SUBA | Instruction::SBCA
        | Instruction::CMPA | Instruction::CMPX | Instruction::CMPY | Instruction::CMPSP
        | Instruction::BITA | Instruction::ANDA | Instruction::ORA | Instruction::EORA => Family::Alu,
    }
}

/// Executes a decoded instruction. On entry `s.pc` is the address that
/// follows the opcode; on exit it is the next instruction or the target of
/// a jump, branch or return.
#[verifier::opaque]
pub open spec fn execute_spec(s: MachineState, ins: Instruction, mode: Mode) -> MachineState {
    let operand = s.mem[s.pc as int];
    let next = wrap8(s.pc + size_of(mode) - 1);
    let (t0, ea) = address_spec(s, mode, operand);
    let val = if mode == Mode::Immediate {
        operand
    } else {
        t0.mem[ea as int]
    };
    let t = MachineState { pc: next, ..t0 };
    match family(ins) {
        Family::Misc => misc_spec(t, ins, operand),
        Family::RmwAcc => rmw_acc_spec(t, ins),
        Family::RmwMem => rmw_mem_spec(t, ins, ea, val),
        Family::Stack => stack_spec(t, ins),
        Family::Transfer => transfer_spec(t, ins, mode),
        Family::Flow => flow_spec(t, ins, operand, ea),
        Family::LoadStore => load_store_spec(t, ins, ea, val),
        Family::Alu => alu_spec(t, ins, val),
    }
}

/// Fetching the opcode `op` at PC and executing it: the instruction
/// register takes the opcode, PC moves past it, the instruction runs, and
/// its clock cycles are counted (the count stops at its largest value).
pub open spec fn fetch_execute_spec(s: MachineState, op: u8, ins: Instruction, mode: Mode) -> MachineState {
    let fetched = MachineState { ir: op, pc: wrap8(s.pc + 1), ..s };
    let done = execute_spec(fetched, ins, mode);
    let clk = if s.clk + cycles_of(ins, mode) > u64::MAX {
        u64::MAX
    } else {
        (s.clk + cycles_of(ins, mode)) as u64
    };
    MachineState { clk: clk, ..done }
}

/// One step of the machine. In the reset state the program counter is
/// loaded from address 0xFF. Otherwise the opcode at PC is fetched and,
/// if it is an instruction, executed and its clock cycles counted; a byte
/// that is no instruction leaves the state as it was and is reported.
#[verifier::opaque]
pub open spec fn step_spec(s: MachineState) -> (MachineState, Result<(), ExecError>) {
    if !s.fetching {
        (MachineState { pc: s.mem[255], fetching: true, ..s }, Ok(()))
    } else {
        let op = s.mem[s.pc as int];
        match isa(op) {
            None => (s, Err(ExecError::InvalidOpcode { opcode: op, pc: s.pc })),
            Some((ins, mode)) => (fetch_execute_spec(s, op, ins, mode), Ok(())),
        }
    }
}

/// The state after `n` steps; a step that fails leaves the state as it was.
pub open spec fn run_spec(s: MachineState, n: nat) -> MachineState
    decreases n,
{
    if n == 0 {
        s
    } else {
        run_spec(step_spec(s).0, (n - 1) as nat)
    }
}

/// A machine just loaded with an image: registers and clock cleared, in
/// the reset state.
pub open spec fn fresh_spec(image: Seq<u8>) -> MachineState {
    MachineState {
        mem: image,
        source: image,
        a: 0,
        x: 0,
        y: 0,
        sp: 0,
        pc: 0,
        ir: 0,
        cc: 0,
        clk: 0,
        fetching: false,
    }
}

/// The state that a reset leaves: the memory restored from the loaded
/// image, registers and clock cleared, and PC loaded from address 0xFF.
pub open spec fn reset_spec(s: MachineState) -> MachineState {
    MachineState { pc: s.source[255], fetching: true, ..fresh_spec(s.source) }
}

/// A reset followed by any number of steps goes through the same states as
/// a machine freshly loaded with the same image, once that machine has
/// taken its reset step.
pub proof fn lemma_reset_reproduces_fresh_run(s: MachineState, n: nat)
    requires
        s.source.len() == 256,
    ensures
        reset_spec(s) == step_spec(fresh_spec(s.source)).0,
        run_spec(reset_spec(s), n) == run_spec(fresh_spec(s.source), n + 1),
{
    reveal(step_spec);
    let f = fresh_spec(s.source);
    assert(reset_spec(s) == step_spec(f).0);
    assert(run_spec(f, n + 1) == run_spec(step_spec(f).0, n));
}

/// The machine: its memory, the image it was loaded with, registers, clock
/// and a short log of notable events.
pub struct Program {
    source_memory: [u8; 256],
    memory: [u8; 256],
    debug_logs: VecDeque<String>,
    reg: RegisterStore,
    fetching: bool,
    clk_count: u64,
}

impl View for Program {
    type V = MachineState;

    closed spec fn view(&self) -> MachineState {
        MachineState {
            mem: self.memory@,
            source: self.source_memory@,
            a: self.reg.a@,
            x: self.reg.x@,
            y: self.reg.y@,
            sp: self.reg.sp@,
            pc: self.reg.pc@,
            ir: self.reg.i@,
            cc: self.reg.cc@,
            clk: self.clk_count,
            fetching: self.fetching,
        }
    }
}

/// The log after one more message: the oldest message is dropped when the
/// log is full.
pub open spec fn log_after(logs: Seq<String>, msg: Seq<char>, new_logs: Seq<String>) -> bool {
    let kept = if logs.len() >= DEBUG_LOG_CAPACITY {
        logs.drop_first()
    } else {
        logs
    };
    new_logs.len() == kept.len() + 1 && new_logs.drop_last() == kept && new_logs.last()@ == msg
}

/// The note that a reset step logs, with the address it loads into PC.
pub open spec fn reset_note(pc: u8) -> Seq<char> {
    "RESET ("@ + hex2(pc, false) + ")"@
}

/// The note that a step logs when it meets a byte that is no instruction.
pub open spec fn invalid_note(op: u8) -> Seq<char> {
    "Invalid instruction: "@ + hex2(op, false)
}

impl Default for Program {
    fn default() -> (r: Self)
        ensures
            r@ == fresh_spec(Seq::new(256, |i: int| 0u8)),
            r.debug_logs()@.len() == 0,
            r.wf(),
    {
        Program::new()
    }
}

impl Program {
    /// A machine with zeroed memory, in the reset state.
    pub fn new() -> (r: Self)
        ensures
            r@ == fresh_spec(Seq::new(256, |i: int| 0u8)),
            r.debug_logs()@.len() == 0,
            r.wf(),
    {
        let p = Program {
            source_memory: [0u8; 256],
            memory: [0u8; 256],
            debug_logs: VecDeque::new(),
            reg: RegisterStore::new(),
            fetching: false,
            clk_count: 0,
        };
        assert(p.memory@ =~= Seq::new(256, |i: int| 0u8));
        assert(p.source_memory@ =~= Seq::new(256, |i: int| 0u8));
        p
    }

    /// The debug log, oldest message first.
    pub closed spec fn debug_logs(&self) -> VecDeque<String> {
        self.debug_logs
    }

    /// The machine's own consistency, which every public operation keeps:
    /// the debug log holds at most `DEBUG_LOG_CAPACITY` messages, and the
    /// registers that no instruction uses read as zero.
    pub closed spec fn wf(&self) -> bool {
        &&& self.debug_logs@.len() <= DEBUG_LOG_CAPACITY
        &&& self.reg.r@ == 0
        &&& self.reg.ta@ == 0
        &&& self.reg.ld@ == 0
    }

    /// Loads an image as both the memory and the image that a reset
    /// restores. Registers, clock and the reset state are left as they were;
    /// a reset reinitialises them.
    pub fn load_memory(&mut self, data: &[u8; 256])
        requires
            old(self).wf(),
        ensures
            final(self)@ == (MachineState { mem: data@, source: data@, ..old(self)@ }),
            final(self).debug_logs() == old(self).debug_logs(),
            final(self).wf(),
    {
        self.memory = *data;
        self.source_memory = *data;
    }

    pub fn memory(&self) -> (r: &[u8; 256])
        ensures
            r@ == self@.mem,
    {
        &self.memory
    }

    pub fn memory_at(&self, adr: u8) -> (r: u8)
        ensures
            r == self@.mem[adr as int],
    {
        self.memory[adr as usize]
    }

    pub fn reg_a(&self) -> (r: Register)
        ensures
            r@ == self@.a,
    {
        self.reg.a
    }

    pub fn reg_x(&self) -> (r: Register)
        ensures
            r@ == self@.x,
    {
        self.reg.x
    }

    pub fn reg_y(&self) -> (r: Register)
        ensures
            r@ == self@.y,
    {
        self.reg.y
    }

    /// A register of the hardware that no instruction uses; it reads as zero.
    pub fn reg_r(&self) -> (r: Register)
        requires
            self.wf(),
        ensures
            r@ == 0,
    {
        self.reg.r
    }

    pub fn reg_sp(&self) -> (r: Register)
        ensures
            r@ == self@.sp,
    {
        self.reg.sp
    }

    pub fn reg_pc(&self) -> (r: Register)
        ensures
            r@ == self@.pc,
    {
        self.reg.pc
    }

    /// The instruction register: the opcode fetched last.
    pub fn reg_i(&self) -> (r: Register)
        ensures
            r@ == self@.ir,
    {
        self.reg.i
    }

    /// A register of the hardware that no instruction uses; it reads as zero.
    pub fn reg_ta(&self) -> (r: Register)
        requires
            self.wf(),
        ensures
            r@ == 0,
    {
        self.reg.ta
    }

    pub fn reg_cc(&self) -> (r: CCFlags)
        ensures
            r@ == self@.cc,
    {
        self.reg.cc
    }

    /// A register of the hardware that no instruction uses; it reads as zero.
    pub fn reg_ld(&self) -> (r: Register)
        requires
            self.wf(),
        ensures
            r@ == 0,
    {
        self.reg.ld
    }

    pub fn clk_count(&self) -> (r: u64)
        ensures
            r == self@.clk,
    {
        self.clk_count
    }

    /// Adds a message to the debug log, dropping the oldest one when the
    /// log is full.
    pub fn debug_log(&mut self, msg: String)
        requires
            old(self).wf(),
        ensures
            final(self).wf(),
            final(self)@ == old(self)@,
            final(self).debug_logs()@ == (if old(self).debug_logs()@.len() >= DEBUG_LOG_CAPACITY {
                old(self).debug_logs()@.drop_first()
            } else {
                old(self).debug_logs()@
            }).push(msg),
    {
        if self.debug_logs.len() >= DEBUG_LOG_CAPACITY {
            self.debug_logs.pop_front();
        }
        self.debug_logs.push_back(msg);
    }

    pub fn get_debug_logs(&self) -> (r: &VecDeque<String>)
        requires
            self.wf(),
        ensures
            r@ == self.debug_logs()@,
            r@.len() <= DEBUG_LOG_CAPACITY,
    {
        &self.debug_logs
    }

    /// Runs up to `max_steps` steps, stopping at the first that fails.
    /// Returns how many steps succeeded and the error that stopped the run, if any.
    pub fn execute(&mut self, max_steps: u64) -> (r: (u64, Result<(), ExecError>))
        requires
            old(self).wf(),
        ensures
            final(self).wf(),
            r.0 <= max_steps,
            final(self)@ == run_spec(old(self)@, r.0 as nat),
            r.1 is Ok ==> r.0 == max_steps,
            r.1 is Err ==> step_spec(final(self)@).1 == r.1,
    {
        let mut done: u64 = 0;
        while done < max_steps
            invariant
                self.wf(),
                done <= max_steps,
                self@ == run_spec(old(self)@, done as nat),
            decreases max_steps - done,
        {
            let ghost before = self@;
            let res = self.step();
            match res {
                Ok(()) => {
                    proof {
                        lemma_run_one_more(old(self)@, done as nat);
                    }
                    done = done + 1;
                },
                Err(e) => {
                    proof {
                        lemma_failed_step_unchanged(before);
                    }
                    return (done, Err(e));
                },
            }
        }
        (done, Ok(()))
    }

    /// Restores the memory from the loaded image, clears the registers and
    /// the clock, and loads PC from address 0xFF.
    pub fn reset(&mut self)
        requires
            old(self).wf(),
        ensures
            final(self)@ == reset_spec(old(self)@),
            final(self).wf(),
            log_after(old(self).debug_logs()@, reset_note(old(self)@.source[255]), final(self).debug_logs()@),
    {
        self.memory = self.source_memory;
        self.reg = RegisterStore::new();
        self.clk_count = 0;
        self.fetching = false;
        proof {
            reveal(step_spec);
        }
        let _ = self.step();
    }

    /// The reset step: PC is loaded from address 0xFF.
    fn load_pc_from_vector(&mut self)
        requires
            old(self).wf(),
        ensures
            final(self)@ == (MachineState { pc: old(self)@.mem[255], fetching: true, ..old(self)@ }),
            final(self).wf(),
            log_after(old(self).debug_logs()@, reset_note(old(self)@.mem[255]), final(self).debug_logs()@),
    {
        let data = self.memory[255];
        let mut msg = String::from_str("RESET (");
        push_hex2(&mut msg, data, false);
        msg.append(")");
        let ghost before = self.debug_logs@;
        let ghost text = msg@;
        self.debug_log(msg);
        proof {
            lemma_log_push(before, self.debug_logs@, text);
        }
        self.reg.pc.set(data);
        self.fetching = true;
    }

    /// Logs a byte that is no instruction.
    fn note_invalid(&mut self, op: u8)
        requires
            old(self).wf(),
        ensures
            final(self)@ == old(self)@,
            final(self).wf(),
            log_after(old(self).debug_logs()@, invalid_note(op), final(self).debug_logs()@),
    {
        let mut msg = String::from_str("Invalid instruction: ");
        push_hex2(&mut msg, op, false);
        let ghost before = self.debug_logs@;
        let ghost text = msg@;
        self.debug_log(msg);
        proof {
            lemma_log_push(before, self.debug_logs@, text);
        }
    }

    /// Executes the instruction just fetched and counts its clock cycles.
    fn run_instruction(&mut self, op: u8, ins: Instruction, mode: Mode)
        requires
            old(self).wf(),
        ensures
            final(self)@ == fetch_execute_spec(old(self)@, op, ins, mode),
            final(self).wf(),
            final(self).debug_logs() == old(self).debug_logs(),
    {
        let pc = self.reg.pc.get();
        let clk0 = self.clk_count;
        self.reg.i.set(op);
        self.reg.pc.set(add8(pc, 1));
        let ghost fetched = MachineState { ir: op, pc: wrap8(old(self)@.pc + 1), ..old(self)@ };
        assert(self@ == fetched);
        self.next_instruction(ins, mode);
        let ghost done = execute_spec(fetched, ins, mode);
        assert(self@ == done);
        let cycles = instruction_cycles(ins, mode);
        let clk = clk0.saturating_add(cycles as u64);
        assert(clk == if old(self)@.clk + cycles_of(ins, mode) > u64::MAX {
            u64::MAX
        } else {
            (old(self)@.clk + cycles_of(ins, mode)) as u64
        });
        self.clk_count = clk;
        assert(self@ == MachineState { clk: clk, ..done });
    }

    /// Takes one step of the fetch/execute cycle.
    #[verifier::rlimit(30)]
    pub fn step(&mut self) -> (r: Result<(), ExecError>)
        requires
            old(self).wf(),
        ensures
            (final(self)@, r) == step_spec(old(self)@),
            final(self).wf(),
            !old(self)@.fetching ==> log_after(
                old(self).debug_logs()@,
                reset_note(old(self)@.mem[255]),
                final(self).debug_logs()@,
            ),
            old(self)@.fetching && r is Err ==> log_after(
                old(self).debug_logs()@,
                invalid_note(old(self)@.mem[old(self)@.pc as int]),
                final(self).debug_logs()@,
            ),
            old(self)@.fetching && r is Ok ==> final(self).debug_logs() == old(self).debug_logs(),
    {
        proof {
            reveal(step_spec);
        }
        if !self.fetching {
            self.load_pc_from_vector();
            return Ok(());
        }
        let pc = self.reg.pc.get();
        let op = self.memory[pc as usize];
        match decode(op) {
            None => {
                self.note_invalid(op);
                Err(ExecError::InvalidOpcode { opcode: op, pc })
            },
            Some((ins, mode)) => {
                self.run_instruction(op, ins, mode);
                Ok(())
            },
        }
    }
}

proof fn lemma_log_push(before: Seq<String>, after: Seq<String>, text: Seq<char>)
    requires
        after.len() > 0,
        after.last()@ == text,
        after == (if before.len() >= DEBUG_LOG_CAPACITY {
            before.drop_first()
        } else {
            before
        }).push(after.last()),
    ensures
        log_after(before, text, after),
{
    let kept = if before.len() >= DEBUG_LOG_CAPACITY {
        before.drop_first()
    } else {
        before
    };
    assert(after.drop_last() =~= kept);
}

/// A step that fails leaves the state as it was.
pub proof fn lemma_failed_step_unchanged(s: MachineState)
    ensures
        step_spec(s).1 is Err ==> step_spec(s).0 == s,
{
    reveal(step_spec);
}

proof fn lemma_run_one_more(s: MachineState, n: nat)
    ensures
        run_spec(s, n + 1) == step_spec(run_spec(s, n)).0,
    decreases n,
{
    if n > 0 {
        let m = (n - 1) as nat;
        lemma_run_one_more(step_spec(s).0, m);
        assert(m + 1 == n);
        assert(run_spec(s, n) == run_spec(step_spec(s).0, m));
        assert(run_spec(s, n + 1) == run_spec(step_spec(s).0, n));
    } else {
        assert(run_spec(s, 1) == run_spec(step_spec(s).0, 0));
    }
}

fn with_flag_exec(cc: u8, flag: CCFlag, value: bool) -> (r: u8)
    ensures
        r == with_flag(cc, flag, value),
{
    let m = mask_of(flag);
    if value {
        cc | m
    } else {
        cc & !m
    }
}

fn nzv_exec(cc: u8, r: u8, v: bool) -> (out: u8)
    ensures
        out == nzv(cc, r, v),
{
    let c1 = with_flag_exec(cc, CCFlag::N, r >= 128);
    let c2 = with_flag_exec(c1, CCFlag::Z, r == 0);
    with_flag_exec(c2, CCFlag::V, v)
}

fn nzvc_exec(cc: u8, r: u8, v: bool, c: bool) -> (out: u8)
    ensures
        out == nzvc(cc, r, v, c),
{
    with_flag_exec(nzv_exec(cc, r, v), CCFlag::C, c)
}

fn rmw(ins: Instruction, val: u8, cc: u8) -> (r: (u8, u8))
    ensures
        r == rmw_spec(ins, val, cc),
{
    match ins {
        Instruction::CLR | Instruction::CLRA => (0, nzvc_exec(cc, 0, false, false)),
        Instruction::NEG | Instruction::NEGA => {
            let (r, _c, v) = sub_c(0, val, false);
            (r, nzvc_exec(cc, r, v, val != 0))
        },
        Instruction::INC | Instruction::INCA => {
            let (r, _c, v) = add_c(val, 1, false);
            (r, nzv_exec(cc, r, v))
        },
        Instruction::DEC | Instruction::DECA => {
            let (r, _c, v) = sub_c(val, 1, false);
            (r, nzv_exec(cc, r, v))
        },
        Instruction::TST | Instruction::TSTA => (val, nzvc_exec(cc, val, false, false)),
        Instruction::COM | Instruction::COMA => (255 - val, nzv_exec(cc, 255 - val, false)),
        Instruction::LSL | Instruction::LSLA => {
            let (r, c, v) = shl(val);
            (r, nzvc_exec(cc, r, v, c))
        },
        Instruction::LSR | Instruction::LSRA => {
            let (r, c, v) = shr(val);
            (r, nzvc_exec(cc, r, v, c))
        },
        Instruction::ROL | Instruction::ROLA => {
            let (r, c) = rotate_left(val);
            let v = ((r / 64) % 2 == 1) != (r >= 128);
            (r, nzvc_exec(cc, r, v, c))
        },
        Instruction::ROR | Instruction::RORA => {
            let (r, c) = rotate_right(val);
            let v = ((r / 64) % 2 == 1) != (r >= 128);
            (r, nzvc_exec(cc, r, v, c))
        },
        _ => {
            let (r, c) = shr_signed(val);
            (r, nzvc_exec(cc, r, false, c))
        },
    }
}

fn branch_condition(ins: Instruction, cc: u8) -> (r: bool)
    ensures
        r == branch_taken(ins, cc),
{
    let n = cc & mask_of(CCFlag::N) != 0;
    let z = cc & mask_of(CCFlag::Z) != 0;
    let v = cc & mask_of(CCFlag::V) != 0;
    let c = cc & mask_of(CCFlag::C) != 0;
    match ins {
        Instruction::BMI => n,
        Instruction::BPL => !n,
        Instruction::BEQ => z,
        Instruction::BNE => !z,
        Instruction::BVS => v,
        Instruction::BVC => !v,
        Instruction::BCS => c,
        Instruction::BCC => !c,
        Instruction::BHI => !(c || z),
        Instruction::BLS => c || z,
        Instruction::BGT => !(n != v || z),
        Instruction::BGE => n == v,
        Instruction::BLE => n != v || z,
        Instruction::BLT => n != v,
        _ => true,
    }
}

impl Program {
    fn index_get(&self, r: IndexReg) -> (v: u8)
        ensures
            v == index_value(self@, r),
    {
        match r {
            IndexReg::SP => self.reg.sp.get(),
            IndexReg::X => self.reg.x.get(),
            IndexReg::Y => self.reg.y.get(),
        }
    }

    fn reg_get(&self, r: RegName) -> (v: u8)
        ensures
            v == reg_value(self@, r),
    {
        match r {
            RegName::A => self.reg.a.get(),
            RegName::CC => self.reg.cc.bits(),
            RegName::X => self.reg.x.get(),
            RegName::Y => self.reg.y.get(),
            RegName::SP => self.reg.sp.get(),
        }
    }

    fn reg_put(&mut self, r: RegName, v: u8)
        ensures
            final(self)@ == with_reg(old(self)@, r, v),
            final(self).debug_logs() == old(self).debug_logs(),
            final(self).reg.r == old(self).reg.r && final(self).reg.ta == old(self).reg.ta
                && final(self).reg.ld == old(self).reg.ld,
    {
        match r {
            RegName::A => self.reg.a.set(v),
            RegName::CC => self.reg.cc.overwrite(v),
            RegName::X => self.reg.x.set(v),
            RegName::Y => self.reg.y.set(v),
            RegName::SP => self.reg.sp.set(v),
        }
    }

    fn push(&mut self, v: u8)
        ensures
            final(self)@ == push_spec(old(self)@, v),
            final(self).debug_logs() == old(self).debug_logs(),
            final(self).reg.r == old(self).reg.r && final(self).reg.ta == old(self).reg.ta
                && final(self).reg.ld == old(self).reg.ld,
    {
        let sp = sub8(self.reg.sp.get(), 1);
        self.reg.sp.set(sp);
        self.memory[sp as usize] = v;
    }

    fn pull(&mut self) -> (v: u8)
        ensures
            v == old(self)@.mem[old(self)@.sp as int],
            final(self)@ == (MachineState { sp: wrap8(old(self)@.sp + 1), ..old(self)@ }),
            final(self).debug_logs() == old(self).debug_logs(),
            final(self).reg.r == old(self).reg.r && final(self).reg.ta == old(self).reg.ta
                && final(self).reg.ld == old(self).reg.ld,
    {
        let sp = self.reg.sp.get();
        let v = self.memory[sp as usize];
        self.reg.sp.set(add8(sp, 1));
        v
    }

    fn effective_address(&mut self, mode: Mode, operand: u8) -> (ea: u8)
        ensures
            (final(self)@, ea) == address_spec(old(self)@, mode, operand),
            final(self).debug_logs() == old(self).debug_logs(),
            final(self).reg.r == old(self).reg.r && final(self).reg.ta == old(self).reg.ta
                && final(self).reg.ld == old(self).reg.ld,
    {
        match mode {
            Mode::Absolute => operand,
            Mode::Indexed(r) => add8(operand, self.index_get(r)),
            Mode::AccIndexed(r) => add8(self.reg.a.get(), self.index_get(r)),
            Mode::Auto(k) => {
                let x = self.reg.x.get();
                let y = self.reg.y.get();
                match k {
                    AutoIndex::XPlus => {
                        self.reg.x.set(add8(x, 1));
                        x
                    },
                    AutoIndex::XMinus => {
                        self.reg.x.set(sub8(x, 1));
                        x
                    },
                    AutoIndex::PlusX => {
                        self.reg.x.set(add8(x, 1));
                        add8(x, 1)
                    },
                    AutoIndex::MinusX => {
                        self.reg.x.set(sub8(x, 1));
                        sub8(x, 1)
                    },
                    AutoIndex::YPlus => {
                        self.reg.y.set(add8(y, 1));
                        y
                    },
                    AutoIndex::YMinus => {
                        self.reg.y.set(sub8(y, 1));
                        y
                    },
                    AutoIndex::PlusY => {
                        self.reg.y.set(add8(y, 1));
                        add8(y, 1)
                    },
                    AutoIndex::MinusY => {
                        self.reg.y.set(sub8(y, 1));
                        sub8(y, 1)
                    },
                }
            },
            _ => 0,
        }
    }

    fn family_of(ins: Instruction) -> (r: Family)
        ensures
            r == family(ins),
    {
        match ins {
            Instruction::NOP | Instruction::ANDCC | Instruction::ORCC => Family::Misc,
            Instruction::CLRA | Instruction::NEGA | Instruction::INCA | Instruction::DECA
            | Instruction::TSTA | Instruction::COMA | Instruction::LSLA | Instruction::LSRA
            | Instruction::ROLA | Instruction::RORA | Instruction::ASRA => Family::RmwAcc,
            Instruction::CLR | Instruction::NEG | Instruction::INC | Instruction::DEC
            | Instruction::TST | Instruction::COM | Instruction::LSL | Instruction::LSR
            | Instruction::ROL | Instruction::ROR | Instruction::ASR => Family::RmwMem,
            Instruction::PSHA | Instruction::PSHX | Instruction::PSHY | Instruction::PSHC
            | Instruction::PULA | Instruction::PULX | Instruction::PULY | Instruction::PULC
            | Instruction::RTS | Instruction::RTI => Family::Stack,
            Instruction::TFR | Instruction::EXG => Family::Transfer,
            Instruction::BSR | Instruction::BRA | Instruction::BMI | Instruction::BPL
            | Instruction::BEQ | Instruction::BNE | Instruction::BVS | Instruction::BVC
            | Instruction::BCS | Instruction::BCC | Instruction::BHI | Instruction::BLS
            | Instruction::BGT | Instruction::BGE | Instruction::BLE | Instruction::BLT
            | Instruction::JMP | Instruction::JSR => Family::Flow,
            Instruction::STA | Instruction::STX | Instruction::STY | Instruction::STSP
            | Instruction::LDA | Instruction::LDX | Instruction::LDY | Instruction::LDSP
            | Instruction::LEAX | Instruction::LEAY | Instruction::LEASP => Family::LoadStore,
            Instruction::ADDA | Instruction::ADCA | Instruction::SUBA | Instruction::SBCA
            | Instruction::CMPA | Instruction::CMPX | Instruction::CMPY | Instruction::CMPSP
            | Instruction::BITA | Instruction::ANDA | Instruction::ORA | Instruction::EORA => {
                Family::Alu
            },
        }
    }

    fn exec_misc(&mut self, ins: Instruction, operand: u8)
        ensures
            final(self)@ == misc_spec(old(self)@, ins, operand),
            final(self).debug_logs() == old(self).debug_logs(),
            final(self).reg.r == old(self).reg.r && final(self).reg.ta == old(self).reg.ta
                && final(self).reg.ld == old(self).reg.ld,
    {
        let cc = self.reg.cc.bits();
        match ins {
            Instruction::ANDCC => self.reg.cc.overwrite(cc & operand),
            Instruction::ORCC => self.reg.cc.overwrite(cc | operand),
            _ => {},
        }
    }

    fn exec_rmw_acc(&mut self, ins: Instruction)
        ensures
            final(self)@ == rmw_acc_spec(old(self)@, ins),
            final(self).debug_logs() == old(self).debug_logs(),
            final(self).reg.r == old(self).reg.r && final(self).reg.ta == old(self).reg.ta
                && final(self).reg.ld == old(self).reg.ld,
    {
        let (r, cc) = rmw(ins, self.reg.a.get(), self.reg.cc.bits());
        if ins != Instruction::TSTA {
            self.reg.a.set(r);
        }
        self.reg.cc.overwrite(cc);
    }

    fn exec_rmw_mem(&mut self, ins: Instruction, ea: u8, val: u8)
        ensures
            final(self)@ == rmw_mem_spec(old(self)@, ins, ea, val),
            final(self).debug_logs() == old(self).debug_logs(),
            final(self).reg.r == old(self).reg.r && final(self).reg.ta == old(self).reg.ta
                && final(self).reg.ld == old(self).reg.ld,
    {
        let (r, cc) = rmw(ins, val, self.reg.cc.bits());
        if ins != Instruction::TST {
            self.memory[ea as usize] = r;
        }
        self.reg.cc.overwrite(cc);
    }

    fn exec_stack(&mut self, ins: Instruction)
        ensures
            final(self)@ == stack_spec(old(self)@, ins),
            final(self).debug_logs() == old(self).debug_logs(),
            final(self).reg.r == old(self).reg.r && final(self).reg.ta == old(self).reg.ta
                && final(self).reg.ld == old(self).reg.ld,
    {
        match ins {
            Instruction::PSHA => {
                let v = self.reg.a.get();
                self.push(v);
            },
            Instruction::PSHX => {
                let v = self.reg.x.get();
                self.push(v);
            },
            Instruction::PSHY => {
                let v = self.reg.y.get();
                self.push(v);
            },
            Instruction::PSHC => {
                let v = self.reg.cc.bits();
                self.push(v);
            },
            Instruction::PULA => {
                let v = self.pull();
                self.reg.a.set(v);
            },
            Instruction::PULX => {
                let v = self.pull();
                self.reg.x.set(v);
            },
            Instruction::PULY => {
                let v = self.pull();
                self.reg.y.set(v);
            },
            Instruction::PULC => {
                let v = self.pull();
                self.reg.cc.overwrite(v);
            },
            Instruction::RTS => {
                let v = self.pull();
                self.reg.pc.set(v);
            },
            _ => {
                let c2 = self.pull();
                let a2 = self.pull();
                let x2 = self.pull();
                let y2 = self.pull();
                let pc2 = self.pull();
                self.reg.cc.overwrite(c2);
                self.reg.a.set(a2);
                self.reg.x.set(x2);
                self.reg.y.set(y2);
                self.reg.pc.set(pc2);
            },
        }
    }

    fn exec_transfer(&mut self, ins: Instruction, mode: Mode)
        ensures
            final(self)@ == transfer_spec(old(self)@, ins, mode),
            final(self).debug_logs() == old(self).debug_logs(),
            final(self).reg.r == old(self).reg.r && final(self).reg.ta == old(self).reg.ta
                && final(self).reg.ld == old(self).reg.ld,
    {
        if let Mode::Pair(r1, r2) = mode {
            if ins == Instruction::TFR {
                let v = self.reg_get(r1);
                self.reg_put(r2, v);
            } else if r1 == RegName::A && r2 == RegName::CC {
                let a = self.reg.a.get();
                let cc = self.reg.cc.bits();
                self.reg.a.set(cc);
                self.reg.cc.overwrite(a & 0x0f);
            } else {
                let v1 = self.reg_get(r1);
                let v2 = self.reg_get(r2);
                self.reg_put(r1, v2);
                self.reg_put(r2, v1);
            }
        }
    }

    fn exec_flow(&mut self, ins: Instruction, operand: u8, ea: u8)
        ensures
            final(self)@ == flow_spec(old(self)@, ins, operand, ea),
            final(self).debug_logs() == old(self).debug_logs(),
            final(self).reg.r == old(self).reg.r && final(self).reg.ta == old(self).reg.ta
                && final(self).reg.ld == old(self).reg.ld,
    {
        let next = self.reg.pc.get();
        match ins {
            Instruction::BSR => {
                self.push(next);
                self.reg.pc.set(add8(next, operand));
            },
            Instruction::JMP => self.reg.pc.set(ea),
            Instruction::JSR => {
                self.push(next);
                self.reg.pc.set(ea);
            },
            _ => {
                if branch_condition(ins, self.reg.cc.bits()) {
                    self.reg.pc.set(add8(next, operand));
                }
            },
        }
    }

    fn exec_load_store(&mut self, ins: Instruction, ea: u8, val: u8)
        ensures
            final(self)@ == load_store_spec(old(self)@, ins, ea, val),
            final(self).debug_logs() == old(self).debug_logs(),
            final(self).reg.r == old(self).reg.r && final(self).reg.ta == old(self).reg.ta
                && final(self).reg.ld == old(self).reg.ld,
    {
        let cc = self.reg.cc.bits();
        match ins {
            Instruction::STA => self.memory[ea as usize] = self.reg.a.get(),
            Instruction::STX => self.memory[ea as usize] = self.reg.x.get(),
            Instruction::STY => self.memory[ea as usize] = self.reg.y.get(),
            Instruction::STSP => self.memory[ea as usize] = self.reg.sp.get(),
            Instruction::LDA => {
                self.reg.a.set(val);
                self.reg.cc.overwrite(nzv_exec(cc, val, false));
            },
            Instruction::LDX => {
                self.reg.x.set(val);
                self.reg.cc.overwrite(nzv_exec(cc, val, false));
            },
            Instruction::LDY => {
                self.reg.y.set(val);
                self.reg.cc.overwrite(nzv_exec(cc, val, false));
            },
            Instruction::LDSP => {
                self.reg.sp.set(val);
                self.reg.cc.overwrite(nzv_exec(cc, val, false));
            },
            Instruction::LEAX => self.reg.x.set(ea),
            Instruction::LEAY => self.reg.y.set(ea),
            _ => self.reg.sp.set(ea),
        }
    }

    fn exec_alu(&mut self, ins: Instruction, val: u8)
        ensures
            final(self)@ == alu_spec(old(self)@, ins, val),
            final(self).debug_logs() == old(self).debug_logs(),
            final(self).reg.r == old(self).reg.r && final(self).reg.ta == old(self).reg.ta
                && final(self).reg.ld == old(self).reg.ld,
    {
        let cc = self.reg.cc.bits();
        let a = self.reg.a.get();
        let carry = (cc & mask_of(CCFlag::C)) != 0;
        match ins {
            Instruction::ADDA | Instruction::ADCA => {
                let (r, c, v) = add_c(a, val, ins == Instruction::ADCA && carry);
                self.reg.a.set(r);
                self.reg.cc.overwrite(nzvc_exec(cc, r, v, c));
            },
            Instruction::SUBA | Instruction::SBCA => {
                let (r, c, v) = sub_c(a, val, ins == Instruction::SBCA && carry);
                self.reg.a.set(r);
                self.reg.cc.overwrite(nzvc_exec(cc, r, v, c));
            },
            Instruction::CMPA | Instruction::CMPX | Instruction::CMPY | Instruction::CMPSP => {
                let lhs = if ins == Instruction::CMPA {
                    a
                } else if ins == Instruction::CMPX {
                    self.reg.x.get()
                } else if ins == Instruction::CMPY {
                    self.reg.y.get()
                } else {
                    self.reg.sp.get()
                };
                let (r, c, v) = sub_c(lhs, val, false);
                self.reg.cc.overwrite(nzvc_exec(cc, r, v, c));
            },
            Instruction::BITA => self.reg.cc.overwrite(nzv_exec(cc, a & val, false)),
            Instruction::ANDA => {
                self.reg.a.set(a & val);
                self.reg.cc.overwrite(nzv_exec(cc, a & val, false));
            },
            Instruction::ORA => {
                self.reg.a.set(a | val);
                self.reg.cc.overwrite(nzv_exec(cc, a | val, false));
            },
            _ => {
                self.reg.a.set(a ^ val);
                self.reg.cc.overwrite(nzv_exec(cc, a ^ val, false));
            },
        }
    }

    /// Executes a decoded instruction; PC holds the address after the opcode.
    fn next_instruction(&mut self, ins: Instruction, mode: Mode)
        ensures
            final(self)@ == execute_spec(old(self)@, ins, mode),
            final(self).debug_logs() == old(self).debug_logs(),
            final(self).reg.r == old(self).reg.r && final(self).reg.ta == old(self).reg.ta
                && final(self).reg.ld == old(self).reg.ld,
    {
        proof {
            reveal(execute_spec);
        }
        let pc = self.reg.pc.get();
        let operand = self.memory[pc as usize];
        let size = instruction_size(mode);
        let next = add8(pc, size - 1);
        let ea = self.effective_address(mode, operand);
        let val = if mode == Mode::Immediate {
            operand
        } else {
            self.memory[ea as usize]
        };
        self.reg.pc.set(next);
        match Self::family_of(ins) {
            Family::Misc => self.exec_misc(ins, operand),
            Family::RmwAcc => self.exec_rmw_acc(ins),
            Family::RmwMem => self.exec_rmw_mem(ins, ea, val),
            Family::Stack => self.exec_stack(ins),
            Family::Transfer => self.exec_transfer(ins, mode),
            Family::Flow => self.exec_flow(ins, operand, ea),
            Family::LoadStore => self.exec_load_store(ins, ea, val),
            Family::Alu => self.exec_alu(ins, val),
        }
    }
}

} // verus!
