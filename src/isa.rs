//! The instruction set: for each opcode byte its mnemonic and addressing
//! mode, and from those its size in memory and its cost in clock cycles.
//! The assembler and the interpreter both read this one table.

use vstd::prelude::*;

verus! {

/// An instruction mnemonic.
#[derive(Debug, Clone, Copy, PartialEq, Eq, Structural)]
#[allow(non_camel_case_types, clippy::upper_case_acronyms)]
pub enum Instruction {
    NOP,
    ANDCC,
    ORCC,
    CLRA,
    NEGA,
    INCA,
    DECA,
    TSTA,
    COMA,
    LSLA,
    LSRA,
    ROLA,
    RORA,
    ASRA,
    PSHA,
    PSHX,
    PSHY,
    PSHC,
    PULA,
    PULX,
    PULY,
    PULC,
    TFR,
    BSR,
    BRA,
    BMI,
    BPL,
    BEQ,
    BNE,
    BVS,
    BVC,
    BCS,
    BCC,
    BHI,
    BLS,
    BGT,
    BGE,
    BLE,
    BLT,
    STX,
    STY,
    STSP,
    JMP,
    JSR,
    CLR,
    NEG,
    INC,
    DEC,
    TST,
    COM,
    LSL,
    LSR,
    ROL,
    ROR,
    ASR,
    RTS,
    RTI,
    LDX,
    LDY,
    LDSP,
    SBCA,
    SUBA,
    ADCA,
    ADDA,
    CMPA,
    BITA,
    ANDA,
    ORA,
    EORA,
    CMPX,
    CMPY,
    CMPSP,
    EXG,
    LEASP,
    LEAX,
    LEAY,
    STA,
    LDA,
}

/// A register that serves as the base of an indexed address.
#[derive(Debug, Clone, Copy, PartialEq, Eq, Structural)]
pub enum IndexReg {
    SP,
    X,
    Y,
}

/// A register named in a transfer or exchange.
#[derive(Debug, Clone, Copy, PartialEq, Eq, Structural)]
pub enum RegName {
    A,
    CC,
    X,
    Y,
    SP,
}

/// The auto-increment and auto-decrement forms of indexed addressing:
/// `,X+` uses X and then adds one, `,+X` adds one and then uses X.
#[derive(Debug, Clone, Copy, PartialEq, Eq, Structural)]
pub enum AutoIndex {
    XPlus,
    XMinus,
    PlusX,
    MinusX,
    YPlus,
    YMinus,
    PlusY,
    MinusY,
}

/// An addressing mode.
#[derive(Debug, Clone, Copy, PartialEq, Eq, Structural)]
pub enum Mode {
    /// No operand.
    Inherent,
    /// `#Data`: the operand byte is the value.
    Immediate,
    /// `Adr`: the operand byte is the address.
    Absolute,
    /// `Adr` of a branch: the operand byte is an offset from the next instruction.
    Relative,
    /// `n,R`: the address is the operand byte plus register R.
    Indexed(IndexReg),
    /// `A,R`: the address is accumulator A plus register R.
    AccIndexed(IndexReg),
    /// `,X+` and its relatives.
    Auto(AutoIndex),
    /// `R1,R2` of a transfer or exchange.
    Pair(RegName, RegName),
}

/// The instruction set as a table from opcode byte to mnemonic and mode.
/// Six bytes are no instruction. `STY A,X` is 0x61 here; printed tables of
/// the instruction set may give it another opcode.
pub open spec fn isa(op: u8) -> Option<(Instruction, Mode)> {
    match op {
        0x00 => Some((Instruction::NOP, Mode::Inherent)),
        0x01 => Some((Instruction::ANDCC, Mode::Immediate)),
        0x02 => Some((Instruction::ORCC, Mode::Immediate)),
        0x05 => Some((Instruction::CLRA, Mode::Inherent)),
        0x06 => Some((Instruction::NEGA, Mode::Inherent)),
        0x07 => Some((Instruction::INCA, Mode::Inherent)),
        0x08 => Some((Instruction::DECA, Mode::Inherent)),
        0x09 => Some((Instruction::TSTA, Mode::Inherent)),
        0x0a => Some((Instruction::COMA, Mode::Inherent)),
        0x0b => Some((Instruction::LSLA, Mode::Inherent)),
        0x0c => Some((Instruction::LSRA, Mode::Inherent)),
        0x0d => Some((Instruction::ROLA, Mode::Inherent)),
        0x0e => Some((Instruction::RORA, Mode::Inherent)),
        0x0f => Some((Instruction::ASRA, Mode::Inherent)),
        0x10 => Some((Instruction::PSHA, Mode::Inherent)),
        0x11 => Some((Instruction::PSHX, Mode::Inherent)),
        0x12 => Some((Instruction::PSHY, Mode::Inherent)),
        0x13 => Some((Instruction::PSHC, Mode::Inherent)),
        0x14 => Some((Instruction::PULA, Mode::Inherent)),
        0x15 => Some((Instruction::PULX, Mode::Inherent)),
        0x16 => Some((Instruction::PULY, Mode::Inherent)),
        0x17 => Some((Instruction::PULC, Mode::Inherent)),
        0x18 => Some((Instruction::TFR, Mode::Pair(RegName::A, RegName::CC))),
        0x19 => Some((Instruction::TFR, Mode::Pair(RegName::CC, RegName::A))),
        0x1a => Some((Instruction::TFR, Mode::Pair(RegName::X, RegName::Y))),
        0x1b => Some((Instruction::TFR, Mode::Pair(RegName::Y, RegName::X))),
        0x1c => Some((Instruction::TFR, Mode::Pair(RegName::X, RegName::SP))),
        0x1d => Some((Instruction::TFR, Mode::Pair(RegName::SP, RegName::X))),
        0x1e => Some((Instruction::TFR, Mode::Pair(RegName::Y, RegName::SP))),
        0x1f => Some((Instruction::TFR, Mode::Pair(RegName::SP, RegName::Y))),
        0x20 => Some((Instruction::BSR, Mode::Relative)),
        0x21 => Some((Instruction::BRA, Mode::Relative)),
        0x22 => Some((Instruction::BMI, Mode::Relative)),
        0x23 => Some((Instruction::BPL, Mode::Relative)),
        0x24 => Some((Instruction::BEQ, Mode::Relative)),
        0x25 => Some((Instruction::BNE, Mode::Relative)),
        0x26 => Some((Instruction::BVS, Mode::Relative)),
        0x27 => Some((Instruction::BVC, Mode::Relative)),
        0x28 => Some((Instruction::BCS, Mode::Relative)),
        0x29 => Some((Instruction::BCC, Mode::Relative)),
        0x2a => Some((Instruction::BHI, Mode::Relative)),
        0x2b => Some((Instruction::BLS, Mode::Relative)),
        0x2c => Some((Instruction::BGT, Mode::Relative)),
        0x2d => Some((Instruction::BGE, Mode::Relative)),
        0x2e => Some((Instruction::BLE, Mode::Relative)),
        0x2f => Some((Instruction::BLT, Mode::Relative)),
        0x30 => Some((Instruction::STX, Mode::Absolute)),
        0x31 => Some((Instruction::STY, Mode::Absolute)),
        0x32 => Some((Instruction::STSP, Mode::Absolute)),
        0x33 => Some((Instruction::JMP, Mode::Absolute)),
        0x34 => Some((Instruction::JSR, Mode::Absolute)),
        0x35 => Some((Instruction::CLR, Mode::Absolute)),
        0x36 => Some((Instruction::NEG, Mode::Absolute)),
        0x37 => Some((Instruction::INC, Mode::Absolute)),
        0x38 => Some((Instruction::DEC, Mode::Absolute)),
        0x39 => Some((Instruction::TST, Mode::Absolute)),
        0x3a => Some((Instruction::COM, Mode::Absolute)),
        0x3b => Some((Instruction::LSL, Mode::Absolute)),
        0x3c => Some((Instruction::LSR, Mode::Absolute)),
        0x3d => Some((Instruction::ROL, Mode::Absolute)),
        0x3e => Some((Instruction::ROR, Mode::Absolute)),
        0x3f => Some((Instruction::ASR, Mode::Absolute)),
        0x40 => Some((Instruction::STX, Mode::Indexed(IndexReg::SP))),
        0x41 => Some((Instruction::STY, Mode::Indexed(IndexReg::SP))),
        0x42 => Some((Instruction::STSP, Mode::Indexed(IndexReg::SP))),
        0x43 => Some((Instruction::RTS, Mode::Inherent)),
        0x44 => Some((Instruction::RTI, Mode::Inherent)),
        0x45 => Some((Instruction::CLR, Mode::Indexed(IndexReg::SP))),
        0x46 => Some((Instruction::NEG, Mode::Indexed(IndexReg::SP))),
        0x47 => Some((Instruction::INC, Mode::Indexed(IndexReg::SP))),
        0x48 => Some((Instruction::DEC, Mode::Indexed(IndexReg::SP))),
        0x49 => Some((Instruction::TST, Mode::Indexed(IndexReg::SP))),
        0x4a => Some((Instruction::COM, Mode::Indexed(IndexReg::SP))),
        0x4b => Some((Instruction::LSL, Mode::Indexed(IndexReg::SP))),
        0x4c => Some((Instruction::LSR, Mode::Indexed(IndexReg::SP))),
        0x4d => Some((Instruction::ROL, Mode::Indexed(IndexReg::SP))),
        0x4e => Some((Instruction::ROR, Mode::Indexed(IndexReg::SP))),
        0x4f => Some((Instruction::ASR, Mode::Indexed(IndexReg::SP))),
        0x50 => Some((Instruction::STX, Mode::Indexed(IndexReg::X))),
        0x51 => Some((Instruction::STY, Mode::Indexed(IndexReg::X))),
        0x52 => Some((Instruction::STSP, Mode::Indexed(IndexReg::X))),
        0x53 => Some((Instruction::JMP, Mode::Indexed(IndexReg::X))),
        0x54 => Some((Instruction::JSR, Mode::Indexed(IndexReg::X))),
        0x55 => Some((Instruction::CLR, Mode::Indexed(IndexReg::X))),
        0x56 => Some((Instruction::NEG, Mode::Indexed(IndexReg::X))),
        0x57 => Some((Instruction::INC, Mode::Indexed(IndexReg::X))),
        0x58 => Some((Instruction::DEC, Mode::Indexed(IndexReg::X))),
        0x59 => Some((Instruction::TST, Mode::Indexed(IndexReg::X))),
        0x5a => Some((Instruction::COM, Mode::Indexed(IndexReg::X))),
        0x5b => Some((Instruction::LSL, Mode::Indexed(IndexReg::X))),
        0x5c => Some((Instruction::LSR, Mode::Indexed(IndexReg::X))),
        0x5d => Some((Instruction::ROL, Mode::Indexed(IndexReg::X))),
        0x5e => Some((Instruction::ROR, Mode::Indexed(IndexReg::X))),
        0x5f => Some((Instruction::ASR, Mode::Indexed(IndexReg::X))),
        0x60 => Some((Instruction::STX, Mode::AccIndexed(IndexReg::X))),
        0x61 => Some((Instruction::STY, Mode::AccIndexed(IndexReg::X))),
        0x62 => Some((Instruction::STSP, Mode::AccIndexed(IndexReg::X))),
        0x63 => Some((Instruction::JMP, Mode::AccIndexed(IndexReg::X))),
        0x64 => Some((Instruction::JSR, Mode::AccIndexed(IndexReg::X))),
        0x65 => Some((Instruction::CLR, Mode::AccIndexed(IndexReg::X))),
        0x66 => Some((Instruction::NEG, Mode::AccIndexed(IndexReg::X))),
        0x67 => Some((Instruction::INC, Mode::AccIndexed(IndexReg::X))),
        0x68 => Some((Instruction::DEC, Mode::AccIndexed(IndexReg::X))),
        0x69 => Some((Instruction::TST, Mode::AccIndexed(IndexReg::X))),
        0x6a => Some((Instruction::COM, Mode::AccIndexed(IndexReg::X))),
        0x6b => Some((Instruction::LSL, Mode::AccIndexed(IndexReg::X))),
        0x6c => Some((Instruction::LSR, Mode::AccIndexed(IndexReg::X))),
        0x6d => Some((Instruction::ROL, Mode::AccIndexed(IndexReg::X))),
        0x6e => Some((Instruction::ROR, Mode::AccIndexed(IndexReg::X))),
        0x6f => Some((Instruction::ASR, Mode::AccIndexed(IndexReg::X))),
        0x70 => Some((Instruction::STX, Mode::Indexed(IndexReg::Y))),
        0x71 => Some((Instruction::STY, Mode::Indexed(IndexReg::Y))),
        0x72 => Some((Instruction::STSP, Mode::Indexed(IndexReg::Y))),
        0x73 => Some((Instruction::JMP, Mode::Indexed(IndexReg::Y))),
        0x74 => Some((Instruction::JSR, Mode::Indexed(IndexReg::Y))),
        0x75 => Some((Instruction::CLR, Mode::Indexed(IndexReg::Y))),
        0x76 => Some((Instruction::NEG, Mode::Indexed(IndexReg::Y))),
        0x77 => Some((Instruction::INC, Mode::Indexed(IndexReg::Y))),
        0x78 => Some((Instruction::DEC, Mode::Indexed(IndexReg::Y))),
        0x79 => Some((Instruction::TST, Mode::Indexed(IndexReg::Y))),
        0x7a => Some((Instruction::COM, Mode::Indexed(IndexReg::Y))),
        0x7b => Some((Instruction::LSL, Mode::Indexed(IndexReg::Y))),
        0x7c => Some((Instruction::LSR, Mode::Indexed(IndexReg::Y))),
        0x7d => Some((Instruction::ROL, Mode::Indexed(IndexReg::Y))),
        0x7e => Some((Instruction::ROR, Mode::Indexed(IndexReg::Y))),
        0x7f => Some((Instruction::ASR, Mode::Indexed(IndexReg::Y))),
        0x80 => Some((Instruction::STX, Mode::AccIndexed(IndexReg::Y))),
        0x81 => Some((Instruction::STY, Mode::AccIndexed(IndexReg::Y))),
        0x82 => Some((Instruction::STSP, Mode::AccIndexed(IndexReg::Y))),
        0x83 => Some((Instruction::JMP, Mode::AccIndexed(IndexReg::Y))),
        0x84 => Some((Instruction::JSR, Mode::AccIndexed(IndexReg::Y))),
        0x85 => Some((Instruction::CLR, Mode::AccIndexed(IndexReg::Y))),
        0x86 => Some((Instruction::NEG, Mode::AccIndexed(IndexReg::Y))),
        0x87 => Some((Instruction::INC, Mode::AccIndexed(IndexReg::Y))),
        0x88 => Some((Instruction::DEC, Mode::AccIndexed(IndexReg::Y))),
        0x89 => Some((Instruction::TST, Mode::AccIndexed(IndexReg::Y))),
        0x8a => Some((Instruction::COM, Mode::AccIndexed(IndexReg::Y))),
        0x8b => Some((Instruction::LSL, Mode::AccIndexed(IndexReg::Y))),
        0x8c => Some((Instruction::LSR, Mode::AccIndexed(IndexReg::Y))),
        0x8d => Some((Instruction::ROL, Mode::AccIndexed(IndexReg::Y))),
        0x8e => Some((Instruction::ROR, Mode::AccIndexed(IndexReg::Y))),
        0x8f => Some((Instruction::ASR, Mode::AccIndexed(IndexReg::Y))),
        0x90 => Some((Instruction::LDX, Mode::Immediate)),
        0x91 => Some((Instruction::LDY, Mode::Immediate)),
        0x92 => Some((Instruction::LDSP, Mode::Immediate)),
        0x93 => Some((Instruction::SBCA, Mode::Immediate)),
        0x94 => Some((Instruction::SUBA, Mode::Immediate)),
        0x95 => Some((Instruction::ADCA, Mode::Immediate)),
        0x96 => Some((Instruction::ADDA, Mode::Immediate)),
        0x97 => Some((Instruction::CMPA, Mode::Immediate)),
        0x98 => Some((Instruction::BITA, Mode::Immediate)),
        0x99 => Some((Instruction::ANDA, Mode::Immediate)),
        0x9a => Some((Instruction::ORA, Mode::Immediate)),
        0x9b => Some((Instruction::EORA, Mode::Immediate)),
        0x9c => Some((Instruction::CMPX, Mode::Immediate)),
        0x9d => Some((Instruction::CMPY, Mode::Immediate)),
        0x9e => Some((Instruction::CMPSP, Mode::Immediate)),
        0x9f => Some((Instruction::EXG, Mode::Pair(RegName::A, RegName::CC))),
        0xa0 => Some((Instruction::LDX, Mode::Absolute)),
        0xa1 => Some((Instruction::LDY, Mode::Absolute)),
        0xa2 => Some((Instruction::LDSP, Mode::Absolute)),
        0xa3 => Some((Instruction::SBCA, Mode::Absolute)),
        0xa4 => Some((Instruction::SUBA, Mode::Absolute)),
        0xa5 => Some((Instruction::ADCA, Mode::Absolute)),
        0xa6 => Some((Instruction::ADDA, Mode::Absolute)),
        0xa7 => Some((Instruction::CMPA, Mode::Absolute)),
        0xa8 => Some((Instruction::BITA, Mode::Absolute)),
        0xa9 => Some((Instruction::ANDA, Mode::Absolute)),
        0xaa => Some((Instruction::ORA, Mode::Absolute)),
        0xab => Some((Instruction::EORA, Mode::Absolute)),
        0xac => Some((Instruction::CMPX, Mode::Absolute)),
        0xad => Some((Instruction::CMPY, Mode::Absolute)),
        0xae => Some((Instruction::CMPSP, Mode::Absolute)),
        0xaf => Some((Instruction::EXG, Mode::Pair(RegName::X, RegName::Y))),
        0xb0 => Some((Instruction::LDX, Mode::Indexed(IndexReg::SP))),
        0xb1 => Some((Instruction::LDY, Mode::Indexed(IndexReg::SP))),
        0xb2 => Some((Instruction::LDSP, Mode::Indexed(IndexReg::SP))),
        0xb3 => Some((Instruction::SBCA, Mode::Indexed(IndexReg::SP))),
        0xb4 => Some((Instruction::SUBA, Mode::Indexed(IndexReg::SP))),
        0xb5 => Some((Instruction::ADCA, Mode::Indexed(IndexReg::SP))),
        0xb6 => Some((Instruction::ADDA, Mode::Indexed(IndexReg::SP))),
        0xb7 => Some((Instruction::CMPA, Mode::Indexed(IndexReg::SP))),
        0xb8 => Some((Instruction::BITA, Mode::Indexed(IndexReg::SP))),
        0xb9 => Some((Instruction::ANDA, Mode::Indexed(IndexReg::SP))),
        0xba => Some((Instruction::ORA, Mode::Indexed(IndexReg::SP))),
        0xbb => Some((Instruction::EORA, Mode::Indexed(IndexReg::SP))),
        0xbc => Some((Instruction::CMPX, Mode::Indexed(IndexReg::SP))),
        0xbd => Some((Instruction::CMPY, Mode::Indexed(IndexReg::SP))),
        0xbe => Some((Instruction::LEASP, Mode::Indexed(IndexReg::SP))),
        0xbf => Some((Instruction::EXG, Mode::Pair(RegName::X, RegName::SP))),
        0xc0 => Some((Instruction::LDX, Mode::Indexed(IndexReg::X))),
        0xc1 => Some((Instruction::LDY, Mode::Indexed(IndexReg::X))),
        0xc2 => Some((Instruction::LDSP, Mode::Indexed(IndexReg::X))),
        0xc3 => Some((Instruction::SBCA, Mode::Indexed(IndexReg::X))),
        0xc4 => Some((Instruction::SUBA, Mode::Indexed(IndexReg::X))),
        0xc5 => Some((Instruction::ADCA, Mode::Indexed(IndexReg::X))),
        0xc6 => Some((Instruction::ADDA, Mode::Indexed(IndexReg::X))),
        0xc7 => Some((Instruction::CMPA, Mode::Indexed(IndexReg::X))),
        0xc8 => Some((Instruction::BITA, Mode::Indexed(IndexReg::X))),
        0xc9 => Some((Instruction::ANDA, Mode::Indexed(IndexReg::X))),
        0xca => Some((Instruction::ORA, Mode::Indexed(IndexReg::X))),
        0xcb => Some((Instruction::EORA, Mode::Indexed(IndexReg::X))),
        0xcc => Some((Instruction::LEAX, Mode::Indexed(IndexReg::X))),
        0xcd => Some((Instruction::LEAY, Mode::Indexed(IndexReg::Y))),
        0xce => Some((Instruction::LEASP, Mode::Indexed(IndexReg::X))),
        0xcf => Some((Instruction::EXG, Mode::Pair(RegName::Y, RegName::SP))),
        0xd0 => Some((Instruction::LDX, Mode::Indexed(IndexReg::Y))),
        0xd1 => Some((Instruction::LDY, Mode::Indexed(IndexReg::Y))),
        0xd2 => Some((Instruction::LDSP, Mode::Indexed(IndexReg::Y))),
        0xd3 => Some((Instruction::SBCA, Mode::Indexed(IndexReg::Y))),
        0xd4 => Some((Instruction::SUBA, Mode::Indexed(IndexReg::Y))),
        0xd5 => Some((Instruction::ADCA, Mode::Indexed(IndexReg::Y))),
        0xd6 => Some((Instruction::ADDA, Mode::Indexed(IndexReg::Y))),
        0xd7 => Some((Instruction::CMPA, Mode::Indexed(IndexReg::Y))),
        0xd8 => Some((Instruction::BITA, Mode::Indexed(IndexReg::Y))),
        0xd9 => Some((Instruction::ANDA, Mode::Indexed(IndexReg::Y))),
        0xda => Some((Instruction::ORA, Mode::Indexed(IndexReg::Y))),
        0xdb => Some((Instruction::EORA, Mode::Indexed(IndexReg::Y))),
        0xdc => Some((Instruction::LEAX, Mode::Indexed(IndexReg::SP))),
        0xdd => Some((Instruction::LEAY, Mode::Indexed(IndexReg::SP))),
        0xde => Some((Instruction::LEASP, Mode::Indexed(IndexReg::Y))),
        0xe1 => Some((Instruction::STA, Mode::Absolute)),
        0xe2 => Some((Instruction::STA, Mode::Indexed(IndexReg::SP))),
        0xe3 => Some((Instruction::STA, Mode::Indexed(IndexReg::X))),
        0xe4 => Some((Instruction::STA, Mode::AccIndexed(IndexReg::X))),
        0xe5 => Some((Instruction::STA, Mode::Auto(AutoIndex::XPlus))),
        0xe6 => Some((Instruction::STA, Mode::Auto(AutoIndex::XMinus))),
        0xe7 => Some((Instruction::STA, Mode::Auto(AutoIndex::PlusX))),
        0xe8 => Some((Instruction::STA, Mode::Auto(AutoIndex::MinusX))),
        0xe9 => Some((Instruction::STA, Mode::Indexed(IndexReg::Y))),
        0xea => Some((Instruction::STA, Mode::AccIndexed(IndexReg::Y))),
        0xeb => Some((Instruction::STA, Mode::Auto(AutoIndex::YPlus))),
        0xec => Some((Instruction::STA, Mode::Auto(AutoIndex::YMinus))),
        0xed => Some((Instruction::STA, Mode::Auto(AutoIndex::PlusY))),
        0xee => Some((Instruction::STA, Mode::Auto(AutoIndex::MinusY))),
        0xf0 => Some((Instruction::LDA, Mode::Immediate)),
        0xf1 => Some((Instruction::LDA, Mode::Absolute)),
        0xf2 => Some((Instruction::LDA, Mode::Indexed(IndexReg::SP))),
        0xf3 => Some((Instruction::LDA, Mode::Indexed(IndexReg::X))),
        0xf4 => Some((Instruction::LDA, Mode::AccIndexed(IndexReg::X))),
        0xf5 => Some((Instruction::LDA, Mode::Auto(AutoIndex::XPlus))),
        0xf6 => Some((Instruction::LDA, Mode::Auto(AutoIndex::XMinus))),
        0xf7 => Some((Instruction::LDA, Mode::Auto(AutoIndex::PlusX))),
        0xf8 => Some((Instruction::LDA, Mode::Auto(AutoIndex::MinusX))),
        0xf9 => Some((Instruction::LDA, Mode::Indexed(IndexReg::Y))),
        0xfa => Some((Instruction::LDA, Mode::AccIndexed(IndexReg::Y))),
        0xfb => Some((Instruction::LDA, Mode::Auto(AutoIndex::YPlus))),
        0xfc => Some((Instruction::LDA, Mode::Auto(AutoIndex::YMinus))),
        0xfd => Some((Instruction::LDA, Mode::Auto(AutoIndex::PlusY))),
        0xfe => Some((Instruction::LDA, Mode::Auto(AutoIndex::MinusY))),
        _ => None,
    }
}

/// Looks an opcode byte up in the instruction set.
pub fn decode(op: u8) -> (r: Option<(Instruction, Mode)>)
    ensures
        r == isa(op),
{
    match op {
        0x00 => Some((Instruction::NOP, Mode::Inherent)),
        0x01 => Some((Instruction::ANDCC, Mode::Immediate)),
        0x02 => Some((Instruction::ORCC, Mode::Immediate)),
        0x05 => Some((Instruction::CLRA, Mode::Inherent)),
        0x06 => Some((Instruction::NEGA, Mode::Inherent)),
        0x07 => Some((Instruction::INCA, Mode::Inherent)),
        0x08 => Some((Instruction::DECA, Mode::Inherent)),
        0x09 => Some((Instruction::TSTA, Mode::Inherent)),
        0x0a => Some((Instruction::COMA, Mode::Inherent)),
        0x0b => Some((Instruction::LSLA, Mode::Inherent)),
        0x0c => Some((Instruction::LSRA, Mode::Inherent)),
        0x0d => Some((Instruction::ROLA, Mode::Inherent)),
        0x0e => Some((Instruction::RORA, Mode::Inherent)),
        0x0f => Some((Instruction::ASRA, Mode::Inherent)),
        0x10 => Some((Instruction::PSHA, Mode::Inherent)),
        0x11 => Some((Instruction::PSHX, Mode::Inherent)),
        0x12 => Some((Instruction::PSHY, Mode::Inherent)),
        0x13 => Some((Instruction::PSHC, Mode::Inherent)),
        0x14 => Some((Instruction::PULA, Mode::Inherent)),
        0x15 => Some((Instruction::PULX, Mode::Inherent)),
        0x16 => Some((Instruction::PULY, Mode::Inherent)),
        0x17 => Some((Instruction::PULC, Mode::Inherent)),
        0x18 => Some((Instruction::TFR, Mode::Pair(RegName::A, RegName::CC))),
        0x19 => Some((Instruction::TFR, Mode::Pair(RegName::CC, RegName::A))),
        0x1a => Some((Instruction::TFR, Mode::Pair(RegName::X, RegName::Y))),
        0x1b => Some((Instruction::TFR, Mode::Pair(RegName::Y, RegName::X))),
        0x1c => Some((Instruction::TFR, Mode::Pair(RegName::X, RegName::SP))),
        0x1d => Some((Instruction::TFR, Mode::Pair(RegName::SP, RegName::X))),
        0x1e => Some((Instruction::TFR, Mode::Pair(RegName::Y, RegName::SP))),
        0x1f => Some((Instruction::TFR, Mode::Pair(RegName::SP, RegName::Y))),
        0x20 => Some((Instruction::BSR, Mode::Relative)),
        0x21 => Some((Instruction::BRA, Mode::Relative)),
        0x22 => Some((Instruction::BMI, Mode::Relative)),
        0x23 => Some((Instruction::BPL, Mode::Relative)),
        0x24 => Some((Instruction::BEQ, Mode::Relative)),
        0x25 => Some((Instruction::BNE, Mode::Relative)),
        0x26 => Some((Instruction::BVS, Mode::Relative)),
        0x27 => Some((Instruction::BVC, Mode::Relative)),
        0x28 => Some((Instruction::BCS, Mode::Relative)),
        0x29 => Some((Instruction::BCC, Mode::Relative)),
        0x2a => Some((Instruction::BHI, Mode::Relative)),
        0x2b => Some((Instruction::BLS, Mode::Relative)),
        0x2c => Some((Instruction::BGT, Mode::Relative)),
        0x2d => Some((Instruction::BGE, Mode::Relative)),
        0x2e => Some((Instruction::BLE, Mode::Relative)),
        0x2f => Some((Instruction::BLT, Mode::Relative)),
        0x30 => Some((Instruction::STX, Mode::Absolute)),
        0x31 => Some((Instruction::STY, Mode::Absolute)),
        0x32 => Some((Instruction::STSP, Mode::Absolute)),
        0x33 => Some((Instruction::JMP, Mode::Absolute)),
        0x34 => Some((Instruction::JSR, Mode::Absolute)),
        0x35 => Some((Instruction::CLR, Mode::Absolute)),
        0x36 => Some((Instruction::NEG, Mode::Absolute)),
        0x37 => Some((Instruction::INC, Mode::Absolute)),
        0x38 => Some((Instruction::DEC, Mode::Absolute)),
        0x39 => Some((Instruction::TST, Mode::Absolute)),
        0x3a => Some((Instruction::COM, Mode::Absolute)),
        0x3b => Some((Instruction::LSL, Mode::Absolute)),
        0x3c => Some((Instruction::LSR, Mode::Absolute)),
        0x3d => Some((Instruction::ROL, Mode::Absolute)),
        0x3e => Some((Instruction::ROR, Mode::Absolute)),
        0x3f => Some((Instruction::ASR, Mode::Absolute)),
        0x40 => Some((Instruction::STX, Mode::Indexed(IndexReg::SP))),
        0x41 => Some((Instruction::STY, Mode::Indexed(IndexReg::SP))),
        0x42 => Some((Instruction::STSP, Mode::Indexed(IndexReg::SP))),
        0x43 => Some((Instruction::RTS, Mode::Inherent)),
        0x44 => Some((Instruction::RTI, Mode::Inherent)),
        0x45 => Some((Instruction::CLR, Mode::Indexed(IndexReg::SP))),
        0x46 => Some((Instruction::NEG, Mode::Indexed(IndexReg::SP))),
        0x47 => Some((Instruction::INC, Mode::Indexed(IndexReg::SP))),
        0x48 => Some((Instruction::DEC, Mode::Indexed(IndexReg::SP))),
        0x49 => Some((Instruction::TST, Mode::Indexed(IndexReg::SP))),
        0x4a => Some((Instruction::COM, Mode::Indexed(IndexReg::SP))),
        0x4b => Some((Instruction::LSL, Mode::Indexed(IndexReg::SP))),
        0x4c => Some((Instruction::LSR, Mode::Indexed(IndexReg::SP))),
        0x4d => Some((Instruction::ROL, Mode::Indexed(IndexReg::SP))),
        0x4e => Some((Instruction::ROR, Mode::Indexed(IndexReg::SP))),
        0x4f => Some((Instruction::ASR, Mode::Indexed(IndexReg::SP))),
        0x50 => Some((Instruction::STX, Mode::Indexed(IndexReg::X))),
        0x51 => Some((Instruction::STY, Mode::Indexed(IndexReg::X))),
        0x52 => Some((Instruction::STSP, Mode::Indexed(IndexReg::X))),
        0x53 => Some((Instruction::JMP, Mode::Indexed(IndexReg::X))),
        0x54 => Some((Instruction::JSR, Mode::Indexed(IndexReg::X))),
        0x55 => Some((Instruction::CLR, Mode::Indexed(IndexReg::X))),
        0x56 => Some((Instruction::NEG, Mode::Indexed(IndexReg::X))),
        0x57 => Some((Instruction::INC, Mode::Indexed(IndexReg::X))),
        0x58 => Some((Instruction::DEC, Mode::Indexed(IndexReg::X))),
        0x59 => Some((Instruction::TST, Mode::Indexed(IndexReg::X))),
        0x5a => Some((Instruction::COM, Mode::Indexed(IndexReg::X))),
        0x5b => Some((Instruction::LSL, Mode::Indexed(IndexReg::X))),
        0x5c => Some((Instruction::LSR, Mode::Indexed(IndexReg::X))),
        0x5d => Some((Instruction::ROL, Mode::Indexed(IndexReg::X))),
        0x5e => Some((Instruction::ROR, Mode::Indexed(IndexReg::X))),
        0x5f => Some((Instruction::ASR, Mode::Indexed(IndexReg::X))),
        0x60 => Some((Instruction::STX, Mode::AccIndexed(IndexReg::X))),
        0x61 => Some((Instruction::STY, Mode::AccIndexed(IndexReg::X))),
        0x62 => Some((Instruction::STSP, Mode::AccIndexed(IndexReg::X))),
        0x63 => Some((Instruction::JMP, Mode::AccIndexed(IndexReg::X))),
        0x64 => Some((Instruction::JSR, Mode::AccIndexed(IndexReg::X))),
        0x65 => Some((Instruction::CLR, Mode::AccIndexed(IndexReg::X))),
        0x66 => Some((Instruction::NEG, Mode::AccIndexed(IndexReg::X))),
        0x67 => Some((Instruction::INC, Mode::AccIndexed(IndexReg::X))),
        0x68 => Some((Instruction::DEC, Mode::AccIndexed(IndexReg::X))),
        0x69 => Some((Instruction::TST, Mode::AccIndexed(IndexReg::X))),
        0x6a => Some((Instruction::COM, Mode::AccIndexed(IndexReg::X))),
        0x6b => Some((Instruction::LSL, Mode::AccIndexed(IndexReg::X))),
        0x6c => Some((Instruction::LSR, Mode::AccIndexed(IndexReg::X))),
        0x6d => Some((Instruction::ROL, Mode::AccIndexed(IndexReg::X))),
        0x6e => Some((Instruction::ROR, Mode::AccIndexed(IndexReg::X))),
        0x6f => Some((Instruction::ASR, Mode::AccIndexed(IndexReg::X))),
        0x70 => Some((Instruction::STX, Mode::Indexed(IndexReg::Y))),
        0x71 => Some((Instruction::STY, Mode::Indexed(IndexReg::Y))),
        0x72 => Some((Instruction::STSP, Mode::Indexed(IndexReg::Y))),
        0x73 => Some((Instruction::JMP, Mode::Indexed(IndexReg::Y))),
        0x74 => Some((Instruction::JSR, Mode::Indexed(IndexReg::Y))),
        0x75 => Some((Instruction::CLR, Mode::Indexed(IndexReg::Y))),
        0x76 => Some((Instruction::NEG, Mode::Indexed(IndexReg::Y))),
        0x77 => Some((Instruction::INC, Mode::Indexed(IndexReg::Y))),
        0x78 => Some((Instruction::DEC, Mode::Indexed(IndexReg::Y))),
        0x79 => Some((Instruction::TST, Mode::Indexed(IndexReg::Y))),
        0x7a => Some((Instruction::COM, Mode::Indexed(IndexReg::Y))),
        0x7b => Some((Instruction::LSL, Mode::Indexed(IndexReg::Y))),
        0x7c => Some((Instruction::LSR, Mode::Indexed(IndexReg::Y))),
        0x7d => Some((Instruction::ROL, Mode::Indexed(IndexReg::Y))),
        0x7e => Some((Instruction::ROR, Mode::Indexed(IndexReg::Y))),
        0x7f => Some((Instruction::ASR, Mode::Indexed(IndexReg::Y))),
        0x80 => Some((Instruction::STX, Mode::AccIndexed(IndexReg::Y))),
        0x81 => Some((Instruction::STY, Mode::AccIndexed(IndexReg::Y))),
        0x82 => Some((Instruction::STSP, Mode::AccIndexed(IndexReg::Y))),
        0x83 => Some((Instruction::JMP, Mode::AccIndexed(IndexReg::Y))),
        0x84 => Some((Instruction::JSR, Mode::AccIndexed(IndexReg::Y))),
        0x85 => Some((Instruction::CLR, Mode::AccIndexed(IndexReg::Y))),
        0x86 => Some((Instruction::NEG, Mode::AccIndexed(IndexReg::Y))),
        0x87 => Some((Instruction::INC, Mode::AccIndexed(IndexReg::Y))),
        0x88 => Some((Instruction::DEC, Mode::AccIndexed(IndexReg::Y))),
        0x89 => Some((Instruction::TST, Mode::AccIndexed(IndexReg::Y))),
        0x8a => Some((Instruction::COM, Mode::AccIndexed(IndexReg::Y))),
        0x8b => Some((Instruction::LSL, Mode::AccIndexed(IndexReg::Y))),
        0x8c => Some((Instruction::LSR, Mode::AccIndexed(IndexReg::Y))),
        0x8d => Some((Instruction::ROL, Mode::AccIndexed(IndexReg::Y))),
        0x8e => Some((Instruction::ROR, Mode::AccIndexed(IndexReg::Y))),
        0x8f => Some((Instruction::ASR, Mode::AccIndexed(IndexReg::Y))),
        0x90 => Some((Instruction::LDX, Mode::Immediate)),
        0x91 => Some((Instruction::LDY, Mode::Immediate)),
        0x92 => Some((Instruction::LDSP, Mode::Immediate)),
        0x93 => Some((Instruction::SBCA, Mode::Immediate)),
        0x94 => Some((Instruction::SUBA, Mode::Immediate)),
        0x95 => Some((Instruction::ADCA, Mode::Immediate)),
        0x96 => Some((Instruction::ADDA, Mode::Immediate)),
        0x97 => Some((Instruction::CMPA, Mode::Immediate)),
        0x98 => Some((Instruction::BITA, Mode::Immediate)),
        0x99 => Some((Instruction::ANDA, Mode::Immediate)),
        0x9a => Some((Instruction::ORA, Mode::Immediate)),
        0x9b => Some((Instruction::EORA, Mode::Immediate)),
        0x9c => Some((Instruction::CMPX, Mode::Immediate)),
        0x9d => Some((Instruction::CMPY, Mode::Immediate)),
        0x9e => Some((Instruction::CMPSP, Mode::Immediate)),
        0x9f => Some((Instruction::EXG, Mode::Pair(RegName::A, RegName::CC))),
        0xa0 => Some((Instruction::LDX, Mode::Absolute)),
        0xa1 => Some((Instruction::LDY, Mode::Absolute)),
        0xa2 => Some((Instruction::LDSP, Mode::Absolute)),
        0xa3 => Some((Instruction::SBCA, Mode::Absolute)),
        0xa4 => Some((Instruction::SUBA, Mode::Absolute)),
        0xa5 => Some((Instruction::ADCA, Mode::Absolute)),
        0xa6 => Some((Instruction::ADDA, Mode::Absolute)),
        0xa7 => Some((Instruction::CMPA, Mode::Absolute)),
        0xa8 => Some((Instruction::BITA, Mode::Absolute)),
        0xa9 => Some((Instruction::ANDA, Mode::Absolute)),
        0xaa => Some((Instruction::ORA, Mode::Absolute)),
        0xab => Some((Instruction::EORA, Mode::Absolute)),
        0xac => Some((Instruction::CMPX, Mode::Absolute)),
        0xad => Some((Instruction::CMPY, Mode::Absolute)),
        0xae => Some((Instruction::CMPSP, Mode::Absolute)),
        0xaf => Some((Instruction::EXG, Mode::Pair(RegName::X, RegName::Y))),
        0xb0 => Some((Instruction::LDX, Mode::Indexed(IndexReg::SP))),
        0xb1 => Some((Instruction::LDY, Mode::Indexed(IndexReg::SP))),
        0xb2 => Some((Instruction::LDSP, Mode::Indexed(IndexReg::SP))),
        0xb3 => Some((Instruction::SBCA, Mode::Indexed(IndexReg::SP))),
        0xb4 => Some((Instruction::SUBA, Mode::Indexed(IndexReg::SP))),
        0xb5 => Some((Instruction::ADCA, Mode::Indexed(IndexReg::SP))),
        0xb6 => Some((Instruction::ADDA, Mode::Indexed(IndexReg::SP))),
        0xb7 => Some((Instruction::CMPA, Mode::Indexed(IndexReg::SP))),
        0xb8 => Some((Instruction::BITA, Mode::Indexed(IndexReg::SP))),
        0xb9 => Some((Instruction::ANDA, Mode::Indexed(IndexReg::SP))),
        0xba => Some((Instruction::ORA, Mode::Indexed(IndexReg::SP))),
        0xbb => Some((Instruction::EORA, Mode::Indexed(IndexReg::SP))),
        0xbc => Some((Instruction::CMPX, Mode::Indexed(IndexReg::SP))),
        0xbd => Some((Instruction::CMPY, Mode::Indexed(IndexReg::SP))),
        0xbe => Some((Instruction::LEASP, Mode::Indexed(IndexReg::SP))),
        0xbf => Some((Instruction::EXG, Mode::Pair(RegName::X, RegName::SP))),
        0xc0 => Some((Instruction::LDX, Mode::Indexed(IndexReg::X))),
        0xc1 => Some((Instruction::LDY, Mode::Indexed(IndexReg::X))),
        0xc2 => Some((Instruction::LDSP, Mode::Indexed(IndexReg::X))),
        0xc3 => Some((Instruction::SBCA, Mode::Indexed(IndexReg::X))),
        0xc4 => Some((Instruction::SUBA, Mode::Indexed(IndexReg::X))),
        0xc5 => Some((Instruction::ADCA, Mode::Indexed(IndexReg::X))),
        0xc6 => Some((Instruction::ADDA, Mode::Indexed(IndexReg::X))),
        0xc7 => Some((Instruction::CMPA, Mode::Indexed(IndexReg::X))),
        0xc8 => Some((Instruction::BITA, Mode::Indexed(IndexReg::X))),
        0xc9 => Some((Instruction::ANDA, Mode::Indexed(IndexReg::X))),
        0xca => Some((Instruction::ORA, Mode::Indexed(IndexReg::X))),
        0xcb => Some((Instruction::EORA, Mode::Indexed(IndexReg::X))),
        0xcc => Some((Instruction::LEAX, Mode::Indexed(IndexReg::X))),
        0xcd => Some((Instruction::LEAY, Mode::Indexed(IndexReg::Y))),
        0xce => Some((Instruction::LEASP, Mode::Indexed(IndexReg::X))),
        0xcf => Some((Instruction::EXG, Mode::Pair(RegName::Y, RegName::SP))),
        0xd0 => Some((Instruction::LDX, Mode::Indexed(IndexReg::Y))),
        0xd1 => Some((Instruction::LDY, Mode::Indexed(IndexReg::Y))),
        0xd2 => Some((Instruction::LDSP, Mode::Indexed(IndexReg::Y))),
        0xd3 => Some((Instruction::SBCA, Mode::Indexed(IndexReg::Y))),
        0xd4 => Some((Instruction::SUBA, Mode::Indexed(IndexReg::Y))),
        0xd5 => Some((Instruction::ADCA, Mode::Indexed(IndexReg::Y))),
        0xd6 => Some((Instruction::ADDA, Mode::Indexed(IndexReg::Y))),
        0xd7 => Some((Instruction::CMPA, Mode::Indexed(IndexReg::Y))),
        0xd8 => Some((Instruction::BITA, Mode::Indexed(IndexReg::Y))),
        0xd9 => Some((Instruction::ANDA, Mode::Indexed(IndexReg::Y))),
        0xda => Some((Instruction::ORA, Mode::Indexed(IndexReg::Y))),
        0xdb => Some((Instruction::EORA, Mode::Indexed(IndexReg::Y))),
        0xdc => Some((Instruction::LEAX, Mode::Indexed(IndexReg::SP))),
        0xdd => Some((Instruction::LEAY, Mode::Indexed(IndexReg::SP))),
        0xde => Some((Instruction::LEASP, Mode::Indexed(IndexReg::Y))),
        0xe1 => Some((Instruction::STA, Mode::Absolute)),
        0xe2 => Some((Instruction::STA, Mode::Indexed(IndexReg::SP))),
        0xe3 => Some((Instruction::STA, Mode::Indexed(IndexReg::X))),
        0xe4 => Some((Instruction::STA, Mode::AccIndexed(IndexReg::X))),
        0xe5 => Some((Instruction::STA, Mode::Auto(AutoIndex::XPlus))),
        0xe6 => Some((Instruction::STA, Mode::Auto(AutoIndex::XMinus))),
        0xe7 => Some((Instruction::STA, Mode::Auto(AutoIndex::PlusX))),
        0xe8 => Some((Instruction::STA, Mode::Auto(AutoIndex::MinusX))),
        0xe9 => Some((Instruction::STA, Mode::Indexed(IndexReg::Y))),
        0xea => Some((Instruction::STA, Mode::AccIndexed(IndexReg::Y))),
        0xeb => Some((Instruction::STA, Mode::Auto(AutoIndex::YPlus))),
        0xec => Some((Instruction::STA, Mode::Auto(AutoIndex::YMinus))),
        0xed => Some((Instruction::STA, Mode::Auto(AutoIndex::PlusY))),
        0xee => Some((Instruction::STA, Mode::Auto(AutoIndex::MinusY))),
        0xf0 => Some((Instruction::LDA, Mode::Immediate)),
        0xf1 => Some((Instruction::LDA, Mode::Absolute)),
        0xf2 => Some((Instruction::LDA, Mode::Indexed(IndexReg::SP))),
        0xf3 => Some((Instruction::LDA, Mode::Indexed(IndexReg::X))),
        0xf4 => Some((Instruction::LDA, Mode::AccIndexed(IndexReg::X))),
        0xf5 => Some((Instruction::LDA, Mode::Auto(AutoIndex::XPlus))),
        0xf6 => Some((Instruction::LDA, Mode::Auto(AutoIndex::XMinus))),
        0xf7 => Some((Instruction::LDA, Mode::Auto(AutoIndex::PlusX))),
        0xf8 => Some((Instruction::LDA, Mode::Auto(AutoIndex::MinusX))),
        0xf9 => Some((Instruction::LDA, Mode::Indexed(IndexReg::Y))),
        0xfa => Some((Instruction::LDA, Mode::AccIndexed(IndexReg::Y))),
        0xfb => Some((Instruction::LDA, Mode::Auto(AutoIndex::YPlus))),
        0xfc => Some((Instruction::LDA, Mode::Auto(AutoIndex::YMinus))),
        0xfd => Some((Instruction::LDA, Mode::Auto(AutoIndex::PlusY))),
        0xfe => Some((Instruction::LDA, Mode::Auto(AutoIndex::MinusY))),
        _ => None,
    }
}

/// The number of bytes an instruction with this mode occupies: the opcode
/// and at most one operand byte.
pub open spec fn size_of(mode: Mode) -> u8 {
    match mode {
        Mode::Immediate | Mode::Absolute | Mode::Relative | Mode::Indexed(_) => 2,
        _ => 1,
    }
}

/// The number of operand bytes that follow the opcode.
pub fn instruction_size(mode: Mode) -> (r: u8)
    ensures
        r == size_of(mode),
        1 <= r <= 2,
{
    match mode {
        Mode::Immediate | Mode::Absolute | Mode::Relative | Mode::Indexed(_) => 2,
        _ => 1,
    }
}

/// The clock cycles that executing an instruction costs.
pub open spec fn cycles_of(ins: Instruction, mode: Mode) -> u8 {
    let imm = mode == Mode::Immediate;
    let abs = mode == Mode::Absolute;
    let auto = mode is Auto;
    match ins {
        Instruction::NOP | Instruction::TSTA | Instruction::TFR | Instruction::RTS => 2,
        Instruction::ANDCC | Instruction::ORCC => 4,
        Instruction::CLRA | Instruction::NEGA | Instruction::INCA | Instruction::DECA
        | Instruction::COMA | Instruction::LSLA | Instruction::LSRA | Instruction::ROLA
        | Instruction::RORA | Instruction::ASRA | Instruction::PSHA | Instruction::PSHX
        | Instruction::PSHY | Instruction::PSHC | Instruction::PULA | Instruction::PULX
        | Instruction::PULY | Instruction::PULC => 3,
        Instruction::BSR => 5,
        Instruction::BRA | Instruction::BMI | Instruction::BPL | Instruction::BEQ
        | Instruction::BNE | Instruction::BVS | Instruction::BVC | Instruction::BCS
        | Instruction::BCC | Instruction::BHI | Instruction::BLS | Instruction::BGT
        | Instruction::BGE | Instruction::BLE | Instruction::BLT => 4,
        Instruction::STX | Instruction::STY | Instruction::STSP | Instruction::CLR
        | Instruction::TST => 3,
        Instruction::NEG | Instruction::INC | Instruction::DEC | Instruction::COM
        | Instruction::LSL | Instruction::LSR | Instruction::ROL | Instruction::ROR
        | Instruction::ASR => 4,
        Instruction::JMP => if abs { 2 } else { 4 },
        Instruction::JSR => if abs { 4 } else { 5 },
        Instruction::RTI => 6,
        Instruction::LDX | Instruction::LDY | Instruction::LDSP | Instruction::LDA => {
            if imm { 2 } else if auto { 4 } else { 3 }
        },
        Instruction::SBCA | Instruction::SUBA | Instruction::ADCA | Instruction::ADDA
        | Instruction::ANDA | Instruction::ORA | Instruction::EORA => if imm { 4 } else { 5 },
        Instruction::CMPA | Instruction::BITA | Instruction::CMPX | Instruction::CMPY
        | Instruction::CMPSP => if imm { 3 } else { 4 },
        Instruction::LEAX | Instruction::LEAY | Instruction::LEASP | Instruction::EXG => 4,
        Instruction::STA => if auto { 4 } else { 3 },
    }
}

/// The clock cycles that executing an instruction costs.
pub fn instruction_cycles(ins: Instruction, mode: Mode) -> (r: u8)
    ensures
        r == cycles_of(ins, mode),
{
    let imm = mode == Mode::Immediate;
    let abs = mode == Mode::Absolute;
    let auto = matches!(mode, Mode::Auto(_));
    match ins {
        Instruction::NOP | Instruction::TSTA | Instruction::TFR | Instruction::RTS => 2,
        Instruction::ANDCC | Instruction::ORCC => 4,
        Instruction::CLRA | Instruction::NEGA | Instruction::INCA | Instruction::DECA
        | Instruction::COMA | Instruction::LSLA | Instruction::LSRA | Instruction::ROLA
        | Instruction::RORA | Instruction::ASRA | Instruction::PSHA | Instruction::PSHX
        | Instruction::PSHY | Instruction::PSHC | Instruction::PULA | Instruction::PULX
        | Instruction::PULY | Instruction::PULC => 3,
        Instruction::BSR => 5,
        Instruction::BRA | Instruction::BMI | Instruction::BPL | Instruction::BEQ
        | Instruction::BNE | Instruction::BVS | Instruction::BVC | Instruction::BCS
        | Instruction::BCC | Instruction::BHI | Instruction::BLS | Instruction::BGT
        | Instruction::BGE | Instruction::BLE | Instruction::BLT => 4,
        Instruction::STX | Instruction::STY | Instruction::STSP | Instruction::CLR
        | Instruction::TST => 3,
        Instruction::NEG | Instruction::INC | Instruction::DEC | Instruction::COM
        | Instruction::LSL | Instruction::LSR | Instruction::ROL | Instruction::ROR
        | Instruction::ASR => 4,
        Instruction::JMP => if abs { 2 } else { 4 },
        Instruction::JSR => if abs { 4 } else { 5 },
        Instruction::RTI => 6,
        Instruction::LDX | Instruction::LDY | Instruction::LDSP | Instruction::LDA => {
            if imm { 2 } else if auto { 4 } else { 3 }
        },
        Instruction::SBCA | Instruction::SUBA | Instruction::ADCA | Instruction::ADDA
        | Instruction::ANDA | Instruction::ORA | Instruction::EORA => if imm { 4 } else { 5 },
        Instruction::CMPA | Instruction::BITA | Instruction::CMPX | Instruction::CMPY
        | Instruction::CMPSP => if imm { 3 } else { 4 },
        Instruction::LEAX | Instruction::LEAY | Instruction::LEASP | Instruction::EXG => 4,
        Instruction::STA => if auto { 4 } else { 3 },
    }
}

/// The opcode of an instruction in a mode: the smallest byte that the table
/// maps to that pair, if any does.
pub open spec fn encodes_first(ins: Instruction, mode: Mode, op: u8) -> bool {
    isa(op) == Some((ins, mode)) && forall|o: u8| o < op ==> isa(o) != Some((ins, mode))
}

/// At most one opcode is the first for a mnemonic and mode.
pub proof fn lemma_encodes_first_unique(ins: Instruction, mode: Mode, a: u8, b: u8)
    requires
        encodes_first(ins, mode, a),
        encodes_first(ins, mode, b),
    ensures
        a == b,
{
}

/// Finds the opcode of an instruction in an addressing mode.
pub fn encode(ins: Instruction, mode: Mode) -> (r: Option<u8>)
    ensures
        r matches Some(op) ==> encodes_first(ins, mode, op),
        r is None ==> forall|o: u8| isa(o) != Some((ins, mode)),
{
    let mut op: u16 = 0;
    while op < 256
        invariant
            op <= 256,
            forall|o: u8| (o as u16) < op ==> isa(o) != Some((ins, mode)),
        decreases 256 - op,
    {
        let found = decode(op as u8);
        if let Some((i, m)) = found {
            if i == ins && m == mode {
                return Some(op as u8);
            }
        }
        op = op + 1;
    }
    None
}

} // verus!
