use flisp::isa::{decode, encode, instruction_cycles, instruction_size, IndexReg, Instruction, Mode};

const SIZE_AND_CYCLES: [(u8, u8); 256] = [(1, 2), (2, 4), (2, 4), (0, 0), (0, 0), (1, 3), (1, 3), (1, 3), (1, 3), (1, 2), (1, 3), (1, 3), (1, 3), (1, 3), (1, 3), (1, 3), (1, 3), (1, 3), (1, 3), (1, 3), (1, 3), (1, 3), (1, 3), (1, 3), (1, 2), (1, 2), (1, 2), (1, 2), (1, 2), (1, 2), (1, 2), (1, 2), (2, 5), (2, 4), (2, 4), (2, 4), (2, 4), (2, 4), (2, 4), (2, 4), (2, 4), (2, 4), (2, 4), (2, 4), (2, 4), (2, 4), (2, 4), (2, 4), (2, 3), (2, 3), (2, 3), (2, 2), (2, 4), (2, 3), (2, 4), (2, 4), (2, 4), (2, 3), (2, 4), (2, 4), (2, 4), (2, 4), (2, 4), (2, 4), (2, 3), (2, 3), (2, 3), (1, 2), (1, 6), (2, 3), (2, 4), (2, 4), (2, 4), (2, 3), (2, 4), (2, 4), (2, 4), (2, 4), (2, 4), (2, 4), (2, 3), (2, 3), (2, 3), (2, 4), (2, 5), (2, 3), (2, 4), (2, 4), (2, 4), (2, 3), (2, 4), (2, 4), (2, 4), (2, 4), (2, 4), (2, 4), (1, 3), (1, 3), (1, 3), (1, 4), (1, 5), (1, 3), (1, 4), (1, 4), (1, 4), (1, 3), (1, 4), (1, 4), (1, 4), (1, 4), (1, 4), (1, 4), (2, 3), (2, 3), (2, 3), (2, 4), (2, 5), (2, 3), (2, 4), (2, 4), (2, 4), (2, 3), (2, 4), (2, 4), (2, 4), (2, 4), (2, 4), (2, 4), (1, 3), (1, 3), (1, 3), (1, 4), (1, 5), (1, 3), (1, 4), (1, 4), (1, 4), (1, 3), (1, 4), (1, 4), (1, 4), (1, 4), (1, 4), (1, 4), (2, 2), (2, 2), (2, 2), (2, 4), (2, 4), (2, 4), (2, 4), (2, 3), (2, 3), (2, 4), (2, 4), (2, 4), (2, 3), (2, 3), (2, 3), (1, 4), (2, 3), (2, 3), (2, 3), (2, 5), (2, 5), (2, 5), (2, 5), (2, 4), (2, 4), (2, 5), (2, 5), (2, 5), (2, 4), (2, 4), (2, 4), (1, 4), (2, 3), (2, 3), (2, 3), (2, 5), (2, 5), (2, 5), (2, 5), (2, 4), (2, 4), (2, 5), (2, 5), (2, 5), (2, 4), (2, 4), (2, 4), (1, 4), (2, 3), (2, 3), (2, 3), (2, 5), (2, 5), (2, 5), (2, 5), (2, 4), (2, 4), (2, 5), (2, 5), (2, 5), (2, 4), (2, 4), (2, 4), (1, 4), (2, 3), (2, 3), (2, 3), (2, 5), (2, 5), (2, 5), (2, 5), (2, 4), (2, 4), (2, 5), (2, 5), (2, 5), (2, 4), (2, 4), (2, 4), (0, 0), (0, 0), (2, 3), (2, 3), (2, 3), (1, 3), (1, 4), (1, 4), (1, 4), (1, 4), (2, 3), (1, 3), (1, 4), (1, 4), (1, 4), (1, 4), (0, 0), (2, 2), (2, 3), (2, 3), (2, 3), (1, 3), (1, 4), (1, 4), (1, 4), (1, 4), (2, 3), (1, 3), (1, 4), (1, 4), (1, 4), (1, 4), (0, 0)];

#[test]
fn every_opcode_has_the_size_and_cycles_of_the_handbook() {
    for op in 0..=255u8 {
        let (size, cycles) = SIZE_AND_CYCLES[op as usize];
        match decode(op) {
            None => assert_eq!((size, cycles), (0, 0), "opcode {:02x}", op),
            Some((ins, mode)) => {
                assert_eq!(instruction_size(mode), size, "size of {:02x}", op);
                assert_eq!(instruction_cycles(ins, mode), cycles, "cycles of {:02x}", op);
            }
        }
    }
}

#[test]
fn six_bytes_are_no_instruction() {
    for op in [0x03u8, 0x04, 0xdf, 0xe0, 0xef, 0xff] {
        assert!(decode(op).is_none());
    }
    let valid = (0..=255u8).filter(|op| decode(*op).is_some()).count();
    assert_eq!(valid, 250);
}

#[test]
fn encode_inverts_decode_for_every_opcode() {
    for op in 0..=255u8 {
        if let Some((ins, mode)) = decode(op) {
            assert_eq!(encode(ins, mode), Some(op));
        }
    }
}

#[test]
fn adda_opcodes_by_mode() {
    assert_eq!(encode(Instruction::ADDA, Mode::Immediate), Some(0x96));
    assert_eq!(encode(Instruction::ADDA, Mode::Absolute), Some(0xa6));
    assert_eq!(encode(Instruction::ADDA, Mode::Indexed(IndexReg::SP)), Some(0xb6));
    assert_eq!(encode(Instruction::ADDA, Mode::Indexed(IndexReg::X)), Some(0xc6));
    assert_eq!(encode(Instruction::ADDA, Mode::Indexed(IndexReg::Y)), Some(0xd6));
    assert_eq!(encode(Instruction::ADDA, Mode::Inherent), None);
}

#[test]
fn sty_indexed_by_accumulator_keeps_its_opcode() {
    assert_eq!(encode(Instruction::STY, Mode::AccIndexed(IndexReg::X)), Some(0x61));
}
