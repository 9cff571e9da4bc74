use flisp::codegen::assemble;
use flisp::math_utils::{add, add_c, rotate_left, rotate_right, shl, shr, shr_signed, sub, sub_c, GetBit};
use flisp::program::{CCFlag, CCFlags, ExecError, Program};
use flisp::register::Register;

fn load(src: &str) -> Program {
    let mem = assemble(src, "t".to_string()).expect("assembles");
    let mut p = Program::new();
    p.load_memory(&mem);
    p
}

fn flags(p: &Program) -> (bool, bool, bool, bool) {
    let cc = p.reg_cc();
    (cc.get(CCFlag::N), cc.get(CCFlag::Z), cc.get(CCFlag::V), cc.get(CCFlag::C))
}

#[test]
fn reset_loads_pc_from_the_vector() {
    let mut p = load("ORG $FF\n FCB $42\n");
    assert!(p.step().is_ok());
    assert_eq!(p.reg_pc().get(), 0x42);
    assert_eq!(p.clk_count(), 0);
    assert_eq!(p.get_debug_logs().back().unwrap(), "RESET (42)");
}

#[test]
fn clra_clears_a_and_sets_z() {
    let mut p = load("ORG $20\n LDA #$85\n CLRA\n ORG $FF\n FCB $20\n");
    for _ in 0..3 {
        p.step().unwrap();
    }
    assert_eq!(p.reg_a().get(), 0);
    assert_eq!(flags(&p), (false, true, false, false));
    assert_eq!(p.clk_count(), 2 + 3);
}

#[test]
fn lda_sets_n_and_z_and_keeps_c() {
    let mut p = load("ORG $20\n ORCC #1\n LDA #0\n LDA #$FF\n ORG $FF\n FCB $20\n");
    for _ in 0..3 {
        p.step().unwrap();
    }
    assert_eq!(flags(&p), (false, true, false, true));
    p.step().unwrap();
    assert_eq!(p.reg_a().get(), 0xff);
    assert_eq!(flags(&p), (true, false, false, true));
}

#[test]
fn jsr_and_rts_balance_the_stack() {
    let mut p = load("ORG $20\n LDSP #$80\n JSR $30\n NOP\n ORG $30\n RTS\n ORG $FF\n FCB $20\n");
    p.step().unwrap();
    p.step().unwrap();
    assert_eq!(p.reg_sp().get(), 0x80);
    p.step().unwrap();
    assert_eq!(p.reg_sp().get(), 0x7f);
    assert_eq!(p.reg_pc().get(), 0x30);
    assert_eq!(p.memory_at(0x7f), 0x24);
    p.step().unwrap();
    assert_eq!(p.reg_sp().get(), 0x80);
    assert_eq!(p.reg_pc().get(), 0x24);
}

#[test]
fn addition_and_subtraction_flags() {
    let mut p = load("ORG $20\n LDA #$7F\n ADDA #1\n ORG $FF\n FCB $20\n");
    for _ in 0..3 {
        p.step().unwrap();
    }
    assert_eq!(p.reg_a().get(), 0x80);
    assert_eq!(flags(&p), (true, false, true, false));
    let mut p = load("ORG $20\n LDA #$80\n SUBA #1\n ORG $FF\n FCB $20\n");
    for _ in 0..3 {
        p.step().unwrap();
    }
    assert_eq!(p.reg_a().get(), 0x7f);
    assert_eq!(flags(&p), (false, false, true, false));
    let mut p = load("ORG $20\n LDA #1\n CMPA #2\n ORG $FF\n FCB $20\n");
    for _ in 0..3 {
        p.step().unwrap();
    }
    assert_eq!(p.reg_a().get(), 1);
    assert_eq!(flags(&p), (true, false, false, true));
}

#[test]
fn branch_taken_and_not_taken() {
    let mut p = load("ORG $20\n LDA #0\n BEQ skip\n LDA #1\nskip: NOP\n ORG $FF\n FCB $20\n");
    for _ in 0..3 {
        p.step().unwrap();
    }
    assert_eq!(p.reg_pc().get(), 0x26);
    let mut p = load("ORG $20\n LDA #3\n BEQ skip\n LDA #1\nskip: NOP\n ORG $FF\n FCB $20\n");
    for _ in 0..3 {
        p.step().unwrap();
    }
    assert_eq!(p.reg_pc().get(), 0x24);
}

#[test]
fn auto_increment_store() {
    let mut p = load("ORG $20\n LDX #$50\n LDA #9\n STA ,X+\n STA ,+X\n ORG $FF\n FCB $20\n");
    for _ in 0..5 {
        p.step().unwrap();
    }
    assert_eq!(p.memory_at(0x50), 9);
    assert_eq!(p.memory_at(0x52), 9);
    assert_eq!(p.reg_x().get(), 0x52);
}

#[test]
fn invalid_opcode_stops_the_run() {
    let mut mem = [0u8; 256];
    mem[0x10] = 0x03;
    mem[0xff] = 0x10;
    let mut p = Program::new();
    p.load_memory(&mem);
    p.step().unwrap();
    assert_eq!(p.step(), Err(ExecError::InvalidOpcode { opcode: 0x03, pc: 0x10 }));
    assert_eq!(p.reg_pc().get(), 0x10);
    let (n, r) = p.execute(10);
    assert_eq!(n, 0);
    assert!(r.is_err());
}

#[test]
fn reset_reproduces_a_fresh_run() {
    let src = "ORG $20\nloop: INCA\n STA $40\n PSHA\n BRA loop\n ORG $FF\n FCB $20\n";
    let mem = assemble(src, "t".to_string()).unwrap();
    let mut p = Program::new();
    p.load_memory(&mem);
    p.execute(25);
    p.reset();
    let mut fresh = Program::new();
    fresh.load_memory(&mem);
    fresh.step().unwrap();
    for _ in 0..30 {
        assert_eq!(p.reg_a().get(), fresh.reg_a().get());
        assert_eq!(p.reg_sp().get(), fresh.reg_sp().get());
        assert_eq!(p.reg_pc().get(), fresh.reg_pc().get());
        assert_eq!(p.reg_cc().bits(), fresh.reg_cc().bits());
        assert_eq!(p.clk_count(), fresh.clk_count());
        assert_eq!(p.memory(), fresh.memory());
        p.step().unwrap();
        fresh.step().unwrap();
    }
}

#[test]
fn debug_log_keeps_twenty() {
    let mut p = Program::new();
    for i in 0..25 {
        p.debug_log(format!("m{}", i));
    }
    assert_eq!(p.get_debug_logs().len(), 20);
    assert_eq!(p.get_debug_logs().front().unwrap(), "m5");
}

#[test]
fn eight_bit_arithmetic() {
    assert_eq!(add(0xff, 1), (0, true, false));
    assert_eq!(add(0x7f, 1), (0x80, false, true));
    assert_eq!(add_c(0x7f, 0, true), (0x80, false, true));
    assert_eq!(sub(0, 1), (0xff, true, false));
    assert_eq!(sub(0x80, 1), (0x7f, false, true));
    assert_eq!(sub_c(5, 5, true), (0xff, true, false));
    assert_eq!(shl(0xc0), (0x80, true, false));
    assert_eq!(shl(0x40), (0x80, false, true));
    assert_eq!(shr(0x81), (0x40, true, true));
    assert_eq!(shr_signed(0x81), (0xc0, true));
    assert_eq!(rotate_left(0x81), (0x03, true));
    assert_eq!(rotate_right(0x81), (0xc0, true));
    assert!(0x80u8.bit(7));
    assert!(!0x80u8.bit(6));
}

#[test]
fn registers_and_flags() {
    let mut r = Register::new(0xff);
    assert_eq!(r.inc(), (true, false));
    assert_eq!(r.get(), 0);
    assert_eq!(r.dec(), (true, false));
    assert_eq!(r.get(), 0xff);
    assert!(r.bit(7));
    let mut cc = CCFlags::new(0);
    cc.enable(CCFlag::C);
    cc.enable(CCFlag::I);
    assert_eq!(cc.bits(), 0x11);
    cc.disable(CCFlag::C);
    assert!(!cc.get(CCFlag::C));
    assert!(cc.get(CCFlag::I));
    cc.overwrite(0x0f);
    assert!(cc.get(CCFlag::N) && cc.get(CCFlag::Z) && cc.get(CCFlag::V));
}

#[test]
fn load_memory_keeps_registers_and_clock() {
    let mut p = load("ORG $20\n LDA #7\n ORG $FF\n FCB $20\n");
    p.step().unwrap();
    p.step().unwrap();
    assert_eq!(p.reg_a().get(), 7);
    let clk = p.clk_count();
    let mut other = [0u8; 256];
    other[0x10] = 0x55;
    p.load_memory(&other);
    assert_eq!(p.reg_a().get(), 7);
    assert_eq!(p.reg_pc().get(), 0x22);
    assert_eq!(p.clk_count(), clk);
    assert_eq!(p.memory_at(0x10), 0x55);
    p.reset();
    assert_eq!(p.reg_a().get(), 0);
    assert_eq!(p.reg_pc().get(), 0);
    assert_eq!(p.clk_count(), 0);
}

#[test]
fn steps_log_resets_and_invalid_bytes() {
    let mut mem = [0u8; 256];
    mem[0x10] = 0xef;
    mem[0xff] = 0x10;
    let mut p = Program::new();
    p.load_memory(&mem);
    p.step().unwrap();
    assert!(p.step().is_err());
    let logs: Vec<&String> = p.get_debug_logs().iter().collect();
    assert_eq!(logs, vec!["RESET (10)", "Invalid instruction: ef"]);
    assert_eq!(p.reg_r().get(), 0);
    assert_eq!(p.reg_ta().get(), 0);
    assert_eq!(p.reg_ld().get(), 0);
}
