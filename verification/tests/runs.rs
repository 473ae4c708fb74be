use aluvm::flags::IntFlags;
use aluvm::instr::InstructionSet;
use aluvm::isa::{ArithmeticOp, ExecStep, PutOp};
use aluvm::layout::Layout;
use aluvm::library::{LibId, LibSite};
use aluvm::number::Number;
use aluvm::reg::{Reg32, RegA, RegAR};
use aluvm::regs::CoreRegs;

fn site() -> LibSite {
    LibSite::with(0, LibId::new(1, 1))
}

fn wide(top: u8, low: u8) -> Number {
    let mut v = vec![0u8; 128];
    v[0] = low;
    v[127] = top;
    Number::from_parts(Layout::unsigned(128), v)
}

#[test]
fn division_is_checked_before_it_runs() {
    let mut regs = CoreRegs::default();
    let signed = IntFlags { signed: true, wrap: false };
    // the smallest 1024-bit value divided by a positive number is refused
    PutOp::PutA(RegA::A1024, Reg32::Reg0, Some(wide(0x80, 0))).exec(&mut regs, site());
    PutOp::PutA(RegA::A1024, Reg32::Reg1, Some(wide(0, 3))).exec(&mut regs, site());
    let div = ArithmeticOp::DivA(signed, RegA::A1024, Reg32::Reg0, Reg32::Reg1);
    assert!(!div.runs_exec(&regs));
    // by itself it gives one
    let div = ArithmeticOp::DivA(signed, RegA::A1024, Reg32::Reg0, Reg32::Reg0);
    assert!(div.runs_exec(&regs));
    assert_eq!(div.exec(&mut regs, site()), ExecStep::Next);
    assert_eq!(regs.get_n(RegAR::A(RegA::A1024), Reg32::Reg0), Some(wide(0, 1)));
    // ordinary numbers run
    let div = ArithmeticOp::DivA(signed, RegA::A1024, Reg32::Reg1, Reg32::Reg0);
    assert!(div.runs_exec(&regs));
    // a positive number shorter in bits than a negative divisor is refused
    PutOp::PutA(RegA::A1024, Reg32::Reg2, Some(wide(0xF0, 0))).exec(&mut regs, site());
    let div = ArithmeticOp::DivA(signed, RegA::A1024, Reg32::Reg1, Reg32::Reg2);
    assert!(!div.runs_exec(&regs));
    // unsigned division always runs
    let div = ArithmeticOp::DivA(IntFlags { signed: false, wrap: false }, RegA::A1024, Reg32::Reg0, Reg32::Reg1);
    assert!(div.runs_exec(&regs));
}

#[test]
fn remainder_is_checked_before_it_runs() {
    let mut regs = CoreRegs::default();
    PutOp::PutA(RegA::A256, Reg32::Reg0, Some(Number::from_u8(7))).exec(&mut regs, site());
    PutOp::PutA(RegA::A8, Reg32::Reg0, Some(Number::from_u8(7))).exec(&mut regs, site());
    assert!(!ArithmeticOp::Rem(RegA::A256, Reg32::Reg0, RegA::A8, Reg32::Reg0).runs_exec(&regs));
    assert!(ArithmeticOp::Rem(RegA::A8, Reg32::Reg0, RegA::A8, Reg32::Reg0).runs_exec(&regs));
    // an unset operand stores nothing and runs
    assert!(ArithmeticOp::Rem(RegA::A256, Reg32::Reg5, RegA::A8, Reg32::Reg0).runs_exec(&regs));
    assert!(ArithmeticOp::Stp(RegA::A8, Reg32::Reg0, 3).runs_exec(&regs));
    assert!(!ArithmeticOp::Stp(RegA::A8, Reg32::Reg0, -128).runs_exec(&regs));
}
