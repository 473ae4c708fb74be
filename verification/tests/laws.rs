use aluvm::flags::IntFlags;
use aluvm::instr::{Instr, InstructionSet};
use aluvm::isa::{ArithmeticOp, BitwiseOp, ControlFlowOp, ExecStep, MoveOp, PutOp};
use aluvm::layout::{IntLayout, Layout};
use aluvm::library::{LibId, LibSite};
use aluvm::number::Number;
use aluvm::op_types::ReservedInstr;
use aluvm::reg::{Reg32, RegA, RegA2, RegAR, RegR};
use aluvm::regs::CoreRegs;

fn site(pos: u16) -> LibSite {
    LibSite::with(pos, LibId::new(7, 7))
}

#[test]
fn register_reads_back_what_was_written() {
    let mut regs = CoreRegs::default();
    PutOp::PutA(RegA::A32, Reg32::Reg5, Some(Number::from_u8(200))).exec(&mut regs, site(0));
    // the value is extended to the register width
    let v = regs.get_n(RegAR::A(RegA::A32), Reg32::Reg5).unwrap();
    assert_eq!(v.to_vec(), vec![200, 0, 0, 0]);
    assert!(regs.get_n(RegAR::A(RegA::A32), Reg32::Reg6).is_none());
    assert!(regs.get_n(RegAR::A(RegA::A16), Reg32::Reg5).is_none());
}

#[test]
fn swapping_twice_restores_registers() {
    let mut regs = CoreRegs::default();
    PutOp::PutA(RegA::A8, Reg32::Reg1, Some(Number::from_u8(1))).exec(&mut regs, site(0));
    PutOp::PutA(RegA::A8, Reg32::Reg2, Some(Number::from_u8(2))).exec(&mut regs, site(0));
    let swap = MoveOp::SwpA(RegA::A8, Reg32::Reg1, Reg32::Reg2);
    assert_eq!(swap.exec(&mut regs, site(0)), ExecStep::Next);
    assert_eq!(regs.get_n(RegAR::A(RegA::A8), Reg32::Reg1), Some(Number::from_u8(2)));
    swap.exec(&mut regs, site(0));
    assert_eq!(regs.get_n(RegAR::A(RegA::A8), Reg32::Reg1), Some(Number::from_u8(1)));
    assert_eq!(regs.get_n(RegAR::A(RegA::A8), Reg32::Reg2), Some(Number::from_u8(2)));
}

#[test]
fn routine_returns_to_its_site() {
    let mut regs = CoreRegs::default();
    assert_eq!(ControlFlowOp::Routine(40).exec(&mut regs, site(12)), ExecStep::Jump(40));
    assert_eq!(regs.cp0(), 1);
    assert_eq!(regs.cy0(), 1);
    assert_eq!(ControlFlowOp::Ret.exec(&mut regs, site(44)), ExecStep::Call(site(12)));
    assert_eq!(regs.cp0(), 0);
    assert_eq!(regs.cy0(), 1);
    // nothing left to return to
    assert_eq!(ControlFlowOp::Ret.exec(&mut regs, site(45)), ExecStep::Stop);
}

#[test]
fn instructions_dispatch_by_group() {
    let mut regs = CoreRegs::default();
    let nop: Instr = Instr::Nop;
    assert_eq!(nop.exec(&mut regs, site(0)), ExecStep::Next);
    assert!(regs.st0());
    let jmp: Instr = Instr::ControlFlow(ControlFlowOp::Jmp(9));
    assert_eq!(jmp.exec(&mut regs, site(0)), ExecStep::Jump(9));
    assert_eq!(regs.cy0(), 1);
    let rsv: Instr = Instr::ReservedInstruction(ReservedInstr { code: 0xFF });
    assert_eq!(rsv.exec(&mut regs, site(0)), ExecStep::Stop);
    assert!(!regs.st0());
    assert_eq!(rsv.complexity(), 1);
    assert_eq!(ControlFlowOp::Ret.complexity(), 2);
    assert_eq!(jmp.complexity(), 1);
    assert_eq!(MoveOp::SwpA(RegA::A8, Reg32::Reg0, Reg32::Reg1).complexity(), 1);
}

#[test]
fn bits_reversed_or_inverted_twice_come_back() {
    let x = Number::from_u16(0x1234);
    assert_eq!(x.clone().reverse_bits().reverse_bits(), x);
    assert_eq!(x.clone().reverse_bits(), Number::from_u16(0x2C48));
    assert_eq!(x.clone().not().not(), x);
    assert_eq!(x.clone().not(), Number::from_u16(0xEDCB));
}

#[test]
fn addition_and_multiplication_commute() {
    let a = Number::from_u8(200);
    let b = Number::from_u8(100);
    let f = IntFlags::unsigned_wrapped();
    assert_eq!(a.clone().int_add(b.clone(), f), b.clone().int_add(a.clone(), f));
    assert_eq!(a.clone().int_add(b.clone(), f), Some(Number::from_u8(44)));
    assert_eq!(a.clone().int_mul(b.clone(), f), b.clone().int_mul(a.clone(), f));
    assert_eq!(a.clone().int_add(b.clone(), IntFlags::unsigned_checked()), None);
}

#[test]
fn widening_then_narrowing_keeps_a_number() {
    let mut n = Number::from_i16(-3);
    assert!(n.reshape(Layout::Integer(IntLayout { signed: true, bytes: 8 })));
    assert_eq!(n.to_vec(), vec![0xFD, 0xFF, 0xFF, 0xFF, 0xFF, 0xFF, 0xFF, 0xFF]);
    assert!(n.reshape(Layout::Integer(IntLayout { signed: true, bytes: 2 })));
    assert_eq!(n, Number::from_i16(-3));
}

#[test]
fn adding_and_subtracting_store_the_result_and_status() {
    let mut regs = CoreRegs::default();
    PutOp::PutA(RegA::A8, Reg32::Reg1, Some(Number::from_u8(200))).exec(&mut regs, site(0));
    PutOp::PutA(RegA::A8, Reg32::Reg2, Some(Number::from_u8(100))).exec(&mut regs, site(0));
    let checked = IntFlags { signed: false, wrap: false };
    let add = ArithmeticOp::AddA(checked, RegA::A8, Reg32::Reg2, Reg32::Reg1);
    // 100 + 200 overflows eight bits: nothing is stored and the status is cleared
    assert_eq!(add.exec(&mut regs, site(0)), ExecStep::Next);
    assert!(regs.get_n(RegAR::A(RegA::A8), Reg32::Reg1).is_none());
    assert!(!regs.st0());
    assert_eq!(regs.get_n(RegAR::A(RegA::A8), Reg32::Reg2), Some(Number::from_u8(100)));
    PutOp::PutA(RegA::A8, Reg32::Reg1, Some(Number::from_u8(230))).exec(&mut regs, site(0));
    let sub = ArithmeticOp::SubA(checked, RegA::A8, Reg32::Reg1, Reg32::Reg2);
    // the second register receives the first minus the second: 230 - 100
    assert_eq!(sub.exec(&mut regs, site(0)), ExecStep::Next);
    assert!(regs.st0());
    assert_eq!(regs.get_n(RegAR::A(RegA::A8), Reg32::Reg2), Some(Number::from_u8(130)));
    let wrapping = IntFlags { signed: false, wrap: true };
    let add = ArithmeticOp::AddA(wrapping, RegA::A8, Reg32::Reg2, Reg32::Reg1);
    // 130 + 230 wraps to 104
    add.exec(&mut regs, site(0));
    assert!(regs.st0());
    assert_eq!(regs.get_n(RegAR::A(RegA::A8), Reg32::Reg1), Some(Number::from_u8(104)));
    assert_eq!(regs.get_n(RegAR::A(RegA::A8), Reg32::Reg2), Some(Number::from_u8(130)));
}

#[test]
fn rotating_left_then_right_restores_a_register() {
    let mut regs = CoreRegs::default();
    PutOp::PutR(RegR::R128, Reg32::Reg4, Some(Number::from_u64(0x8000_0000_0000_00f1))).exec(&mut regs, site(0));
    PutOp::PutA(RegA::A8, Reg32::Reg0, Some(Number::from_u8(12))).exec(&mut regs, site(0));
    let before = regs.get_n(RegAR::R(RegR::R128), Reg32::Reg4).unwrap();
    let left = BitwiseOp::Scl(RegA2::A8, Reg32::Reg0, RegAR::R(RegR::R128), Reg32::Reg4);
    assert_eq!(left.exec(&mut regs, site(0)), ExecStep::Next);
    let rotated = regs.get_n(RegAR::R(RegR::R128), Reg32::Reg4).unwrap();
    // the low byte 0xf1 moves up twelve bits
    assert_eq!(rotated.to_vec()[1], 0x10);
    assert_eq!(rotated.to_vec()[2], 0x0f);
    assert_ne!(rotated, before);
    let right = BitwiseOp::Scr(RegA2::A8, Reg32::Reg0, RegAR::R(RegR::R128), Reg32::Reg4);
    assert_eq!(right.exec(&mut regs, site(0)), ExecStep::Next);
    assert_eq!(regs.get_n(RegAR::R(RegR::R128), Reg32::Reg4).unwrap(), before);
}

#[test]
fn remainder_goes_to_the_second_register() {
    let mut regs = CoreRegs::default();
    PutOp::PutA(RegA::A8, Reg32::Reg1, Some(Number::from_u8(17))).exec(&mut regs, site(0));
    PutOp::PutA(RegA::A16, Reg32::Reg2, Some(Number::from_u16(5))).exec(&mut regs, site(0));
    let rem = ArithmeticOp::Rem(RegA::A8, Reg32::Reg1, RegA::A16, Reg32::Reg2);
    assert_eq!(rem.exec(&mut regs, site(0)), ExecStep::Next);
    assert!(regs.st0());
    assert_eq!(regs.get_n(RegAR::A(RegA::A16), Reg32::Reg2), Some(Number::from_u16(2)));
    assert_eq!(regs.get_n(RegAR::A(RegA::A8), Reg32::Reg1), Some(Number::from_u8(17)));
}
