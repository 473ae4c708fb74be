use std::collections::BTreeSet;

use aluvm::bytestr::ByteStr;
use aluvm::instr::{InstructionSet, Instr};
use aluvm::isa::{BytesOp, CmpOp, DigestOp, MoveOp, NoneEqFlag, PutOp, Secp256k1Op};
use aluvm::number::Number;
use aluvm::reg::{Reg, Reg32, Reg8, RegA, RegBlockAR, RegR};

fn set(v: Vec<Reg>) -> BTreeSet<Reg> {
    v.into_iter().collect()
}

#[test]
fn swap_reads_and_writes_both() {
    let op = MoveOp::SwpA(RegA::A8, Reg32::Reg1, Reg32::Reg2);
    let both = set(vec![Reg::A(RegA::A8, Reg32::Reg1), Reg::A(RegA::A8, Reg32::Reg2)]);
    assert_eq!(set(op.src_regs()), both);
    assert_eq!(set(op.dst_regs()), both);
    assert_eq!(op.regs().len(), 2);
}

#[test]
fn same_register_listed_once() {
    let op = CmpOp::EqA(NoneEqFlag::Equal, RegA::A16, Reg32::Reg3, Reg32::Reg3);
    assert_eq!(op.src_regs(), vec![Reg::A(RegA::A16, Reg32::Reg3)]);
    assert!(op.dst_regs().is_empty());
}

#[test]
fn put_writes_its_register() {
    let op = PutOp::PutR(RegR::R128, Reg32::Reg4, Some(Number::from_u8(1)));
    assert!(op.src_regs().is_empty());
    assert_eq!(op.dst_regs(), vec![Reg::R(RegR::R128, Reg32::Reg4)]);
    let clr = PutOp::ClrA(RegA::A8, Reg32::Reg0);
    assert!(clr.regs().is_empty());
}

#[test]
fn string_registers() {
    let op = BytesOp::Put(3, ByteStr::with(b"abc"), false);
    assert!(op.src_regs().is_empty());
    assert_eq!(op.dst_regs(), vec![Reg::S(3)]);
    let fill = BytesOp::Fill(1, Reg32::Reg0, Reg32::Reg1, Reg32::Reg2, aluvm::isa::ExtendFlag::Fail);
    assert_eq!(
        set(fill.src_regs()),
        set(vec![
            Reg::S(1),
            Reg::A(RegA::A16, Reg32::Reg0),
            Reg::A(RegA::A16, Reg32::Reg1),
            Reg::A(RegA::A8, Reg32::Reg2),
        ])
    );
    assert_eq!(fill.dst_regs(), vec![Reg::S(1)]);
}

#[test]
fn digest_and_curve_registers() {
    let op = DigestOp::Sha256(2, Reg8::Reg5);
    assert_eq!(op.src_regs(), vec![Reg::S(2)]);
    assert_eq!(op.dst_regs(), vec![Reg::R(RegR::R256, Reg32::Reg5)]);
    let mul = Secp256k1Op::Mul(RegBlockAR::A, Reg32::Reg1, Reg32::Reg2, Reg32::Reg3);
    assert_eq!(
        set(mul.src_regs()),
        set(vec![Reg::A(RegA::A256, Reg32::Reg1), Reg::R(RegR::R512, Reg32::Reg2)])
    );
    assert_eq!(mul.dst_regs(), vec![Reg::R(RegR::R512, Reg32::Reg3)]);
}

#[test]
fn instr_forwards_registers() {
    let i: Instr = Instr::Move(MoveOp::DupA(RegA::A32, Reg32::Reg1, Reg32::Reg7));
    assert_eq!(i.src_regs(), vec![Reg::A(RegA::A32, Reg32::Reg1)]);
    assert_eq!(i.dst_regs(), vec![Reg::A(RegA::A32, Reg32::Reg7)]);
    assert_eq!(set(i.regs()).len(), 2);
    let nop: Instr = Instr::Nop;
    assert!(nop.regs().is_empty());
}
