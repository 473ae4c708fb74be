use aluvm::bytestr::ByteStr;
use aluvm::instr::InstructionSet;
use aluvm::isa::{BytesOp, CmpOp, ControlFlowOp, NoneEqFlag, PutOp, Secp256k1Op};
use aluvm::library::LibSite;
use aluvm::number::Number;
use aluvm::reg::{Reg32, Reg8, RegA, RegAR, RegBlockAR, RegR};
use aluvm::regs::CoreRegs;

#[test]
fn bytes_con_test() {
    let mut register = CoreRegs::default();
    let lib_site = LibSite::default();
    let s1 = "apple_banana_kiwi".as_bytes();
    let s2 = "apple@banana@kiwi".as_bytes();
    BytesOp::Put(1, ByteStr::with(s1), false).exec(&mut register, lib_site);
    BytesOp::Put(2, ByteStr::with(s2), false).exec(&mut register, lib_site);
    // apple (0th fragment)
    PutOp::PutA(RegA::A16, Reg32::Reg0, Some(Number::from_i32(0))).exec(&mut register, lib_site);
    BytesOp::Con(1, 2, Reg32::Reg0, Reg32::Reg1, Reg32::Reg2).exec(&mut register, lib_site);
    assert_eq!(register.get_n(RegAR::A(RegA::A16), Reg32::Reg1).unwrap(), Number::from_u16(0));
    assert_eq!(register.get_n(RegAR::A(RegA::A16), Reg32::Reg2).unwrap(), Number::from_u16(5));
    assert!(register.st0());
    // banana (1st fragment)
    PutOp::PutA(RegA::A16, Reg32::Reg0, Some(Number::from_i32(1))).exec(&mut register, lib_site);
    BytesOp::Con(1, 2, Reg32::Reg0, Reg32::Reg1, Reg32::Reg2).exec(&mut register, lib_site);
    assert_eq!(register.get_n(RegAR::A(RegA::A16), Reg32::Reg1).unwrap(), Number::from_u16(6));
    assert_eq!(register.get_n(RegAR::A(RegA::A16), Reg32::Reg2).unwrap(), Number::from_u16(6));
    assert!(register.st0());
    // kiwi (2nd fragment)
    PutOp::PutA(RegA::A16, Reg32::Reg0, Some(Number::from_i32(2))).exec(&mut register, lib_site);
    BytesOp::Con(1, 2, Reg32::Reg0, Reg32::Reg1, Reg32::Reg2).exec(&mut register, lib_site);
    assert_eq!(register.get_n(RegAR::A(RegA::A16), Reg32::Reg1).unwrap(), Number::from_u16(13));
    assert_eq!(register.get_n(RegAR::A(RegA::A16), Reg32::Reg2).unwrap(), Number::from_u16(4));
    assert!(register.st0());
    // no 3rd fragment
    PutOp::PutA(RegA::A16, Reg32::Reg0, Some(Number::from_i32(3))).exec(&mut register, lib_site);
    BytesOp::Con(1, 2, Reg32::Reg0, Reg32::Reg1, Reg32::Reg2).exec(&mut register, lib_site);
    assert!(register.get_n(RegAR::A(RegA::A16), Reg32::Reg1).is_none());
    assert!(register.get_n(RegAR::A(RegA::A16), Reg32::Reg2).is_none());
    assert!(!register.st0());

    let s1 = "aaa".as_bytes();
    let s2 = "bbb".as_bytes();
    BytesOp::Put(1, ByteStr::with(s1), false).exec(&mut register, lib_site);
    BytesOp::Put(2, ByteStr::with(s2), false).exec(&mut register, lib_site);
    PutOp::PutA(RegA::A16, Reg32::Reg0, Some(Number::from_i32(0))).exec(&mut register, lib_site);
    BytesOp::Con(1, 2, Reg32::Reg0, Reg32::Reg1, Reg32::Reg2).exec(&mut register, lib_site);
    assert!(register.get_n(RegAR::A(RegA::A16), Reg32::Reg1).is_none());
    assert!(register.get_n(RegAR::A(RegA::A16), Reg32::Reg2).is_none());
    assert!(!register.st0());
    ControlFlowOp::Succ.exec(&mut register, lib_site);

    let s1 = [0u8; u16::MAX as usize];
    let s2 = [0u8; u16::MAX as usize];
    let s1 = &s1[..];
    let s2 = &s2[..];
    BytesOp::Put(1, ByteStr::with(s1), false).exec(&mut register, lib_site);
    BytesOp::Put(2, ByteStr::with(s2), false).exec(&mut register, lib_site);
    PutOp::PutA(RegA::A16, Reg32::Reg0, Some(Number::from_i32(0))).exec(&mut register, lib_site);
    BytesOp::Con(1, 2, Reg32::Reg0, Reg32::Reg1, Reg32::Reg2).exec(&mut register, lib_site);
    assert_eq!(register.get_n(RegAR::A(RegA::A16), Reg32::Reg1).unwrap(), Number::from_u16(0));
    assert_eq!(register.get_n(RegAR::A(RegA::A16), Reg32::Reg2).unwrap(), Number::from_u16(u16::MAX));
    assert!(register.st0());
    PutOp::PutA(RegA::A16, Reg32::Reg0, Some(Number::from_i32(1))).exec(&mut register, lib_site);
    BytesOp::Con(1, 2, Reg32::Reg0, Reg32::Reg1, Reg32::Reg2).exec(&mut register, lib_site);
    assert!(register.get_n(RegAR::A(RegA::A16), Reg32::Reg1).is_none());
    assert!(register.get_n(RegAR::A(RegA::A16), Reg32::Reg2).is_none());
    assert!(!register.st0());
}

fn put_r256(register: &mut CoreRegs, lib_site: LibSite, idx: Reg32, value: Number) {
    PutOp::PutR(RegR::R256, idx, Some(value)).exec(register, lib_site);
}

fn eq_r512(register: &mut CoreRegs, lib_site: LibSite, a: Reg32, b: Reg32) {
    CmpOp::EqR(NoneEqFlag::NonEqual, RegR::R512, a, b).exec(register, lib_site);
}

#[test]
fn secp256k1_add_test() {
    let mut register = CoreRegs::default();
    let lib_site = LibSite::default();
    put_r256(&mut register, lib_site, Reg32::Reg0, Number::from_u16(600));
    put_r256(&mut register, lib_site, Reg32::Reg1, Number::from_u16(1200));
    put_r256(&mut register, lib_site, Reg32::Reg2, Number::from_u16(1800));
    Secp256k1Op::Gen(Reg32::Reg0, Reg8::Reg0).exec(&mut register, lib_site);
    Secp256k1Op::Gen(Reg32::Reg1, Reg8::Reg1).exec(&mut register, lib_site);
    Secp256k1Op::Add(Reg32::Reg0, Reg8::Reg1).exec(&mut register, lib_site);
    Secp256k1Op::Gen(Reg32::Reg2, Reg8::Reg2).exec(&mut register, lib_site);
    eq_r512(&mut register, lib_site, Reg32::Reg1, Reg32::Reg2);
    assert!(register.st0());
}

#[test]
fn secp256k1_mul_test() {
    let mut register = CoreRegs::default();
    let lib_site = LibSite::default();
    put_r256(&mut register, lib_site, Reg32::Reg0, Number::from_u8(2));
    put_r256(&mut register, lib_site, Reg32::Reg1, Number::from_u8(3));
    put_r256(&mut register, lib_site, Reg32::Reg2, Number::from_u8(6));
    Secp256k1Op::Gen(Reg32::Reg0, Reg8::Reg0).exec(&mut register, lib_site);
    Secp256k1Op::Mul(RegBlockAR::R, Reg32::Reg1, Reg32::Reg0, Reg32::Reg1).exec(&mut register, lib_site);
    Secp256k1Op::Gen(Reg32::Reg2, Reg8::Reg2).exec(&mut register, lib_site);
    eq_r512(&mut register, lib_site, Reg32::Reg1, Reg32::Reg2);
    assert!(register.st0());
}

#[test]
fn secp256k1_neg_test() {
    let mut register = CoreRegs::default();
    let lib_site = LibSite::default();
    put_r256(&mut register, lib_site, Reg32::Reg0, Number::from_u8(1));
    Secp256k1Op::Gen(Reg32::Reg0, Reg8::Reg0).exec(&mut register, lib_site);
    Secp256k1Op::Neg(Reg32::Reg0, Reg8::Reg1).exec(&mut register, lib_site);
    Secp256k1Op::Neg(Reg32::Reg1, Reg8::Reg2).exec(&mut register, lib_site);
    eq_r512(&mut register, lib_site, Reg32::Reg0, Reg32::Reg1);
    assert!(!register.st0());
    ControlFlowOp::Succ.exec(&mut register, lib_site);
    assert!(register.st0());
    eq_r512(&mut register, lib_site, Reg32::Reg0, Reg32::Reg2);
    assert!(register.st0());
    put_r256(&mut register, lib_site, Reg32::Reg4, Number::from_u8(5));
    put_r256(&mut register, lib_site, Reg32::Reg5, Number::from_u8(6));
    Secp256k1Op::Gen(Reg32::Reg4, Reg8::Reg4).exec(&mut register, lib_site);
    Secp256k1Op::Gen(Reg32::Reg5, Reg8::Reg5).exec(&mut register, lib_site);
    // -G + 6G
    Secp256k1Op::Add(Reg32::Reg1, Reg8::Reg5).exec(&mut register, lib_site);
    eq_r512(&mut register, lib_site, Reg32::Reg4, Reg32::Reg5);
    assert!(register.st0());
}
