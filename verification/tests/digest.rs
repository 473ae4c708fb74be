use aluvm::bytestr::ByteStr;
use aluvm::instr::InstructionSet;
use aluvm::isa::DigestOp;
use aluvm::library::LibSite;
use aluvm::reg::{Reg32, Reg8, RegAR, RegR};
use aluvm::regs::CoreRegs;

fn hex(s: &str) -> Vec<u8> {
    (0..s.len()).step_by(2).map(|i| u8::from_str_radix(&s[i..i + 2], 16).unwrap()).collect()
}

fn digest_of(op: DigestOp, reg: RegR, text: &[u8]) -> Vec<u8> {
    let mut regs = CoreRegs::default();
    regs.set_s(0, Some(ByteStr::with(text)));
    op.exec(&mut regs, LibSite::default());
    assert!(regs.st0());
    regs.get_n(RegAR::R(reg), Reg32::Reg1).unwrap().to_vec()
}

#[test]
fn sha256_of_text() {
    assert_eq!(
        digest_of(DigestOp::Sha256(0, Reg8::Reg1), RegR::R256, b"abc"),
        hex("ba7816bf8f01cfea414140de5dae2223b00361a396177a9cb410ff61f20015ad")
    );
}

#[test]
fn sha512_of_text() {
    assert_eq!(
        digest_of(DigestOp::Sha512(0, Reg8::Reg1), RegR::R512, b"abc"),
        hex(
            "ddaf35a193617abacc417349ae20413112e6fa4e89a97ea20a9eeee64b55d39a\
             2192992a274fc1a836ba3c23a3feebbd454d4423643ce80e2a9ac94fa54ca49f"
        )
    );
}

#[test]
fn ripemd160_of_text_is_kept_little_endian() {
    let mut expected = hex("8eb208f7e05d987a9b044a8e98c6b087f15a0bfc");
    expected.reverse();
    assert_eq!(digest_of(DigestOp::Ripemd(0, Reg8::Reg1), RegR::R160, b"abc"), expected);
}

#[test]
fn digest_of_unset_string_fails() {
    let mut regs = CoreRegs::default();
    DigestOp::Sha256(3, Reg8::Reg1).exec(&mut regs, LibSite::default());
    assert!(!regs.st0());
    assert!(regs.get_n(RegAR::R(RegR::R256), Reg32::Reg1).is_none());
}
