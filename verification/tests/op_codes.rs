use aluvm::bytestr::ByteStr;
use aluvm::codec::CursorError;
use aluvm::cursor::Cursor;
use aluvm::op_codes::{ArithmeticOp, BitwiseOp, BytesOp, CmpOp, DigestOp, MoveOp};
use aluvm::bytecode::DecodeError;
use aluvm::op_types::{Arithmetics, IncDec, NumType};
use aluvm::reg::{Reg16, Reg32, Reg8, RegA, RegBlockAR, RegR};

#[test]
fn move_round_trip() {
    let ops = [
        MoveOp::SwpA(RegA::A16, Reg32::Reg3, RegA::A1024, Reg32::Reg31),
        MoveOp::MovRA(RegR::R8192, Reg32::Reg7, RegA::A8, Reg32::Reg0),
        MoveOp::AMov(RegA::A64, RegA::A32, NumType::Float52),
    ];
    for op in ops {
        let mut w = Cursor::with(vec![0u8; 3]);
        op.write(&mut w).unwrap();
        assert_eq!(w.pos(), op.byte_count());
        let mut r = Cursor::with(w.bytes().to_vec());
        assert_eq!(MoveOp::read(&mut r), Ok(op));
        assert_eq!(r.pos(), op.byte_count());
    }
}

#[test]
fn move_layout() {
    let mut w = Cursor::with(vec![0u8; 3]);
    MoveOp::MovA(RegA::A16, Reg32::Reg2, RegA::A8, Reg32::Reg1).write(&mut w).unwrap();
    assert_eq!(w.bytes(), &[0b00_010_100, 1 | (2 << 3), 0 | (1 << 3)]);
}

#[test]
fn arithmetic_round_trip() {
    let ops = [
        ArithmeticOp::Neg(RegA::A64, Reg32::Reg9),
        ArithmeticOp::Stp(IncDec::Dec, Arithmetics::IntChecked { signed: true }, RegA::A8, Reg32::Reg1, 15),
        ArithmeticOp::Add(Arithmetics::Float, RegA::A512, Reg32::Reg30, Reg32::Reg2),
        ArithmeticOp::Rem(Arithmetics::IntUnchecked { signed: false }, RegA::A8, Reg32::Reg4, Reg32::Reg5),
    ];
    for op in ops {
        let mut w = Cursor::with(vec![0u8; 3]);
        op.write(&mut w).unwrap();
        let mut r = Cursor::with(w.bytes().to_vec());
        assert_eq!(ArithmeticOp::read(&mut r), Ok(op));
        assert_eq!(r.pos(), op.byte_count());
    }
}

#[test]
fn bitwise_and_digest_round_trip() {
    let b = BitwiseOp::Scl(RegA::A32, Reg32::Reg1, Reg32::Reg2, Reg8::Reg7);
    let mut w = Cursor::with(vec![0u8; 3]);
    b.write(&mut w).unwrap();
    let mut r = Cursor::with(w.bytes().to_vec());
    assert_eq!(BitwiseOp::read(&mut r), Ok(b));
    let d = DigestOp::Sha256(Reg32::Reg17, Reg8::Reg3);
    let mut w = Cursor::with(vec![0u8; 2]);
    d.write(&mut w).unwrap();
    let mut r = Cursor::with(w.bytes().to_vec());
    assert_eq!(DigestOp::read(&mut r), Ok(d));
    assert_eq!(d.byte_count(), 3);
}

#[test]
fn reserved_digest_code() {
    let mut r = Cursor::with(vec![0b01_000_101, 0]);
    assert_eq!(DigestOp::read(&mut r), Err(DecodeError::ReservedInstruction(0b01_000_101)));
}

#[test]
fn bytes_round_trip() {
    let mut w = Cursor::with(vec![0u8; 10]);
    BytesOp::Fill(2, 0x0102, 0x0304, 9).write(&mut w).unwrap();
    assert_eq!(&w.bytes()[..7], &[0b00_110_011, 2, 2, 1, 4, 3, 9]);
    let mut r = Cursor::with(w.bytes().to_vec());
    match BytesOp::read(&mut r) {
        Ok(BytesOp::Fill(2, 0x0102, 0x0304, 9)) => {},
        other => panic!("{:?}", other),
    }
    let mut w = Cursor::with(vec![0u8; 10]);
    BytesOp::Split(1, 7, 2, 3).write(&mut w).unwrap();
    let mut r = Cursor::with(w.bytes().to_vec());
    match BytesOp::read(&mut r) {
        Ok(BytesOp::Split(1, 7, 2, 3)) => {},
        other => panic!("{:?}", other),
    }
}

#[test]
fn bytes_put_round_trip() {
    let mut w = Cursor::with(vec![0u8; 12]);
    BytesOp::Put(4, ByteStr::with(b"abc")).write(&mut w).unwrap();
    assert_eq!(&w.bytes()[..7], &[0b00_110_000, 4, 3, 0, b'a', b'b', b'c']);
    let mut r = Cursor::with(w.bytes().to_vec());
    match BytesOp::read(&mut r) {
        Ok(BytesOp::Put(4, s)) => assert_eq!(s.to_vec(), b"abc".to_vec()),
        other => panic!("{:?}", other),
    }
}

#[test]
fn bytes_ins_and_del_codes_are_exchanged() {
    assert_eq!(BytesOp::Ins(1, 2, 3).instr_byte(), 0b00_111_110);
    assert_eq!(BytesOp::Del(1, 2, 3).instr_byte(), 0b00_111_101);
    let mut w = Cursor::with(vec![0u8; 6]);
    BytesOp::Ins(1, 2, 3).write(&mut w).unwrap();
    let mut r = Cursor::with(w.bytes().to_vec());
    match BytesOp::read(&mut r) {
        Ok(BytesOp::Del(1, 0x0302, 0)) => {},
        other => panic!("{:?}", other),
    }
}

#[test]
fn bytes_extract_flag() {
    let mut w = Cursor::with(vec![0u8; 4]);
    BytesOp::Extr(Reg32::Reg1, Reg32::Reg2, RegBlockAR::A, Reg32::Reg3).write(&mut w).unwrap();
    assert_eq!(w.pos(), 3);
    let mut short = Cursor::with(vec![0b00_110_001]);
    let _ = &mut short;
    assert_eq!(CursorError::Eof, CursorError::Eof);
}

#[test]
fn compare_round_trip() {
    let ops = [
        CmpOp::GtR(RegR::R256, Reg16::Reg5, RegR::R160, Reg32::Reg9),
        CmpOp::LtR(RegR::R8192, Reg16::Reg15, RegR::R128, Reg32::Reg31),
        CmpOp::EqA(RegA::A16, Reg32::Reg3, RegA::A1024, Reg32::Reg30),
        CmpOp::EqR(RegR::R512, Reg32::Reg0, RegR::R4096, Reg32::Reg12),
        CmpOp::Len(RegA::A128, Reg32::Reg7),
        CmpOp::Cnt(RegA::A8, Reg32::Reg1),
        CmpOp::St2A,
        CmpOp::A2St,
    ];
    for op in ops {
        let mut w = Cursor::with(vec![0u8; 3]);
        op.write(&mut w).unwrap();
        assert_eq!(w.pos(), op.byte_count());
        let mut r = Cursor::with(w.bytes().to_vec());
        assert_eq!(CmpOp::read(&mut r), Ok(op));
        assert_eq!(r.pos(), op.byte_count());
    }
}

#[test]
fn compare_general_layout() {
    let mut w = Cursor::with(vec![0u8; 3]);
    CmpOp::GtR(RegR::R256, Reg16::Reg5, RegR::R160, Reg32::Reg9).write(&mut w).unwrap();
    assert_eq!(w.bytes(), &[0b00_011_000, 1 | (2 << 1) | (5 << 4), 1 | (9 << 3)]);
}

#[test]
fn compare_without_arguments() {
    let mut w = Cursor::with(vec![0u8; 2]);
    CmpOp::A2St.write(&mut w).unwrap();
    assert_eq!(w.bytes(), &[0b00_011_111, 0]);
    assert_eq!(CmpOp::St2A.byte_count(), 1);
    assert_eq!(CmpOp::instr_range(), (0b00_011_000, 0b00_011_111));
}
