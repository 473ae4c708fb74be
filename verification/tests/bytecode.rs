use aluvm::bytecode::{DecodeError, EncodeError};
use aluvm::codec::CursorError;
use aluvm::cursor::Cursor;
use aluvm::isa::{ControlFlowOp, Secp256k1Op};
use aluvm::library::{LibId, LibSite};
use aluvm::reg::{Reg32, Reg8, RegBlockAR};

#[test]
fn cursor_bits_and_words() {
    let mut c = Cursor::with(vec![0; 4]);
    c.write_u3(5).unwrap();
    c.write_u5(17).unwrap();
    assert_eq!(c.pos(), 1);
    c.write_u16(0xABCD).unwrap();
    assert_eq!(c.bytes(), &[5 | (17 << 3), 0xCD, 0xAB, 0]);
    c.seek(0);
    assert_eq!(c.read_u3(), Ok(5));
    assert_eq!(c.read_u5(), Ok(17));
    assert_eq!(c.read_u16(), Ok(0xABCD));
    assert_eq!(c.pos(), 3);
    assert!(!c.is_end());
    assert_eq!(c.peek_u8(), Ok(0));
    assert_eq!(c.read_u8(), Ok(0));
    assert!(c.is_end());
}

#[test]
fn cursor_fields_do_not_cross_bytes() {
    let mut c = Cursor::with(vec![0; 2]);
    c.write_u6(0).unwrap();
    c.write_u5(0b11111).unwrap();
    // only the two bits that fit in the first byte are kept
    assert_eq!(c.bytes(), &[0b1100_0000, 0]);
    // seeking keeps the bit offset, so read from a fresh cursor
    let mut c = Cursor::with(c.bytes().to_vec());
    c.read_u6().unwrap();
    assert_eq!(c.read_u5(), Ok(0b11));
}

#[test]
fn cursor_ends_past_the_last_offset() {
    let mut c = Cursor::with(vec![0; 0x1_0000]);
    c.seek(u16::MAX);
    assert_eq!(c.read_u8(), Ok(0));
    assert!(c.is_eof());
    assert_eq!(c.read_u8(), Err(CursorError::Eof));
    assert_eq!(c.read_u2(), Err(CursorError::Eof));
    let mut c = Cursor::with(vec![0; 0x1_0000]);
    c.seek(u16::MAX - 1);
    assert_eq!(c.read_u16(), Err(CursorError::OutOfBoundaries(0x1_0000)));
}

#[test]
fn control_flow_bytecode_reads_back() {
    let site = LibSite::with(0x1234, LibId::new(1, 2));
    let ops = [
        ControlFlowOp::Fail,
        ControlFlowOp::Succ,
        ControlFlowOp::Jmp(7),
        ControlFlowOp::Jif(0xFFFF),
        ControlFlowOp::Routine(3),
        ControlFlowOp::Call(site),
        ControlFlowOp::Exec(site),
        ControlFlowOp::Ret,
    ];
    let total: usize = ops.iter().map(|op| op.byte_count() as usize).sum();
    assert_eq!(total, 1 + 1 + 3 + 3 + 3 + 35 + 35 + 1);
    let mut c = Cursor::with(vec![0; total]);
    for op in &ops {
        op.write(&mut c).unwrap();
    }
    assert_eq!(c.pos() as usize, total);
    assert_eq!(&c.bytes()[2..5], &[0x02, 7, 0]);
    assert_eq!(&c.bytes()[11..14], &[0x05, 0x34, 0x12]);
    c.seek(0);
    for op in &ops {
        assert_eq!(ControlFlowOp::read(&mut c), Ok(*op));
    }
}

#[test]
fn control_flow_bytecode_errors() {
    let mut c = Cursor::with(vec![0; 0x1_0002]);
    c.seek(u16::MAX - 1);
    assert_eq!(
        ControlFlowOp::Jmp(1).write(&mut c),
        Err(EncodeError::Cursor(CursorError::OutOfBoundaries(0x1_0001)))
    );
    let mut c = Cursor::with(vec![0; 0x1_0000]);
    c.seek(u16::MAX);
    assert_eq!(ControlFlowOp::Ret.write(&mut c), Ok(()));
    assert!(c.is_eof());
    assert_eq!(ControlFlowOp::read(&mut c), Err(DecodeError::Cursor(CursorError::Eof)));
}

#[test]
fn secp_bytecode_reads_back() {
    let ops = [
        Secp256k1Op::Gen(Reg32::Reg17, Reg8::Reg3),
        Secp256k1Op::Mul(RegBlockAR::A, Reg32::Reg31, Reg32::Reg3, Reg32::Reg30),
        Secp256k1Op::Add(Reg32::Reg0, Reg8::Reg7),
        Secp256k1Op::Neg(Reg32::Reg9, Reg8::Reg1),
    ];
    let mut c = Cursor::with(vec![0; 9]);
    for op in &ops {
        op.write(&mut c).unwrap();
    }
    assert_eq!(c.pos(), 9);
    assert_eq!(c.bytes()[0], 0b01_001_000);
    c.seek(0);
    for op in &ops {
        assert_eq!(Secp256k1Op::read(&mut c), Ok(*op));
    }
    // the point register of a multiplication keeps its two low bits only
    let mut c = Cursor::with(vec![0; 3]);
    Secp256k1Op::Mul(RegBlockAR::R, Reg32::Reg1, Reg32::Reg6, Reg32::Reg2).write(&mut c).unwrap();
    c.seek(0);
    assert_eq!(
        Secp256k1Op::read(&mut c),
        Ok(Secp256k1Op::Mul(RegBlockAR::R, Reg32::Reg1, Reg32::Reg2, Reg32::Reg2))
    );
}

#[test]
fn slice_written_and_read_back() {
    let mut w = Cursor::with(vec![0u8; 20]);
    assert_eq!(w.write_slice(&[1, 2, 3]), Ok(()));
    assert_eq!(w.pos(), 7);
    assert_eq!(&w.bytes()[..6], &[3, 0, 1, 2, 3, 0]);
    let mut r = Cursor::with(w.bytes().to_vec());
    assert_eq!(r.read_slice(), Ok(vec![1, 2, 3]));
    assert_eq!(r.pos(), 7);
}

#[test]
fn slice_too_long() {
    let mut w = Cursor::with(vec![0u8; 4]);
    let long = vec![0u8; 0xFFFF];
    assert_eq!(w.write_slice(&long), Err(CursorError::OutOfBoundaries(0xFFFF)));
    assert_eq!(w.pos(), 0);
}
