use aluvm::bytecode::{DecodeError, EncodeError};
use aluvm::codec::CursorError;
use aluvm::decode::disassemble;
use aluvm::isa::ControlFlowOp;
use aluvm::library::Lib;
use aluvm::bytestr::ByteStr;
use aluvm::op_codes::{ArithmeticOp, BitwiseOp, BytesOp, DigestOp, MoveOp};
use aluvm::op_types::NumType;
use aluvm::program::{compile, Instr};
use aluvm::reg::{Reg32, Reg8, RegA};

fn debug(code: &[Instr]) -> String {
    format!("{:?}", code)
}

#[test]
fn compile_control_flow_bytes() {
    let code = vec![
        Instr::ControlFlow(ControlFlowOp::Succ),
        Instr::ControlFlow(ControlFlowOp::Jmp(0x1234)),
        Instr::ControlFlow(ControlFlowOp::Ret),
    ];
    let bytes = compile(&code).unwrap();
    assert_eq!(bytes.to_vec(), vec![0x01, 0x02, 0x34, 0x12, 0x07]);
}

#[test]
fn compile_then_disassemble() {
    let code = vec![
        Instr::ControlFlow(ControlFlowOp::Jif(9)),
        Instr::Move(MoveOp::SwpA(RegA::A16, Reg32::Reg3, RegA::A1024, Reg32::Reg31)),
        Instr::Move(MoveOp::AMov(RegA::A64, RegA::A32, NumType::Float52)),
        Instr::ControlFlow(ControlFlowOp::Fail),
    ];
    let bytes = compile(&code).unwrap().to_vec();
    assert_eq!(bytes.len(), 3 + 3 + 2 + 1);
    let back = disassemble(&bytes).unwrap();
    assert_eq!(debug(&back), debug(&code));
}

#[test]
fn compile_refuses_overflowing_code() {
    let code: Vec<Instr> = (0..65536).map(|_| Instr::ControlFlow(ControlFlowOp::Succ)).collect();
    assert_eq!(
        compile(&code).err(),
        Some(EncodeError::Cursor(CursorError::OutOfBoundaries(65536)))
    );
    let fits: Vec<Instr> = (0..65535).map(|_| Instr::ControlFlow(ControlFlowOp::Succ)).collect();
    assert_eq!(compile(&fits).unwrap().to_vec().len(), 65535);
}

#[test]
fn disassemble_errors() {
    let long = vec![0u8; 65536];
    assert_eq!(
        disassemble(&long).err(),
        Some(DecodeError::Cursor(CursorError::OutOfBoundaries(65536)))
    );
    assert_eq!(disassemble(&[0x02, 0x34]).err(), Some(DecodeError::Cursor(CursorError::Eof)));
    assert_eq!(disassemble(&[0x01, 0xC0]).err(), Some(DecodeError::ReservedInstruction(0xC0)));
    assert_eq!(disassemble(&[0xFF]).err(), Some(DecodeError::UnknownInstruction(0xFF)));
    assert_eq!(disassemble(&[0x80]).err(), Some(DecodeError::UnknownInstruction(0x80)));
    assert_eq!(disassemble(&[0x4C]).err(), Some(DecodeError::UnknownInstruction(0x4C)));
    assert_eq!(disassemble(&[]).unwrap().len(), 0);
}

#[test]
fn disassemble_arithmetic() {
    let code = vec![Instr::Arithmetic(ArithmeticOp::Neg(RegA::A8, Reg32::Reg1))];
    let bytes = compile(&code).unwrap().to_vec();
    assert_eq!(bytes.len(), 2);
    assert_eq!(debug(&disassemble(&bytes).unwrap()), debug(&code));
}

#[test]
fn library_assemble_encode_decode() {
    let code = vec![
        Instr::ControlFlow(ControlFlowOp::Succ),
        Instr::ControlFlow(ControlFlowOp::Routine(3)),
    ];
    let lib = Lib::assemble(&code).unwrap();
    assert_eq!(lib.byte_count(), 4);
    assert_eq!(lib.encode(), vec![0x01, 0x04, 0x03, 0x00]);
    assert_eq!(lib.data_segment().len(), 0);
    assert_eq!(debug(&lib.disassemble().unwrap()), debug(&code));
    let again = Lib::decode(&lib.encode()).unwrap();
    assert_eq!(again.encode(), lib.encode());
    assert!(Lib::decode(&[0x05]).is_none());
    assert!(Lib::decode(&[0xC3]).is_none());
}

#[test]
fn disassemble_mixed_groups() {
    let code = vec![
        Instr::Bitwise(BitwiseOp::Scl(RegA::A32, Reg32::Reg1, Reg32::Reg2, Reg8::Reg7)),
        Instr::Digest(DigestOp::Sha256(Reg32::Reg17, Reg8::Reg3)),
        Instr::Bytes(BytesOp::Fill(2, 0x0102, 0x0304, 9)),
        Instr::Bytes(BytesOp::Put(4, ByteStr::with(b"abc"))),
        Instr::ControlFlow(ControlFlowOp::Ret),
    ];
    let bytes = compile(&code).unwrap().to_vec();
    assert_eq!(bytes.len(), 3 + 2 + 7 + (6 + 3) + 1);
    let back = disassemble(&bytes).unwrap();
    assert_eq!(back.len(), 5);
    assert_eq!(debug(&back), debug(&code));
}
