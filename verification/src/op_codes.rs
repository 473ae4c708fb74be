//! Move, arithmetic, bitwise, byte string and digest instructions of the bytecode format, with their encoding: an operation
//! code byte, then the arguments as bit fields (see [`crate::fields`]).

use vstd::prelude::*;

use crate::bytecode::{decode_failure, encode_failure, reg8_of, reg8_with, DecodeError, EncodeError};
use crate::bytestr::{content, padded, ByteStr, ByteStrModel};
use crate::cursor::{
    read_slice_fit, read_slice_step, read_u8_step, write_slice_fit, write_slice_step,
    write_u8_step, Cursor, CursorModel, Step,
};
use crate::fields::{
    fields_fit, fields_step, read_fields, reads_fit, reads_step, write_fields, Field, Kind,
};
use crate::op_types::{Arithmetics, IncDec, NumType};
use crate::reg::{Reg16, Reg32, Reg8, RegA, RegBlockAR, RegR};

verus! {

/// Operation code of `swp` between arithmetic registers.
pub const INSTR_SWPA: u8 = 0b00_010_000;
/// Operation code of `swp` between general-purpose registers.
pub const INSTR_SWPR: u8 = 0b00_010_001;
/// Operation code of `swp` between an arithmetic and a general-purpose register.
pub const INSTR_SWPAR: u8 = 0b00_010_010;
/// Operation code of `amov`.
pub const INSTR_AMOV: u8 = 0b00_010_011;
/// Operation code of `mov` between arithmetic registers.
pub const INSTR_MOVA: u8 = 0b00_010_100;
/// Operation code of `mov` between general-purpose registers.
pub const INSTR_MOVR: u8 = 0b00_010_101;
/// Operation code of `mov` from an arithmetic to a general-purpose register.
pub const INSTR_MOVAR: u8 = 0b00_010_110;
/// Operation code of `mov` from a general-purpose to an arithmetic register.
pub const INSTR_MOVRA: u8 = 0b00_010_111;
/// Operation code of `neg`.
pub const INSTR_NEG: u8 = 0b00_100_000;
/// Operation code of `stp`.
pub const INSTR_STP: u8 = 0b00_100_001;
/// Operation code of `add`.
pub const INSTR_ADD: u8 = 0b00_100_010;
/// Operation code of `sub`.
pub const INSTR_SUB: u8 = 0b00_100_011;
/// Operation code of `mul`.
pub const INSTR_MUL: u8 = 0b00_100_100;
/// Operation code of `div`.
pub const INSTR_DIV: u8 = 0b00_100_101;
/// Operation code of `rem`.
pub const INSTR_REM: u8 = 0b00_100_110;
/// Operation code of `abs`.
pub const INSTR_ABS: u8 = 0b00_100_111;
/// Operation code of `put` into a string register.
pub const INSTR_PUT: u8 = 0b00_110_000;
/// Operation code of `mov` between string registers.
pub const INSTR_MOV: u8 = 0b00_110_001;
/// Operation code of `swp` between string registers.
pub const INSTR_SWP: u8 = 0b00_110_010;
/// Operation code of `fill`.
pub const INSTR_FILL: u8 = 0b00_110_011;
/// Operation code of `len` of a string.
pub const INSTR_LENS: u8 = 0b00_110_100;
/// Operation code of `count`.
pub const INSTR_COUNT: u8 = 0b00_110_101;
/// Operation code of `cmp` of strings.
pub const INSTR_CMP: u8 = 0b00_110_110;
/// Operation code of `comm`.
pub const INSTR_COMM: u8 = 0b00_110_111;
/// Operation code of `find`.
pub const INSTR_FIND: u8 = 0b00_111_000;
/// Operation code of `extr`.
pub const INSTR_EXTR: u8 = 0b00_111_001;
/// Operation code of `inj`.
pub const INSTR_INJ: u8 = 0b00_111_010;
/// Operation code of `join`.
pub const INSTR_JOIN: u8 = 0b00_111_011;
/// Operation code of `split`.
pub const INSTR_SPLIT: u8 = 0b00_111_100;
/// Operation code of `ins`.
pub const INSTR_INS: u8 = 0b00_111_101;
/// Operation code of `del`.
pub const INSTR_DEL: u8 = 0b00_111_110;
/// Operation code of `transl`.
pub const INSTR_TRANSL: u8 = 0b00_111_111;

/// Instructions moving and swapping register values.
#[derive(Clone, Copy, PartialEq, Eq, Structural, Debug, Hash)]
pub enum MoveOp {
    /// Swaps two arithmetic registers.
    SwpA(RegA, Reg32, RegA, Reg32),
    /// Swaps two general-purpose registers.
    SwpR(RegR, Reg32, RegR, Reg32),
    /// Swaps an arithmetic and a general-purpose register.
    SwpAR(RegA, Reg32, RegR, Reg32),
    /// Copies all registers of a block into another, as numbers of a type.
    AMov(RegA, RegA, NumType),
    /// Copies an arithmetic register into another.
    MovA(RegA, Reg32, RegA, Reg32),
    /// Copies a general-purpose register into another.
    MovR(RegR, Reg32, RegR, Reg32),
    /// Copies an arithmetic register into a general-purpose one.
    MovAR(RegA, Reg32, RegR, Reg32),
    /// Copies a general-purpose register into an arithmetic one.
    MovRA(RegR, Reg32, RegA, Reg32),
}

/// Arithmetic instructions.
#[derive(Clone, Copy, PartialEq, Eq, Structural, Debug, Hash)]
pub enum ArithmeticOp {
    /// Negates a register.
    Neg(RegA, Reg32),
    /// Steps a register up or down by a 4-bit amount.
    Stp(IncDec, Arithmetics, RegA, Reg32, u8),
    /// Adds two registers.
    Add(Arithmetics, RegA, Reg32, Reg32),
    /// Subtracts two registers.
    Sub(Arithmetics, RegA, Reg32, Reg32),
    /// Multiplies two registers.
    Mul(Arithmetics, RegA, Reg32, Reg32),
    /// Divides two registers.
    Div(Arithmetics, RegA, Reg32, Reg32),
    /// Modulo division of two registers.
    Rem(Arithmetics, RegA, Reg32, Reg32),
    /// Absolute value of a register.
    Abs(RegA, Reg32),
}

/// Instructions on byte strings.
#[derive(Debug)]
pub enum BytesOp {
    /// Puts a string into a string register.
    Put(u8, ByteStr),
    /// Moves a string between registers.
    Mov(u8, u8),
    /// Swaps the strings of two registers.
    Swp(u8, u8),
    /// Fills a range of a string with a byte.
    Fill(u8, u16, u16, u8),
    /// Length of a string.
    LenS(u8),
    /// Occurrences of a byte in a string.
    Count(u8, u8),
    /// Compares two strings.
    Cmp(u8, u8),
    /// Length of the fragment two strings share.
    Comm(u8, u8),
    /// Occurrences of a string in another.
    Find(u8, u8),
    /// Extracts a slice of a string into an `a` or `r` register.
    Extr(Reg32, Reg32, RegBlockAR, Reg32),
    /// Injects an `a` or `r` value into a string.
    Inj(Reg32, Reg32, RegBlockAR, Reg32),
    /// Joins two strings.
    Join(u8, u8, u8),
    /// Splits a string at an offset.
    Split(u8, u16, u8, u8),
    /// Inserts a string into another at an offset.
    Ins(u8, u8, u16),
    /// Deletes a range of a string.
    Del(u8, u16, u16),
    /// Moves a range of a string into another register.
    Transl(u8, u16, u16, u8),
}

/// 3-bit code of an arithmetic register block.
pub open spec fn a_code(r: RegA) -> u8 {
    r.spec_block() as u8
}

/// 3-bit code of a general-purpose register block.
pub open spec fn r_code(r: RegR) -> u8 {
    r.spec_block() as u8
}

/// 5-bit code of a register index.
pub open spec fn i_code(i: Reg32) -> u8 {
    i.spec_to_usize() as u8
}

/// Arithmetic register block of a 3-bit code.
pub open spec fn a_of(v: u16) -> RegA {
    if v == 0 {
        RegA::A8
    } else if v == 1 {
        RegA::A16
    } else if v == 2 {
        RegA::A32
    } else if v == 3 {
        RegA::A64
    } else if v == 4 {
        RegA::A128
    } else if v == 5 {
        RegA::A256
    } else if v == 6 {
        RegA::A512
    } else {
        RegA::A1024
    }
}

/// General-purpose register block of a 3-bit code.
pub open spec fn r_of(v: u16) -> RegR {
    if v == 0 {
        RegR::R128
    } else if v == 1 {
        RegR::R160
    } else if v == 2 {
        RegR::R256
    } else if v == 3 {
        RegR::R512
    } else if v == 4 {
        RegR::R1024
    } else if v == 5 {
        RegR::R2048
    } else if v == 6 {
        RegR::R4096
    } else {
        RegR::R8192
    }
}

/// Register index of a 5-bit code.
pub open spec fn i_of(v: u16) -> Reg32 {
    Reg32::spec_with((v % 32) as nat)
}

/// Number type of a 2-bit code.
pub open spec fn nt_of(v: u16) -> NumType {
    if v == 0 {
        NumType::Unsigned
    } else if v == 1 {
        NumType::Signed
    } else if v == 2 {
        NumType::Float23
    } else {
        NumType::Float52
    }
}

/// Arithmetic kind of a 3-bit code.
pub open spec fn ar_of(v: u16) -> Arithmetics {
    if v == 0 {
        Arithmetics::IntChecked { signed: false }
    } else if v == 1 {
        Arithmetics::IntUnchecked { signed: false }
    } else if v == 2 {
        Arithmetics::IntArbitraryPrecision { signed: false }
    } else if v == 3 {
        Arithmetics::IntChecked { signed: true }
    } else if v == 4 {
        Arithmetics::IntUnchecked { signed: true }
    } else if v == 5 {
        Arithmetics::IntArbitraryPrecision { signed: true }
    } else if v == 6 {
        Arithmetics::Float
    } else {
        Arithmetics::FloatArbitraryPrecision
    }
}

pub(crate) fn a_from(v: u16) -> (r: RegA)
    ensures
        r == a_of(v),
{
    if v == 0 {
        RegA::A8
    } else if v == 1 {
        RegA::A16
    } else if v == 2 {
        RegA::A32
    } else if v == 3 {
        RegA::A64
    } else if v == 4 {
        RegA::A128
    } else if v == 5 {
        RegA::A256
    } else if v == 6 {
        RegA::A512
    } else {
        RegA::A1024
    }
}

pub(crate) fn r_from(v: u16) -> (r: RegR)
    ensures
        r == r_of(v),
{
    if v == 0 {
        RegR::R128
    } else if v == 1 {
        RegR::R160
    } else if v == 2 {
        RegR::R256
    } else if v == 3 {
        RegR::R512
    } else if v == 4 {
        RegR::R1024
    } else if v == 5 {
        RegR::R2048
    } else if v == 6 {
        RegR::R4096
    } else {
        RegR::R8192
    }
}

fn i_from(v: u16) -> (r: Reg32)
    ensures
        r == i_of(v),
{
    Reg32::with((v % 32) as u8)
}

fn nt_from(v: u16) -> (r: NumType)
    ensures
        r == nt_of(v),
{
    if v == 0 {
        NumType::Unsigned
    } else if v == 1 {
        NumType::Signed
    } else if v == 2 {
        NumType::Float23
    } else {
        NumType::Float52
    }
}

fn ar_from(v: u16) -> (r: Arithmetics)
    ensures
        r == ar_of(v),
{
    if v == 0 {
        Arithmetics::IntChecked { signed: false }
    } else if v == 1 {
        Arithmetics::IntUnchecked { signed: false }
    } else if v == 2 {
        Arithmetics::IntArbitraryPrecision { signed: false }
    } else if v == 3 {
        Arithmetics::IntChecked { signed: true }
    } else if v == 4 {
        Arithmetics::IntUnchecked { signed: true }
    } else if v == 5 {
        Arithmetics::IntArbitraryPrecision { signed: true }
    } else if v == 6 {
        Arithmetics::Float
    } else {
        Arithmetics::FloatArbitraryPrecision
    }
}

fn a_bits(r: RegA) -> (f: Field)
    ensures
        f == Field::Bits(a_code(r), 3),
{
    Field::Bits(r.block() as u8, 3)
}

fn r_bits(r: RegR) -> (f: Field)
    ensures
        f == Field::Bits(r_code(r), 3),
{
    Field::Bits(r.block() as u8, 3)
}

fn i_bits(i: Reg32) -> (f: Field)
    ensures
        f == Field::Bits(i_code(i), 5),
{
    Field::Bits(i.to_usize() as u8, 5)
}

/// A register pair followed by another: block codes of three bits and indexes of five.
pub open spec fn quad(a: u8, i: Reg32, b: u8, j: Reg32) -> Seq<Field> {
    seq![Field::Bits(a, 3), Field::Bits(i_code(i), 5), Field::Bits(b, 3), Field::Bits(i_code(j), 5)]
}

/// The shapes of four fields: block, index, block, index.
pub open spec fn quad_kinds() -> Seq<Kind> {
    seq![Kind::Bits(3), Kind::Bits(5), Kind::Bits(3), Kind::Bits(5)]
}

/// Operation code of a move instruction.
pub open spec fn move_code(op: MoveOp) -> u8 {
    match op {
        MoveOp::SwpA(..) => INSTR_SWPA,
        MoveOp::SwpR(..) => INSTR_SWPR,
        MoveOp::SwpAR(..) => INSTR_SWPAR,
        MoveOp::AMov(..) => INSTR_AMOV,
        MoveOp::MovA(..) => INSTR_MOVA,
        MoveOp::MovR(..) => INSTR_MOVR,
        MoveOp::MovAR(..) => INSTR_MOVAR,
        MoveOp::MovRA(..) => INSTR_MOVRA,
    }
}

/// The argument fields of a move instruction.
pub open spec fn move_fields(op: MoveOp) -> Seq<Field> {
    match op {
        MoveOp::SwpA(a, i, b, j) | MoveOp::MovA(a, i, b, j) => quad(a_code(a), i, a_code(b), j),
        MoveOp::SwpR(a, i, b, j) | MoveOp::MovR(a, i, b, j) => quad(r_code(a), i, r_code(b), j),
        MoveOp::SwpAR(a, i, b, j) | MoveOp::MovAR(a, i, b, j) => quad(a_code(a), i, r_code(b), j),
        MoveOp::MovRA(a, i, b, j) => quad(r_code(a), i, a_code(b), j),
        MoveOp::AMov(a, b, nt) => seq![
            Field::Bits(a_code(a), 3),
            Field::Bits(a_code(b), 3),
            Field::Bits(nt.spec_as_u2(), 2),
        ],
    }
}

/// The shapes of the argument fields of a move instruction with a given code.
pub open spec fn move_kinds(code: u8) -> Seq<Kind> {
    if code == INSTR_AMOV {
        seq![Kind::Bits(3), Kind::Bits(3), Kind::Bits(2)]
    } else {
        quad_kinds()
    }
}

/// The move instruction of a code (one of the eight) and its argument values.
pub open spec fn move_of(code: u8, v: Seq<u16>) -> MoveOp {
    if code == INSTR_SWPA {
        MoveOp::SwpA(a_of(v[0]), i_of(v[1]), a_of(v[2]), i_of(v[3]))
    } else if code == INSTR_SWPR {
        MoveOp::SwpR(r_of(v[0]), i_of(v[1]), r_of(v[2]), i_of(v[3]))
    } else if code == INSTR_SWPAR {
        MoveOp::SwpAR(a_of(v[0]), i_of(v[1]), r_of(v[2]), i_of(v[3]))
    } else if code == INSTR_AMOV {
        MoveOp::AMov(a_of(v[0]), a_of(v[1]), nt_of(v[2]))
    } else if code == INSTR_MOVA {
        MoveOp::MovA(a_of(v[0]), i_of(v[1]), a_of(v[2]), i_of(v[3]))
    } else if code == INSTR_MOVR {
        MoveOp::MovR(r_of(v[0]), i_of(v[1]), r_of(v[2]), i_of(v[3]))
    } else if code == INSTR_MOVAR {
        MoveOp::MovAR(a_of(v[0]), i_of(v[1]), r_of(v[2]), i_of(v[3]))
    } else {
        MoveOp::MovRA(r_of(v[0]), i_of(v[1]), a_of(v[2]), i_of(v[3]))
    }
}

/// Operation code of an arithmetic instruction.
pub open spec fn arith_code(op: ArithmeticOp) -> u8 {
    match op {
        ArithmeticOp::Neg(..) => INSTR_NEG,
        ArithmeticOp::Stp(..) => INSTR_STP,
        ArithmeticOp::Add(..) => INSTR_ADD,
        ArithmeticOp::Sub(..) => INSTR_SUB,
        ArithmeticOp::Mul(..) => INSTR_MUL,
        ArithmeticOp::Div(..) => INSTR_DIV,
        ArithmeticOp::Rem(..) => INSTR_REM,
        ArithmeticOp::Abs(..) => INSTR_ABS,
    }
}

/// The argument fields of an arithmetic instruction: the register first, the kind of
/// arithmetic last.
pub open spec fn arith_fields(op: ArithmeticOp) -> Seq<Field> {
    match op {
        ArithmeticOp::Neg(a, i) | ArithmeticOp::Abs(a, i) => seq![
            Field::Bits(a_code(a), 3),
            Field::Bits(i_code(i), 5),
        ],
        ArithmeticOp::Stp(d, ar, a, i, step) => seq![
            Field::Bits(a_code(a), 3),
            Field::Bits(i_code(i), 5),
            Field::Bits(step, 4),
            Field::Bits(if d == IncDec::Dec { 1u8 } else { 0u8 }, 1),
            Field::Bits(ar.spec_as_u3(), 3),
        ],
        ArithmeticOp::Add(ar, a, i, j) | ArithmeticOp::Sub(ar, a, i, j) | ArithmeticOp::Mul(
            ar,
            a,
            i,
            j,
        ) | ArithmeticOp::Div(ar, a, i, j) | ArithmeticOp::Rem(ar, a, i, j) => seq![
            Field::Bits(a_code(a), 3),
            Field::Bits(i_code(i), 5),
            Field::Bits(i_code(j), 5),
            Field::Bits(ar.spec_as_u3(), 3),
        ],
    }
}

/// The shapes of the argument fields of an arithmetic instruction with a given code.
pub open spec fn arith_kinds(code: u8) -> Seq<Kind> {
    if code == INSTR_NEG || code == INSTR_ABS {
        seq![Kind::Bits(3), Kind::Bits(5)]
    } else if code == INSTR_STP {
        seq![Kind::Bits(3), Kind::Bits(5), Kind::Bits(4), Kind::Bits(1), Kind::Bits(3)]
    } else {
        seq![Kind::Bits(3), Kind::Bits(5), Kind::Bits(5), Kind::Bits(3)]
    }
}

/// The arithmetic instruction of a code (one of the eight) and its argument values.
pub open spec fn arith_of(code: u8, v: Seq<u16>) -> ArithmeticOp {
    if code == INSTR_NEG {
        ArithmeticOp::Neg(a_of(v[0]), i_of(v[1]))
    } else if code == INSTR_ABS {
        ArithmeticOp::Abs(a_of(v[0]), i_of(v[1]))
    } else if code == INSTR_STP {
        ArithmeticOp::Stp(
            if v[3] == 1 { IncDec::Dec } else { IncDec::Inc },
            ar_of(v[4]),
            a_of(v[0]),
            i_of(v[1]),
            v[2] as u8,
        )
    } else if code == INSTR_ADD {
        ArithmeticOp::Add(ar_of(v[3]), a_of(v[0]), i_of(v[1]), i_of(v[2]))
    } else if code == INSTR_SUB {
        ArithmeticOp::Sub(ar_of(v[3]), a_of(v[0]), i_of(v[1]), i_of(v[2]))
    } else if code == INSTR_MUL {
        ArithmeticOp::Mul(ar_of(v[3]), a_of(v[0]), i_of(v[1]), i_of(v[2]))
    } else if code == INSTR_DIV {
        ArithmeticOp::Div(ar_of(v[3]), a_of(v[0]), i_of(v[1]), i_of(v[2]))
    } else {
        ArithmeticOp::Rem(ar_of(v[3]), a_of(v[0]), i_of(v[1]), i_of(v[2]))
    }
}

/// Writing an instruction: its code byte, then its argument fields.
pub open spec fn code_then_fields(m: CursorModel, code: u8, fs: Seq<Field>) -> Step<()> {
    match write_u8_step(m, code) {
        (m1, Ok(_)) => fields_step(m1, fs),
        (m1, Err(e)) => (m1, Err(e)),
    }
}

/// What writing a code byte and then fields needs of the cursor.
pub open spec fn code_then_fields_fit(m: CursorModel, code: u8, fs: Seq<Field>) -> bool {
    &&& m.bit_pos == 0
    &&& m.byte_pos < m.bytes.len()
    &&& write_u8_step(m, code).1 is Ok ==> fields_fit(write_u8_step(m, code).0, fs)
}

/// Reading an instruction: its code byte, then the fields its code calls for, made into an
/// instruction.
pub open spec fn read_code_then<T>(
    m: CursorModel,
    kinds: spec_fn(u8) -> Seq<Kind>,
    make: spec_fn(u8, Seq<u16>) -> T,
) -> Step<T> {
    match read_u8_step(m) {
        (m1, Ok(code)) => match reads_step(m1, kinds(code)) {
            (m2, Ok(vs)) => (m2, Ok(make(code, vs))),
            (m2, Err(e)) => (m2, Err(e)),
        },
        (m1, Err(e)) => (m1, Err(e)),
    }
}

/// What reading a code byte and then its fields needs of the cursor: unless it is at its end,
/// a byte boundary, a code in `lo..=hi`, and room for the fields.
pub open spec fn read_code_fit(m: CursorModel, lo: u8, hi: u8, kinds: spec_fn(u8) -> Seq<Kind>) -> bool {
    !m.eof ==> {
        &&& m.bit_pos == 0
        &&& m.byte_pos < m.bytes.len()
        &&& lo <= m.bytes[m.byte_pos as int] <= hi
        &&& read_u8_step(m).1 is Ok ==> reads_fit(read_u8_step(m).0, kinds(m.bytes[m.byte_pos as int]))
    }
}

/// Writing the arguments of a move instruction.
pub open spec fn move_args_step(op: MoveOp, m: CursorModel) -> Step<()> {
    fields_step(m, move_fields(op))
}

/// Writing a move instruction.
pub open spec fn move_write_step(op: MoveOp, m: CursorModel) -> Step<()> {
    code_then_fields(m, move_code(op), move_fields(op))
}

/// Reading a move instruction.
pub open spec fn move_read_step(m: CursorModel) -> Step<MoveOp> {
    read_code_then(m, |c: u8| move_kinds(c), |c: u8, v: Seq<u16>| move_of(c, v))
}

/// Writing the arguments of an arithmetic instruction.
pub open spec fn arith_args_step(op: ArithmeticOp, m: CursorModel) -> Step<()> {
    fields_step(m, arith_fields(op))
}

/// Writing an arithmetic instruction.
pub open spec fn arith_write_step(op: ArithmeticOp, m: CursorModel) -> Step<()> {
    code_then_fields(m, arith_code(op), arith_fields(op))
}

/// Reading an arithmetic instruction.
pub open spec fn arith_read_step(m: CursorModel) -> Step<ArithmeticOp> {
    read_code_then(m, |c: u8| arith_kinds(c), |c: u8, v: Seq<u16>| arith_of(c, v))
}

/// Writes a code byte, then fields.
fn write_code_then_fields(c: &mut Cursor, code: u8, fs: &Vec<Field>) -> (r: Result<(), EncodeError>)
    requires
        old(c).wf(),
        code_then_fields_fit(old(c)@, code, fs@),
    ensures
        final(c).wf(),
        final(c)@ == code_then_fields(old(c)@, code, fs@).0,
        r == encode_failure(code_then_fields(old(c)@, code, fs@).1),
{
    match c.write_u8(code) {
        Ok(()) => {},
        Err(e) => return Err(EncodeError::Cursor(e)),
    }
    match write_fields(c, fs) {
        Ok(()) => Ok(()),
        Err(e) => Err(EncodeError::Cursor(e)),
    }
}

impl MoveOp {
    /// Number of bytes of the instruction with its arguments.
    pub fn byte_count(&self) -> (r: u16)
        ensures
            r == (if *self is AMov { 2u16 } else { 3u16 }),
    {
        match self {
            MoveOp::AMov(..) => 2,
            _ => 3,
        }
    }

    /// Range of the operation codes of move instructions.
    pub fn instr_range() -> (r: (u8, u8))
        ensures
            r == (INSTR_SWPA, INSTR_MOVRA),
    {
        (INSTR_SWPA, INSTR_MOVRA)
    }

    /// Operation code of the instruction.
    pub fn instr_byte(&self) -> (r: u8)
        ensures
            r == move_code(*self),
    {
        match self {
            MoveOp::SwpA(..) => INSTR_SWPA,
            MoveOp::SwpR(..) => INSTR_SWPR,
            MoveOp::SwpAR(..) => INSTR_SWPAR,
            MoveOp::AMov(..) => INSTR_AMOV,
            MoveOp::MovA(..) => INSTR_MOVA,
            MoveOp::MovR(..) => INSTR_MOVR,
            MoveOp::MovAR(..) => INSTR_MOVAR,
            MoveOp::MovRA(..) => INSTR_MOVRA,
        }
    }

    /// Argument fields of the instruction.
    pub fn fields(&self) -> (r: Vec<Field>)
        ensures
            r@ == move_fields(*self),
    {
        let r = match *self {
            MoveOp::SwpA(a, i, b, j) | MoveOp::MovA(a, i, b, j) => vec![a_bits(a), i_bits(i), a_bits(b), i_bits(j)],
            MoveOp::SwpR(a, i, b, j) | MoveOp::MovR(a, i, b, j) => vec![r_bits(a), i_bits(i), r_bits(b), i_bits(j)],
            MoveOp::SwpAR(a, i, b, j) | MoveOp::MovAR(a, i, b, j) => vec![a_bits(a), i_bits(i), r_bits(b), i_bits(j)],
            MoveOp::MovRA(a, i, b, j) => vec![r_bits(a), i_bits(i), a_bits(b), i_bits(j)],
            MoveOp::AMov(a, b, nt) => vec![a_bits(a), a_bits(b), Field::Bits(nt.as_u2(), 2)],
        };
        assert(r@ =~= move_fields(*self));
        r
    }

    /// Writes the arguments of the instruction, without its code.
    pub fn write_args(&self, c: &mut Cursor) -> (r: Result<(), EncodeError>)
        requires
            old(c).wf(),
            fields_fit(old(c)@, move_fields(*self)),
        ensures
            final(c).wf(),
            final(c)@ == move_args_step(*self, old(c)@).0,
            r == encode_failure(move_args_step(*self, old(c)@).1),
    {
        let fs = self.fields();
        match write_fields(c, &fs) {
            Ok(()) => Ok(()),
            Err(e) => Err(EncodeError::Cursor(e)),
        }
    }

    /// Writes the instruction: its code, then its arguments.
    pub fn write(&self, c: &mut Cursor) -> (r: Result<(), EncodeError>)
        requires
            old(c).wf(),
            code_then_fields_fit(old(c)@, move_code(*self), move_fields(*self)),
        ensures
            final(c).wf(),
            final(c)@ == move_write_step(*self, old(c)@).0,
            r == encode_failure(move_write_step(*self, old(c)@).1),
    {
        let fs = self.fields();
        write_code_then_fields(c, self.instr_byte(), &fs)
    }

    /// Reads a move instruction; the code at the cursor must be one of the eight.
    pub fn read(c: &mut Cursor) -> (r: Result<MoveOp, DecodeError>)
        requires
            old(c).wf(),
            read_code_fit(old(c)@, INSTR_SWPA, INSTR_MOVRA, |k: u8| move_kinds(k)),
        ensures
            final(c).wf(),
            final(c)@ == move_read_step(old(c)@).0,
            r == decode_failure(move_read_step(old(c)@).1),
    {
        let code = match c.read_u8() {
            Ok(b) => b,
            Err(e) => return Err(DecodeError::Cursor(e)),
        };
        let ghost m1 = c@;
        let ks = if code == INSTR_AMOV {
            vec![Kind::Bits(3), Kind::Bits(3), Kind::Bits(2)]
        } else {
            vec![Kind::Bits(3), Kind::Bits(5), Kind::Bits(3), Kind::Bits(5)]
        };
        assert(ks@ =~= move_kinds(code));
        let v = match read_fields(c, &ks) {
            Ok(v) => v,
            Err(e) => return Err(DecodeError::Cursor(e)),
        };
        proof {
            crate::fields::lemma_reads_len(m1, ks@);
        }
        let op = if code == INSTR_SWPA {
            MoveOp::SwpA(a_from(v[0]), i_from(v[1]), a_from(v[2]), i_from(v[3]))
        } else if code == INSTR_SWPR {
            MoveOp::SwpR(r_from(v[0]), i_from(v[1]), r_from(v[2]), i_from(v[3]))
        } else if code == INSTR_SWPAR {
            MoveOp::SwpAR(a_from(v[0]), i_from(v[1]), r_from(v[2]), i_from(v[3]))
        } else if code == INSTR_AMOV {
            MoveOp::AMov(a_from(v[0]), a_from(v[1]), nt_from(v[2]))
        } else if code == INSTR_MOVA {
            MoveOp::MovA(a_from(v[0]), i_from(v[1]), a_from(v[2]), i_from(v[3]))
        } else if code == INSTR_MOVR {
            MoveOp::MovR(r_from(v[0]), i_from(v[1]), r_from(v[2]), i_from(v[3]))
        } else if code == INSTR_MOVAR {
            MoveOp::MovAR(a_from(v[0]), i_from(v[1]), r_from(v[2]), i_from(v[3]))
        } else {
            MoveOp::MovRA(r_from(v[0]), i_from(v[1]), a_from(v[2]), i_from(v[3]))
        };
        Ok(op)
    }
}

impl ArithmeticOp {
    /// Number of bytes of the instruction with its arguments.
    pub fn byte_count(&self) -> (r: u16)
        ensures
            r == (if *self is Neg || *self is Abs { 2u16 } else { 3u16 }),
    {
        match self {
            ArithmeticOp::Neg(..) | ArithmeticOp::Abs(..) => 2,
            _ => 3,
        }
    }

    /// Range of the operation codes of arithmetic instructions.
    pub fn instr_range() -> (r: (u8, u8))
        ensures
            r == (INSTR_NEG, INSTR_ABS),
    {
        (INSTR_NEG, INSTR_ABS)
    }

    /// Operation code of the instruction.
    pub fn instr_byte(&self) -> (r: u8)
        ensures
            r == arith_code(*self),
    {
        match self {
            ArithmeticOp::Neg(..) => INSTR_NEG,
            ArithmeticOp::Stp(..) => INSTR_STP,
            ArithmeticOp::Add(..) => INSTR_ADD,
            ArithmeticOp::Sub(..) => INSTR_SUB,
            ArithmeticOp::Mul(..) => INSTR_MUL,
            ArithmeticOp::Div(..) => INSTR_DIV,
            ArithmeticOp::Rem(..) => INSTR_REM,
            ArithmeticOp::Abs(..) => INSTR_ABS,
        }
    }

    /// Argument fields of the instruction.
    pub fn fields(&self) -> (r: Vec<Field>)
        ensures
            r@ == arith_fields(*self),
    {
        let r = match *self {
            ArithmeticOp::Neg(a, i) | ArithmeticOp::Abs(a, i) => vec![a_bits(a), i_bits(i)],
            ArithmeticOp::Stp(d, ar, a, i, step) => {
                let flag: u8 = if d == IncDec::Dec { 1 } else { 0 };
                vec![a_bits(a), i_bits(i), Field::Bits(step, 4), Field::Bits(flag, 1), Field::Bits(ar.as_u3(), 3)]
            },
            ArithmeticOp::Add(ar, a, i, j) | ArithmeticOp::Sub(ar, a, i, j) | ArithmeticOp::Mul(ar, a, i, j)
            | ArithmeticOp::Div(ar, a, i, j) | ArithmeticOp::Rem(ar, a, i, j) => {
                vec![a_bits(a), i_bits(i), i_bits(j), Field::Bits(ar.as_u3(), 3)]
            },
        };
        assert(r@ =~= arith_fields(*self));
        r
    }

    /// Writes the arguments of the instruction, without its code.
    pub fn write_args(&self, c: &mut Cursor) -> (r: Result<(), EncodeError>)
        requires
            old(c).wf(),
            fields_fit(old(c)@, arith_fields(*self)),
        ensures
            final(c).wf(),
            final(c)@ == arith_args_step(*self, old(c)@).0,
            r == encode_failure(arith_args_step(*self, old(c)@).1),
    {
        let fs = self.fields();
        match write_fields(c, &fs) {
            Ok(()) => Ok(()),
            Err(e) => Err(EncodeError::Cursor(e)),
        }
    }

    /// Writes the instruction: its code, then its arguments.
    pub fn write(&self, c: &mut Cursor) -> (r: Result<(), EncodeError>)
        requires
            old(c).wf(),
            code_then_fields_fit(old(c)@, arith_code(*self), arith_fields(*self)),
        ensures
            final(c).wf(),
            final(c)@ == arith_write_step(*self, old(c)@).0,
            r == encode_failure(arith_write_step(*self, old(c)@).1),
    {
        let fs = self.fields();
        write_code_then_fields(c, self.instr_byte(), &fs)
    }

    /// Reads an arithmetic instruction; the code at the cursor must be one of the eight.
    pub fn read(c: &mut Cursor) -> (r: Result<ArithmeticOp, DecodeError>)
        requires
            old(c).wf(),
            read_code_fit(old(c)@, INSTR_NEG, INSTR_ABS, |k: u8| arith_kinds(k)),
        ensures
            final(c).wf(),
            final(c)@ == arith_read_step(old(c)@).0,
            r == decode_failure(arith_read_step(old(c)@).1),
    {
        let code = match c.read_u8() {
            Ok(b) => b,
            Err(e) => return Err(DecodeError::Cursor(e)),
        };
        let ghost m1 = c@;
        let ks = if code == INSTR_NEG || code == INSTR_ABS {
            vec![Kind::Bits(3), Kind::Bits(5)]
        } else if code == INSTR_STP {
            vec![Kind::Bits(3), Kind::Bits(5), Kind::Bits(4), Kind::Bits(1), Kind::Bits(3)]
        } else {
            vec![Kind::Bits(3), Kind::Bits(5), Kind::Bits(5), Kind::Bits(3)]
        };
        assert(ks@ =~= arith_kinds(code));
        let v = match read_fields(c, &ks) {
            Ok(v) => v,
            Err(e) => return Err(DecodeError::Cursor(e)),
        };
        proof {
            crate::fields::lemma_reads_len(m1, ks@);
        }
        let op = if code == INSTR_NEG {
            ArithmeticOp::Neg(a_from(v[0]), i_from(v[1]))
        } else if code == INSTR_ABS {
            ArithmeticOp::Abs(a_from(v[0]), i_from(v[1]))
        } else if code == INSTR_STP {
            let d = if v[3] == 1 { IncDec::Dec } else { IncDec::Inc };
            ArithmeticOp::Stp(d, ar_from(v[4]), a_from(v[0]), i_from(v[1]), v[2] as u8)
        } else if code == INSTR_ADD {
            ArithmeticOp::Add(ar_from(v[3]), a_from(v[0]), i_from(v[1]), i_from(v[2]))
        } else if code == INSTR_SUB {
            ArithmeticOp::Sub(ar_from(v[3]), a_from(v[0]), i_from(v[1]), i_from(v[2]))
        } else if code == INSTR_MUL {
            ArithmeticOp::Mul(ar_from(v[3]), a_from(v[0]), i_from(v[1]), i_from(v[2]))
        } else if code == INSTR_DIV {
            ArithmeticOp::Div(ar_from(v[3]), a_from(v[0]), i_from(v[1]), i_from(v[2]))
        } else {
            ArithmeticOp::Rem(ar_from(v[3]), a_from(v[0]), i_from(v[1]), i_from(v[2]))
        };
        Ok(op)
    }
}

/// What reading a byte string instruction gives: a string put, or another instruction.
pub enum BytesRead {
    /// `put` of a register and the bytes read.
    Put(u8, Seq<u8>),
    /// Any other instruction.
    Op(BytesOp),
}

/// Operation code of a byte string instruction (`ins` and `del` are written with each other's
/// code).
pub open spec fn bytes_code(op: BytesOp) -> u8 {
    match op {
        BytesOp::Put(..) => INSTR_PUT,
        BytesOp::Mov(..) => INSTR_MOV,
        BytesOp::Swp(..) => INSTR_SWP,
        BytesOp::Fill(..) => INSTR_FILL,
        BytesOp::LenS(..) => INSTR_LENS,
        BytesOp::Count(..) => INSTR_COUNT,
        BytesOp::Cmp(..) => INSTR_CMP,
        BytesOp::Comm(..) => INSTR_COMM,
        BytesOp::Find(..) => INSTR_FIND,
        BytesOp::Extr(..) => INSTR_EXTR,
        BytesOp::Inj(..) => INSTR_INJ,
        BytesOp::Join(..) => INSTR_JOIN,
        BytesOp::Split(..) => INSTR_SPLIT,
        BytesOp::Ins(..) => INSTR_DEL,
        BytesOp::Del(..) => INSTR_INS,
        BytesOp::Transl(..) => INSTR_TRANSL,
    }
}

/// Flag bit of a register block: set for `a`.
pub open spec fn block_bit(b: RegBlockAR) -> u8 {
    if b == RegBlockAR::A { 1 } else { 0 }
}

/// The argument fields of a byte string instruction other than `put` (whose register byte is
/// followed by a slice); `transl` writes its destination register as a word.
pub open spec fn bytes_fields(op: BytesOp) -> Seq<Field> {
    match op {
        BytesOp::Put(r, _) | BytesOp::LenS(r) => seq![Field::Byte(r)],
        BytesOp::Mov(a, b) | BytesOp::Swp(a, b) | BytesOp::Count(a, b) | BytesOp::Cmp(a, b)
        | BytesOp::Comm(a, b) | BytesOp::Find(a, b) => seq![Field::Byte(a), Field::Byte(b)],
        BytesOp::Fill(r, from, to, v) => seq![
            Field::Byte(r),
            Field::Word(from),
            Field::Word(to),
            Field::Byte(v),
        ],
        BytesOp::Extr(s, o, b, i) | BytesOp::Inj(s, o, b, i) => seq![
            Field::Bits(i_code(s), 5),
            Field::Bits(i_code(o), 5),
            Field::Bits(block_bit(b), 1),
            Field::Bits(i_code(i), 5),
        ],
        BytesOp::Join(a, b, d) => seq![Field::Byte(a), Field::Byte(b), Field::Byte(d)],
        BytesOp::Split(s, p, d1, d2) => seq![
            Field::Byte(s),
            Field::Word(p),
            Field::Byte(d1),
            Field::Byte(d2),
        ],
        BytesOp::Ins(s, d, o) => seq![Field::Byte(s), Field::Byte(d), Field::Word(o)],
        BytesOp::Del(r, from, to) => seq![Field::Byte(r), Field::Word(from), Field::Word(to)],
        BytesOp::Transl(s, from, to, d) => seq![
            Field::Byte(s),
            Field::Word(from),
            Field::Word(to),
            Field::Word(d as u16),
        ],
    }
}

/// The shapes of the argument fields of a byte string instruction with a given code other
/// than `put`; `transl` reads its destination register as a byte.
pub open spec fn bytes_kinds(code: u8) -> Seq<Kind> {
    if code == INSTR_FILL {
        seq![Kind::Byte, Kind::Word, Kind::Word, Kind::Byte]
    } else if code == INSTR_LENS {
        seq![Kind::Byte]
    } else if code == INSTR_EXTR || code == INSTR_INJ {
        seq![Kind::Bits(5), Kind::Bits(5), Kind::Bits(1), Kind::Bits(5)]
    } else if code == INSTR_JOIN {
        seq![Kind::Byte, Kind::Byte, Kind::Byte]
    } else if code == INSTR_SPLIT {
        seq![Kind::Byte, Kind::Word, Kind::Byte, Kind::Byte]
    } else if code == INSTR_INS {
        seq![Kind::Byte, Kind::Byte, Kind::Word]
    } else if code == INSTR_DEL {
        seq![Kind::Byte, Kind::Word, Kind::Word]
    } else if code == INSTR_TRANSL {
        seq![Kind::Byte, Kind::Word, Kind::Word, Kind::Byte]
    } else {
        seq![Kind::Byte, Kind::Byte]
    }
}

/// The byte string instruction of a code other than `put` and its argument values.
pub open spec fn bytes_of(code: u8, v: Seq<u16>) -> BytesOp {
    if code == INSTR_MOV {
        BytesOp::Mov(v[0] as u8, v[1] as u8)
    } else if code == INSTR_SWP {
        BytesOp::Swp(v[0] as u8, v[1] as u8)
    } else if code == INSTR_FILL {
        BytesOp::Fill(v[0] as u8, v[1], v[2], v[3] as u8)
    } else if code == INSTR_LENS {
        BytesOp::LenS(v[0] as u8)
    } else if code == INSTR_COUNT {
        BytesOp::Count(v[0] as u8, v[1] as u8)
    } else if code == INSTR_CMP {
        BytesOp::Cmp(v[0] as u8, v[1] as u8)
    } else if code == INSTR_COMM {
        BytesOp::Comm(v[0] as u8, v[1] as u8)
    } else if code == INSTR_FIND {
        BytesOp::Find(v[0] as u8, v[1] as u8)
    } else if code == INSTR_EXTR {
        BytesOp::Extr(i_of(v[0]), i_of(v[1]), if v[2] == 1 { RegBlockAR::A } else { RegBlockAR::R }, i_of(v[3]))
    } else if code == INSTR_INJ {
        BytesOp::Inj(i_of(v[0]), i_of(v[1]), if v[2] == 1 { RegBlockAR::A } else { RegBlockAR::R }, i_of(v[3]))
    } else if code == INSTR_JOIN {
        BytesOp::Join(v[0] as u8, v[1] as u8, v[2] as u8)
    } else if code == INSTR_SPLIT {
        BytesOp::Split(v[0] as u8, v[1], v[2] as u8, v[3] as u8)
    } else if code == INSTR_INS {
        BytesOp::Ins(v[0] as u8, v[1] as u8, v[2])
    } else if code == INSTR_DEL {
        BytesOp::Del(v[0] as u8, v[1], v[2])
    } else {
        BytesOp::Transl(v[0] as u8, v[1], v[2], v[3] as u8)
    }
}

/// Writing the arguments of a byte string instruction: for `put`, the register byte then the
/// string's bytes as a slice.
pub open spec fn bytes_args_step(op: BytesOp, m: CursorModel) -> Step<()> {
    match op {
        BytesOp::Put(r, s) => match write_u8_step(m, r) {
            (m1, Ok(_)) => write_slice_step(m1, content(s@)),
            (m1, Err(e)) => (m1, Err(e)),
        },
        _ => fields_step(m, bytes_fields(op)),
    }
}

/// What writing the arguments of a byte string instruction needs of the cursor.
pub open spec fn bytes_args_fit(op: BytesOp, m: CursorModel) -> bool {
    match op {
        BytesOp::Put(r, s) => {
            &&& m.bit_pos == 0
            &&& m.byte_pos < m.bytes.len()
            &&& write_u8_step(m, r).1 is Ok ==> write_slice_fit(write_u8_step(m, r).0, content(s@))
        },
        _ => fields_fit(m, bytes_fields(op)),
    }
}

/// Writing a byte string instruction: its code, then its arguments.
pub open spec fn bytes_write_step(op: BytesOp, m: CursorModel) -> Step<()> {
    match write_u8_step(m, bytes_code(op)) {
        (m1, Ok(_)) => bytes_args_step(op, m1),
        (m1, Err(e)) => (m1, Err(e)),
    }
}

/// Reading a byte string instruction: its code, then its arguments; for `put`, a register
/// byte and a slice.
pub open spec fn bytes_read_step(m: CursorModel) -> Step<BytesRead> {
    match read_u8_step(m) {
        (m1, Ok(code)) => if code == INSTR_PUT {
            match read_u8_step(m1) {
                (m2, Ok(r)) => match read_slice_step(m2) {
                    (m3, Ok(d)) => (m3, Ok(BytesRead::Put(r, d))),
                    (m3, Err(e)) => (m3, Err(e)),
                },
                (m2, Err(e)) => (m2, Err(e)),
            }
        } else {
            match reads_step(m1, bytes_kinds(code)) {
                (m2, Ok(v)) => (m2, Ok(BytesRead::Op(bytes_of(code, v)))),
                (m2, Err(e)) => (m2, Err(e)),
            }
        },
        (m1, Err(e)) => (m1, Err(e)),
    }
}

/// What reading a byte string instruction needs of the cursor, unless it is at its end: a byte
/// boundary, a code of the group, and room for what the code calls for.
pub open spec fn bytes_read_fit(m: CursorModel) -> bool {
    !m.eof ==> {
        &&& m.bit_pos == 0
        &&& m.byte_pos < m.bytes.len()
        &&& INSTR_PUT <= m.bytes[m.byte_pos as int] <= INSTR_TRANSL
        &&& read_u8_step(m).1 is Ok ==> {
            let m1 = read_u8_step(m).0;
            if m.bytes[m.byte_pos as int] == INSTR_PUT {
                &&& !m1.eof ==> m1.bit_pos == 0 && m1.byte_pos < m1.bytes.len()
                &&& read_u8_step(m1).1 is Ok ==> read_slice_fit(read_u8_step(m1).0)
            } else {
                reads_fit(m1, bytes_kinds(m.bytes[m.byte_pos as int]))
            }
        }
    }
}

/// Whether a read result is the outcome of [`bytes_read_step`]: the same failure, the same
/// instruction, or a `put` of the same register and a string of the bytes read.
pub open spec fn bytes_read_result(r: Result<BytesOp, DecodeError>, s: Result<BytesRead, crate::codec::CursorError>) -> bool {
    match s {
        Err(e) => r == Err::<BytesOp, DecodeError>(DecodeError::Cursor(e)),
        Ok(BytesRead::Op(op)) => r == Ok::<BytesOp, DecodeError>(op),
        Ok(BytesRead::Put(g, d)) => r matches Ok(BytesOp::Put(g2, st)) && g2 == g && st.wf() && st@
            == (ByteStrModel { len: d.len(), buf: padded(d) }),
    }
}

impl BytesOp {
    /// Number of bytes of the instruction with its arguments (for `put`, four and the string's
    /// length, saturating).
    pub fn byte_count(&self) -> (r: u16)
        ensures
            r == (match *self {
                BytesOp::Put(_, s) => if 4 + s@.len > u16::MAX { u16::MAX } else { (4 + s@.len) as u16 },
                BytesOp::Mov(..) | BytesOp::Swp(..) | BytesOp::Count(..) | BytesOp::Cmp(..)
                | BytesOp::Comm(..) | BytesOp::Find(..) => 3,
                BytesOp::Fill(..) | BytesOp::Transl(..) => 7,
                BytesOp::LenS(..) => 2,
                BytesOp::Extr(..) | BytesOp::Inj(..) | BytesOp::Join(..) => 4,
                BytesOp::Split(..) => 6,
                BytesOp::Ins(..) | BytesOp::Del(..) => 5,
            }),
    {
        match self {
            BytesOp::Put(_, s) => 4u16.saturating_add(s.len()),
            BytesOp::Mov(..) | BytesOp::Swp(..) | BytesOp::Count(..) | BytesOp::Cmp(..)
            | BytesOp::Comm(..) | BytesOp::Find(..) => 3,
            BytesOp::Fill(..) | BytesOp::Transl(..) => 7,
            BytesOp::LenS(..) => 2,
            BytesOp::Extr(..) | BytesOp::Inj(..) | BytesOp::Join(..) => 4,
            BytesOp::Split(..) => 6,
            BytesOp::Ins(..) | BytesOp::Del(..) => 5,
        }
    }

    /// Range of the operation codes of byte string instructions.
    pub fn instr_range() -> (r: (u8, u8))
        ensures
            r == (INSTR_PUT, INSTR_TRANSL),
    {
        (INSTR_PUT, INSTR_TRANSL)
    }

    /// Operation code of the instruction.
    pub fn instr_byte(&self) -> (r: u8)
        ensures
            r == bytes_code(*self),
    {
        match self {
            BytesOp::Put(..) => INSTR_PUT,
            BytesOp::Mov(..) => INSTR_MOV,
            BytesOp::Swp(..) => INSTR_SWP,
            BytesOp::Fill(..) => INSTR_FILL,
            BytesOp::LenS(..) => INSTR_LENS,
            BytesOp::Count(..) => INSTR_COUNT,
            BytesOp::Cmp(..) => INSTR_CMP,
            BytesOp::Comm(..) => INSTR_COMM,
            BytesOp::Find(..) => INSTR_FIND,
            BytesOp::Extr(..) => INSTR_EXTR,
            BytesOp::Inj(..) => INSTR_INJ,
            BytesOp::Join(..) => INSTR_JOIN,
            BytesOp::Split(..) => INSTR_SPLIT,
            BytesOp::Ins(..) => INSTR_DEL,
            BytesOp::Del(..) => INSTR_INS,
            BytesOp::Transl(..) => INSTR_TRANSL,
        }
    }

    /// Argument fields of the instruction (see [`bytes_fields`]).
    pub fn fields(&self) -> (r: Vec<Field>)
        ensures
            r@ == bytes_fields(*self),
    {
        let r = match self {
            BytesOp::Put(g, _) | BytesOp::LenS(g) => vec![Field::Byte(*g)],
            BytesOp::Mov(a, b) | BytesOp::Swp(a, b) | BytesOp::Count(a, b) | BytesOp::Cmp(a, b)
            | BytesOp::Comm(a, b) | BytesOp::Find(a, b) => vec![Field::Byte(*a), Field::Byte(*b)],
            BytesOp::Fill(g, from, to, v) => vec![
                Field::Byte(*g),
                Field::Word(*from),
                Field::Word(*to),
                Field::Byte(*v),
            ],
            BytesOp::Extr(s, o, b, i) | BytesOp::Inj(s, o, b, i) => {
                let flag: u8 = if *b == RegBlockAR::A { 1 } else { 0 };
                vec![i_bits(*s), i_bits(*o), Field::Bits(flag, 1), i_bits(*i)]
            },
            BytesOp::Join(a, b, d) => vec![Field::Byte(*a), Field::Byte(*b), Field::Byte(*d)],
            BytesOp::Split(s, p, d1, d2) => vec![
                Field::Byte(*s),
                Field::Word(*p),
                Field::Byte(*d1),
                Field::Byte(*d2),
            ],
            BytesOp::Ins(s, d, o) => vec![Field::Byte(*s), Field::Byte(*d), Field::Word(*o)],
            BytesOp::Del(g, from, to) => vec![Field::Byte(*g), Field::Word(*from), Field::Word(*to)],
            BytesOp::Transl(s, from, to, d) => vec![
                Field::Byte(*s),
                Field::Word(*from),
                Field::Word(*to),
                Field::Word(*d as u16),
            ],
        };
        assert(r@ =~= bytes_fields(*self));
        r
    }

    /// Writes the arguments of the instruction, without its code.
    pub fn write_args(&self, c: &mut Cursor) -> (r: Result<(), EncodeError>)
        requires
            old(c).wf(),
            *self matches BytesOp::Put(_, s) ==> s.wf(),
            bytes_args_fit(*self, old(c)@),
        ensures
            final(c).wf(),
            final(c)@ == bytes_args_step(*self, old(c)@).0,
            r == encode_failure(bytes_args_step(*self, old(c)@).1),
    {
        let r = match self {
            BytesOp::Put(g, s) => {
                match c.write_u8(*g) {
                    Ok(()) => {
                        let v = s.to_vec();
                        c.write_slice(v.as_slice())
                    },
                    Err(e) => Err(e),
                }
            },
            _ => {
                let fs = self.fields();
                write_fields(c, &fs)
            },
        };
        match r {
            Ok(()) => Ok(()),
            Err(e) => Err(EncodeError::Cursor(e)),
        }
    }

    /// Writes the instruction: its code, then its arguments.
    pub fn write(&self, c: &mut Cursor) -> (r: Result<(), EncodeError>)
        requires
            old(c).wf(),
            *self matches BytesOp::Put(_, s) ==> s.wf(),
            old(c)@.bit_pos == 0,
            old(c)@.byte_pos < old(c)@.bytes.len(),
            write_u8_step(old(c)@, bytes_code(*self)).1 is Ok ==> bytes_args_fit(
                *self,
                write_u8_step(old(c)@, bytes_code(*self)).0,
            ),
        ensures
            final(c).wf(),
            final(c)@ == bytes_write_step(*self, old(c)@).0,
            r == encode_failure(bytes_write_step(*self, old(c)@).1),
    {
        match c.write_u8(self.instr_byte()) {
            Ok(()) => {},
            Err(e) => return Err(EncodeError::Cursor(e)),
        }
        self.write_args(c)
    }

    /// Reads a byte string instruction; the code at the cursor must be one of the group.
    pub fn read(c: &mut Cursor) -> (r: Result<BytesOp, DecodeError>)
        requires
            old(c).wf(),
            bytes_read_fit(old(c)@),
        ensures
            final(c).wf(),
            final(c)@ == bytes_read_step(old(c)@).0,
            bytes_read_result(r, bytes_read_step(old(c)@).1),
    {
        let code = match c.read_u8() {
            Ok(b) => b,
            Err(e) => return Err(DecodeError::Cursor(e)),
        };
        if code == INSTR_PUT {
            let g = match c.read_u8() {
                Ok(b) => b,
                Err(e) => return Err(DecodeError::Cursor(e)),
            };
            let ghost m2 = c@;
            let d = match c.read_slice() {
                Ok(d) => d,
                Err(e) => return Err(DecodeError::Cursor(e)),
            };
            proof {
                let len = read_u16_word(m2);
                assert(d@.len() <= u16::MAX) by {
                    assert(d@ == m2.bytes.subrange(m2.byte_pos + 2, m2.byte_pos + 2 + len));
                }
            }
            return Ok(BytesOp::Put(g, ByteStr::with(d.as_slice())));
        }
        let ghost m1 = c@;
        let ks = if code == INSTR_FILL {
            vec![Kind::Byte, Kind::Word, Kind::Word, Kind::Byte]
        } else if code == INSTR_LENS {
            vec![Kind::Byte]
        } else if code == INSTR_EXTR || code == INSTR_INJ {
            vec![Kind::Bits(5), Kind::Bits(5), Kind::Bits(1), Kind::Bits(5)]
        } else if code == INSTR_JOIN {
            vec![Kind::Byte, Kind::Byte, Kind::Byte]
        } else if code == INSTR_SPLIT {
            vec![Kind::Byte, Kind::Word, Kind::Byte, Kind::Byte]
        } else if code == INSTR_INS {
            vec![Kind::Byte, Kind::Byte, Kind::Word]
        } else if code == INSTR_DEL {
            vec![Kind::Byte, Kind::Word, Kind::Word]
        } else if code == INSTR_TRANSL {
            vec![Kind::Byte, Kind::Word, Kind::Word, Kind::Byte]
        } else {
            vec![Kind::Byte, Kind::Byte]
        };
        assert(ks@ =~= bytes_kinds(code));
        let v = match read_fields(c, &ks) {
            Ok(v) => v,
            Err(e) => return Err(DecodeError::Cursor(e)),
        };
        proof {
            crate::fields::lemma_reads_len(m1, ks@);
        }
        let op = if code == INSTR_MOV {
            BytesOp::Mov(v[0] as u8, v[1] as u8)
        } else if code == INSTR_SWP {
            BytesOp::Swp(v[0] as u8, v[1] as u8)
        } else if code == INSTR_FILL {
            BytesOp::Fill(v[0] as u8, v[1], v[2], v[3] as u8)
        } else if code == INSTR_LENS {
            BytesOp::LenS(v[0] as u8)
        } else if code == INSTR_COUNT {
            BytesOp::Count(v[0] as u8, v[1] as u8)
        } else if code == INSTR_CMP {
            BytesOp::Cmp(v[0] as u8, v[1] as u8)
        } else if code == INSTR_COMM {
            BytesOp::Comm(v[0] as u8, v[1] as u8)
        } else if code == INSTR_FIND {
            BytesOp::Find(v[0] as u8, v[1] as u8)
        } else if code == INSTR_EXTR {
            let b = if v[2] == 1 { RegBlockAR::A } else { RegBlockAR::R };
            BytesOp::Extr(i_from(v[0]), i_from(v[1]), b, i_from(v[3]))
        } else if code == INSTR_INJ {
            let b = if v[2] == 1 { RegBlockAR::A } else { RegBlockAR::R };
            BytesOp::Inj(i_from(v[0]), i_from(v[1]), b, i_from(v[3]))
        } else if code == INSTR_JOIN {
            BytesOp::Join(v[0] as u8, v[1] as u8, v[2] as u8)
        } else if code == INSTR_SPLIT {
            BytesOp::Split(v[0] as u8, v[1], v[2] as u8, v[3] as u8)
        } else if code == INSTR_INS {
            BytesOp::Ins(v[0] as u8, v[1] as u8, v[2])
        } else if code == INSTR_DEL {
            BytesOp::Del(v[0] as u8, v[1], v[2])
        } else {
            BytesOp::Transl(v[0] as u8, v[1], v[2], v[3] as u8)
        };
        Ok(op)
    }
}

/// The length word at the cursor.
pub open spec fn read_u16_word(m: CursorModel) -> int {
    m.bytes[m.byte_pos as int] + 256 * m.bytes[m.byte_pos + 1]
}

/// Operation code of `and`.
pub const INSTR_AND: u8 = 0b00_101_000;
/// Operation code of `or`.
pub const INSTR_OR: u8 = 0b00_101_001;
/// Operation code of `xor`.
pub const INSTR_XOR: u8 = 0b00_101_010;
/// Operation code of `not`.
pub const INSTR_NOT: u8 = 0b00_101_011;
/// Operation code of `shl`.
pub const INSTR_SHL: u8 = 0b00_101_100;
/// Operation code of `shr`.
pub const INSTR_SHR: u8 = 0b00_101_101;
/// Operation code of `scl`.
pub const INSTR_SCL: u8 = 0b00_101_110;
/// Operation code of `scr`.
pub const INSTR_SCR: u8 = 0b00_101_111;
/// Operation code of `ripemd`.
pub const INSTR_RIPEMD: u8 = 0b01_000_000;
/// Operation code of `sha256`.
pub const INSTR_SHA256: u8 = 0b01_000_001;
/// Operation code of `sha512`.
pub const INSTR_SHA512: u8 = 0b01_000_010;
/// Last operation code of the digest group, the codes after `sha512` being reserved.
pub const INSTR_HASH5: u8 = 0b01_000_111;

/// Bit operations and boolean algebra.
#[derive(Clone, Copy, PartialEq, Eq, Structural, Debug, Hash)]
pub enum BitwiseOp {
    /// AND of two registers into one of the first eight.
    And(RegA, Reg32, Reg32, Reg8),
    /// OR of two registers.
    Or(RegA, Reg32, Reg32, Reg8),
    /// XOR of two registers.
    Xor(RegA, Reg32, Reg32, Reg8),
    /// Inverts a register.
    Not(RegA, Reg32),
    /// Left shift by an `a8` register.
    Shl(RegA, Reg32, Reg32, Reg8),
    /// Right shift by an `a8` register.
    Shr(RegA, Reg32, Reg32, Reg8),
    /// Cyclic left shift.
    Scl(RegA, Reg32, Reg32, Reg8),
    /// Cyclic right shift.
    Scr(RegA, Reg32, Reg32, Reg8),
}

/// Hash functions of a string register into a general-purpose register.
#[derive(Clone, Copy, PartialEq, Eq, Structural, Debug, Hash)]
pub enum DigestOp {
    /// RIPEMD-160 into an `r160` register.
    Ripemd(Reg32, Reg8),
    /// SHA-256 into an `r256` register.
    Sha256(Reg32, Reg8),
    /// SHA-512 into an `r512` register.
    Sha512(Reg32, Reg8),
}

/// Register of the first eight of a 3-bit code.
pub open spec fn r8_of(v: u16) -> Reg8 {
    reg8_of((v % 8) as u8)
}

fn r8_from(v: u16) -> (r: Reg8)
    ensures
        r == r8_of(v),
{
    reg8_with((v % 8) as u8)
}

/// 3-bit code of one of the first eight registers.
pub open spec fn r8_code(i: Reg8) -> u8 {
    i.spec_to_usize() as u8
}

/// Operation code of a bitwise instruction.
pub open spec fn bitwise_code(op: BitwiseOp) -> u8 {
    match op {
        BitwiseOp::And(..) => INSTR_AND,
        BitwiseOp::Or(..) => INSTR_OR,
        BitwiseOp::Xor(..) => INSTR_XOR,
        BitwiseOp::Not(..) => INSTR_NOT,
        BitwiseOp::Shl(..) => INSTR_SHL,
        BitwiseOp::Shr(..) => INSTR_SHR,
        BitwiseOp::Scl(..) => INSTR_SCL,
        BitwiseOp::Scr(..) => INSTR_SCR,
    }
}

/// The argument fields of a bitwise instruction.
pub open spec fn bitwise_fields(op: BitwiseOp) -> Seq<Field> {
    match op {
        BitwiseOp::Not(a, i) => seq![Field::Bits(a_code(a), 3), Field::Bits(i_code(i), 5)],
        BitwiseOp::And(a, i, j, d) | BitwiseOp::Or(a, i, j, d) | BitwiseOp::Xor(a, i, j, d)
        | BitwiseOp::Shl(a, i, j, d) | BitwiseOp::Shr(a, i, j, d) | BitwiseOp::Scl(a, i, j, d)
        | BitwiseOp::Scr(a, i, j, d) => seq![
            Field::Bits(a_code(a), 3),
            Field::Bits(i_code(i), 5),
            Field::Bits(i_code(j), 5),
            Field::Bits(r8_code(d), 3),
        ],
    }
}

/// The shapes of the argument fields of a bitwise instruction with a given code.
pub open spec fn bitwise_kinds(code: u8) -> Seq<Kind> {
    if code == INSTR_NOT {
        seq![Kind::Bits(3), Kind::Bits(5)]
    } else {
        seq![Kind::Bits(3), Kind::Bits(5), Kind::Bits(5), Kind::Bits(3)]
    }
}

/// The bitwise instruction of a code (one of the eight) and its argument values.
pub open spec fn bitwise_of(code: u8, v: Seq<u16>) -> BitwiseOp {
    if code == INSTR_NOT {
        BitwiseOp::Not(a_of(v[0]), i_of(v[1]))
    } else if code == INSTR_AND {
        BitwiseOp::And(a_of(v[0]), i_of(v[1]), i_of(v[2]), r8_of(v[3]))
    } else if code == INSTR_OR {
        BitwiseOp::Or(a_of(v[0]), i_of(v[1]), i_of(v[2]), r8_of(v[3]))
    } else if code == INSTR_XOR {
        BitwiseOp::Xor(a_of(v[0]), i_of(v[1]), i_of(v[2]), r8_of(v[3]))
    } else if code == INSTR_SHL {
        BitwiseOp::Shl(a_of(v[0]), i_of(v[1]), i_of(v[2]), r8_of(v[3]))
    } else if code == INSTR_SHR {
        BitwiseOp::Shr(a_of(v[0]), i_of(v[1]), i_of(v[2]), r8_of(v[3]))
    } else if code == INSTR_SCL {
        BitwiseOp::Scl(a_of(v[0]), i_of(v[1]), i_of(v[2]), r8_of(v[3]))
    } else {
        BitwiseOp::Scr(a_of(v[0]), i_of(v[1]), i_of(v[2]), r8_of(v[3]))
    }
}

/// Writing the arguments of a bitwise instruction.
pub open spec fn bitwise_args_step(op: BitwiseOp, m: CursorModel) -> Step<()> {
    fields_step(m, bitwise_fields(op))
}

/// Writing a bitwise instruction.
pub open spec fn bitwise_write_step(op: BitwiseOp, m: CursorModel) -> Step<()> {
    code_then_fields(m, bitwise_code(op), bitwise_fields(op))
}

/// Reading a bitwise instruction.
pub open spec fn bitwise_read_step(m: CursorModel) -> Step<BitwiseOp> {
    read_code_then(m, |c: u8| bitwise_kinds(c), |c: u8, v: Seq<u16>| bitwise_of(c, v))
}

/// Operation code of a digest instruction.
pub open spec fn digest_code(op: DigestOp) -> u8 {
    match op {
        DigestOp::Ripemd(..) => INSTR_RIPEMD,
        DigestOp::Sha256(..) => INSTR_SHA256,
        DigestOp::Sha512(..) => INSTR_SHA512,
    }
}

/// The argument fields of a digest instruction: the string register, then the destination.
pub open spec fn digest_fields(op: DigestOp) -> Seq<Field> {
    match op {
        DigestOp::Ripemd(s, d) | DigestOp::Sha256(s, d) | DigestOp::Sha512(s, d) => seq![
            Field::Bits(i_code(s), 5),
            Field::Bits(r8_code(d), 3),
        ],
    }
}

/// The shapes of the argument fields of a digest instruction.
pub open spec fn digest_kinds() -> Seq<Kind> {
    seq![Kind::Bits(5), Kind::Bits(3)]
}

/// Writing the arguments of a digest instruction.
pub open spec fn digest_args_step(op: DigestOp, m: CursorModel) -> Step<()> {
    fields_step(m, digest_fields(op))
}

/// Writing a digest instruction.
pub open spec fn digest_write_step(op: DigestOp, m: CursorModel) -> Step<()> {
    code_then_fields(m, digest_code(op), digest_fields(op))
}

/// Reading a digest instruction: the code and both arguments are read first; a code after
/// `sha512` is a reserved instruction.
pub open spec fn digest_read_step(m: CursorModel) -> (CursorModel, Result<DigestOp, DecodeError>) {
    match read_u8_step(m) {
        (m1, Ok(code)) => match reads_step(m1, digest_kinds()) {
            (m2, Ok(v)) => (m2, if code == INSTR_RIPEMD {
                Ok(DigestOp::Ripemd(i_of(v[0]), r8_of(v[1])))
            } else if code == INSTR_SHA256 {
                Ok(DigestOp::Sha256(i_of(v[0]), r8_of(v[1])))
            } else if code == INSTR_SHA512 {
                Ok(DigestOp::Sha512(i_of(v[0]), r8_of(v[1])))
            } else {
                Err(DecodeError::ReservedInstruction(code))
            }),
            (m2, Err(e)) => (m2, Err(DecodeError::Cursor(e))),
        },
        (m1, Err(e)) => (m1, Err(DecodeError::Cursor(e))),
    }
}

impl BitwiseOp {
    /// Number of bytes of the instruction with its arguments.
    pub fn byte_count(&self) -> (r: u16)
        ensures
            r == (if *self is Not { 2u16 } else { 3u16 }),
    {
        match self {
            BitwiseOp::Not(..) => 2,
            _ => 3,
        }
    }

    /// Range of the operation codes of bitwise instructions.
    pub fn instr_range() -> (r: (u8, u8))
        ensures
            r == (INSTR_AND, INSTR_SCR),
    {
        (INSTR_AND, INSTR_SCR)
    }

    /// Operation code of the instruction.
    pub fn instr_byte(&self) -> (r: u8)
        ensures
            r == bitwise_code(*self),
    {
        match self {
            BitwiseOp::And(..) => INSTR_AND,
            BitwiseOp::Or(..) => INSTR_OR,
            BitwiseOp::Xor(..) => INSTR_XOR,
            BitwiseOp::Not(..) => INSTR_NOT,
            BitwiseOp::Shl(..) => INSTR_SHL,
            BitwiseOp::Shr(..) => INSTR_SHR,
            BitwiseOp::Scl(..) => INSTR_SCL,
            BitwiseOp::Scr(..) => INSTR_SCR,
        }
    }

    /// Argument fields of the instruction.
    pub fn fields(&self) -> (r: Vec<Field>)
        ensures
            r@ == bitwise_fields(*self),
    {
        let r = match *self {
            BitwiseOp::Not(a, i) => vec![a_bits(a), i_bits(i)],
            BitwiseOp::And(a, i, j, d) | BitwiseOp::Or(a, i, j, d) | BitwiseOp::Xor(a, i, j, d)
            | BitwiseOp::Shl(a, i, j, d) | BitwiseOp::Shr(a, i, j, d) | BitwiseOp::Scl(a, i, j, d)
            | BitwiseOp::Scr(a, i, j, d) => {
                vec![a_bits(a), i_bits(i), i_bits(j), Field::Bits(d.to_usize() as u8, 3)]
            },
        };
        assert(r@ =~= bitwise_fields(*self));
        r
    }

    /// Writes the arguments of the instruction, without its code.
    pub fn write_args(&self, c: &mut Cursor) -> (r: Result<(), EncodeError>)
        requires
            old(c).wf(),
            fields_fit(old(c)@, bitwise_fields(*self)),
        ensures
            final(c).wf(),
            final(c)@ == bitwise_args_step(*self, old(c)@).0,
            r == encode_failure(bitwise_args_step(*self, old(c)@).1),
    {
        let fs = self.fields();
        match write_fields(c, &fs) {
            Ok(()) => Ok(()),
            Err(e) => Err(EncodeError::Cursor(e)),
        }
    }

    /// Writes the instruction: its code, then its arguments.
    pub fn write(&self, c: &mut Cursor) -> (r: Result<(), EncodeError>)
        requires
            old(c).wf(),
            code_then_fields_fit(old(c)@, bitwise_code(*self), bitwise_fields(*self)),
        ensures
            final(c).wf(),
            final(c)@ == bitwise_write_step(*self, old(c)@).0,
            r == encode_failure(bitwise_write_step(*self, old(c)@).1),
    {
        let fs = self.fields();
        write_code_then_fields(c, self.instr_byte(), &fs)
    }

    /// Reads a bitwise instruction; the code at the cursor must be one of the eight.
    pub fn read(c: &mut Cursor) -> (r: Result<BitwiseOp, DecodeError>)
        requires
            old(c).wf(),
            read_code_fit(old(c)@, INSTR_AND, INSTR_SCR, |k: u8| bitwise_kinds(k)),
        ensures
            final(c).wf(),
            final(c)@ == bitwise_read_step(old(c)@).0,
            r == decode_failure(bitwise_read_step(old(c)@).1),
    {
        let code = match c.read_u8() {
            Ok(b) => b,
            Err(e) => return Err(DecodeError::Cursor(e)),
        };
        let ghost m1 = c@;
        let ks = if code == INSTR_NOT {
            vec![Kind::Bits(3), Kind::Bits(5)]
        } else {
            vec![Kind::Bits(3), Kind::Bits(5), Kind::Bits(5), Kind::Bits(3)]
        };
        assert(ks@ =~= bitwise_kinds(code));
        let v = match read_fields(c, &ks) {
            Ok(v) => v,
            Err(e) => return Err(DecodeError::Cursor(e)),
        };
        proof {
            crate::fields::lemma_reads_len(m1, ks@);
        }
        let op = if code == INSTR_NOT {
            BitwiseOp::Not(a_from(v[0]), i_from(v[1]))
        } else if code == INSTR_AND {
            BitwiseOp::And(a_from(v[0]), i_from(v[1]), i_from(v[2]), r8_from(v[3]))
        } else if code == INSTR_OR {
            BitwiseOp::Or(a_from(v[0]), i_from(v[1]), i_from(v[2]), r8_from(v[3]))
        } else if code == INSTR_XOR {
            BitwiseOp::Xor(a_from(v[0]), i_from(v[1]), i_from(v[2]), r8_from(v[3]))
        } else if code == INSTR_SHL {
            BitwiseOp::Shl(a_from(v[0]), i_from(v[1]), i_from(v[2]), r8_from(v[3]))
        } else if code == INSTR_SHR {
            BitwiseOp::Shr(a_from(v[0]), i_from(v[1]), i_from(v[2]), r8_from(v[3]))
        } else if code == INSTR_SCL {
            BitwiseOp::Scl(a_from(v[0]), i_from(v[1]), i_from(v[2]), r8_from(v[3]))
        } else {
            BitwiseOp::Scr(a_from(v[0]), i_from(v[1]), i_from(v[2]), r8_from(v[3]))
        };
        Ok(op)
    }
}

impl DigestOp {
    /// Number of bytes the instruction is counted for: three.
    pub fn byte_count(&self) -> (r: u16)
        ensures
            r == 3,
    {
        3
    }

    /// Range of the operation codes of the digest group, reserved codes included.
    pub fn instr_range() -> (r: (u8, u8))
        ensures
            r == (INSTR_RIPEMD, INSTR_HASH5),
    {
        (INSTR_RIPEMD, INSTR_HASH5)
    }

    /// Operation code of the instruction.
    pub fn instr_byte(&self) -> (r: u8)
        ensures
            r == digest_code(*self),
    {
        match self {
            DigestOp::Ripemd(..) => INSTR_RIPEMD,
            DigestOp::Sha256(..) => INSTR_SHA256,
            DigestOp::Sha512(..) => INSTR_SHA512,
        }
    }

    /// Argument fields of the instruction.
    pub fn fields(&self) -> (r: Vec<Field>)
        ensures
            r@ == digest_fields(*self),
    {
        let r = match *self {
            DigestOp::Ripemd(s, d) | DigestOp::Sha256(s, d) | DigestOp::Sha512(s, d) => {
                vec![i_bits(s), Field::Bits(d.to_usize() as u8, 3)]
            },
        };
        assert(r@ =~= digest_fields(*self));
        r
    }

    /// Writes the arguments of the instruction, without its code.
    pub fn write_args(&self, c: &mut Cursor) -> (r: Result<(), EncodeError>)
        requires
            old(c).wf(),
            fields_fit(old(c)@, digest_fields(*self)),
        ensures
            final(c).wf(),
            final(c)@ == digest_args_step(*self, old(c)@).0,
            r == encode_failure(digest_args_step(*self, old(c)@).1),
    {
        let fs = self.fields();
        match write_fields(c, &fs) {
            Ok(()) => Ok(()),
            Err(e) => Err(EncodeError::Cursor(e)),
        }
    }

    /// Writes the instruction: its code, then its arguments.
    pub fn write(&self, c: &mut Cursor) -> (r: Result<(), EncodeError>)
        requires
            old(c).wf(),
            code_then_fields_fit(old(c)@, digest_code(*self), digest_fields(*self)),
        ensures
            final(c).wf(),
            final(c)@ == digest_write_step(*self, old(c)@).0,
            r == encode_failure(digest_write_step(*self, old(c)@).1),
    {
        let fs = self.fields();
        write_code_then_fields(c, self.instr_byte(), &fs)
    }

    /// Reads a digest instruction; the code at the cursor must be of the group, and a reserved
    /// code is an error once its arguments are read.
    pub fn read(c: &mut Cursor) -> (r: Result<DigestOp, DecodeError>)
        requires
            old(c).wf(),
            read_code_fit(old(c)@, INSTR_RIPEMD, INSTR_HASH5, |k: u8| digest_kinds()),
        ensures
            final(c).wf(),
            (final(c)@, r) == digest_read_step(old(c)@),
    {
        let code = match c.read_u8() {
            Ok(b) => b,
            Err(e) => return Err(DecodeError::Cursor(e)),
        };
        let ghost m1 = c@;
        let ks = vec![Kind::Bits(5), Kind::Bits(3)];
        assert(ks@ =~= digest_kinds());
        let v = match read_fields(c, &ks) {
            Ok(v) => v,
            Err(e) => return Err(DecodeError::Cursor(e)),
        };
        proof {
            crate::fields::lemma_reads_len(m1, ks@);
        }
        if code == INSTR_RIPEMD {
            Ok(DigestOp::Ripemd(i_from(v[0]), r8_from(v[1])))
        } else if code == INSTR_SHA256 {
            Ok(DigestOp::Sha256(i_from(v[0]), r8_from(v[1])))
        } else if code == INSTR_SHA512 {
            Ok(DigestOp::Sha512(i_from(v[0]), r8_from(v[1])))
        } else {
            Err(DecodeError::ReservedInstruction(code))
        }
    }
}

/// Operation code of `gt`.
pub const INSTR_GT: u8 = 0b00_011_000;
/// Operation code of `lt`.
pub const INSTR_LT: u8 = 0b00_011_001;
/// Operation code of `eq` on arithmetic registers.
pub const INSTR_EQA: u8 = 0b00_011_010;
/// Operation code of `eq` on general-purpose registers.
pub const INSTR_EQR: u8 = 0b00_011_011;
/// Operation code of `len`.
pub const INSTR_LEN: u8 = 0b00_011_100;
/// Operation code of `cnt`.
pub const INSTR_CNT: u8 = 0b00_011_101;
/// Operation code of `st2a`.
pub const INSTR_ST2A: u8 = 0b00_011_110;
/// Operation code of `a2st`.
pub const INSTR_A2ST: u8 = 0b00_011_111;

/// Instructions comparing register values.
#[derive(Clone, Copy, PartialEq, Eq, Structural, Debug, Hash)]
pub enum CmpOp {
    /// Whether one arithmetic register is greater than another, as numbers of a type.
    GtA(NumType, RegA, Reg32, Reg32),
    /// Whether one general-purpose register is greater than another.
    GtR(RegR, Reg16, RegR, Reg32),
    /// Whether one arithmetic register is less than another, as numbers of a type.
    LtA(NumType, RegA, Reg32, Reg32),
    /// Whether one general-purpose register is less than another.
    LtR(RegR, Reg16, RegR, Reg32),
    /// Whether two arithmetic registers are equal.
    EqA(RegA, Reg32, RegA, Reg32),
    /// Whether two general-purpose registers are equal.
    EqR(RegR, Reg32, RegR, Reg32),
    /// Bit length of a register.
    Len(RegA, Reg32),
    /// Number of one bits of a register.
    Cnt(RegA, Reg32),
    /// Copies `st0` into `a8[0]`.
    St2A,
    /// Sets `st0` from `a8[0]`.
    A2St,
}

/// 4-bit code of a register index below 16.
pub open spec fn i16_code(i: Reg16) -> u8 {
    i.spec_to_usize() as u8
}

/// Register index below 16 of a 4-bit code.
pub open spec fn i16_of(v: u16) -> Reg16 {
    let k = v % 16;
    if k == 0 { Reg16::Reg0 } else if k == 1 { Reg16::Reg1 } else if k == 2 { Reg16::Reg2 }
    else if k == 3 { Reg16::Reg3 } else if k == 4 { Reg16::Reg4 } else if k == 5 { Reg16::Reg5 }
    else if k == 6 { Reg16::Reg6 } else if k == 7 { Reg16::Reg7 } else if k == 8 { Reg16::Reg8 }
    else if k == 9 { Reg16::Reg9 } else if k == 10 { Reg16::Reg10 } else if k == 11 { Reg16::Reg11 }
    else if k == 12 { Reg16::Reg12 } else if k == 13 { Reg16::Reg13 } else if k == 14 { Reg16::Reg14 }
    else { Reg16::Reg15 }
}

fn i16_from(v: u16) -> (r: Reg16)
    ensures
        r == i16_of(v),
{
    let k = v % 16;
    if k == 0 { Reg16::Reg0 } else if k == 1 { Reg16::Reg1 } else if k == 2 { Reg16::Reg2 }
    else if k == 3 { Reg16::Reg3 } else if k == 4 { Reg16::Reg4 } else if k == 5 { Reg16::Reg5 }
    else if k == 6 { Reg16::Reg6 } else if k == 7 { Reg16::Reg7 } else if k == 8 { Reg16::Reg8 }
    else if k == 9 { Reg16::Reg9 } else if k == 10 { Reg16::Reg10 } else if k == 11 { Reg16::Reg11 }
    else if k == 12 { Reg16::Reg12 } else if k == 13 { Reg16::Reg13 } else if k == 14 { Reg16::Reg14 }
    else { Reg16::Reg15 }
}

/// Operation code of a comparison instruction.
pub open spec fn compare_code(op: CmpOp) -> u8 {
    match op {
        CmpOp::GtA(..) | CmpOp::GtR(..) => INSTR_GT,
        CmpOp::LtA(..) | CmpOp::LtR(..) => INSTR_LT,
        CmpOp::EqA(..) => INSTR_EQA,
        CmpOp::EqR(..) => INSTR_EQR,
        CmpOp::Len(..) => INSTR_LEN,
        CmpOp::Cnt(..) => INSTR_CNT,
        CmpOp::St2A => INSTR_ST2A,
        CmpOp::A2St => INSTR_A2ST,
    }
}

/// The argument fields of a comparison instruction. An order comparison starts with the
/// 4-bit form of its first register: one bit telling a general-purpose register, then the
/// block code.
pub open spec fn compare_fields(op: CmpOp) -> Seq<Field> {
    match op {
        CmpOp::GtA(t, a, i, j) | CmpOp::LtA(t, a, i, j) => seq![
            Field::Bits(0, 1),
            Field::Bits(a_code(a), 3),
            Field::Bits(i_code(i), 5),
            Field::Bits(i_code(j), 5),
            Field::Bits(t.spec_as_u2(), 2),
        ],
        CmpOp::GtR(r1, i, r2, j) | CmpOp::LtR(r1, i, r2, j) => seq![
            Field::Bits(1, 1),
            Field::Bits(r_code(r1), 3),
            Field::Bits(i16_code(i), 4),
            Field::Bits(r_code(r2), 3),
            Field::Bits(i_code(j), 5),
        ],
        CmpOp::EqA(a1, i, a2, j) => seq![
            Field::Bits(a_code(a1), 3),
            Field::Bits(i_code(i), 5),
            Field::Bits(a_code(a2), 3),
            Field::Bits(i_code(j), 5),
        ],
        CmpOp::EqR(r1, i, r2, j) => seq![
            Field::Bits(r_code(r1), 3),
            Field::Bits(i_code(i), 5),
            Field::Bits(r_code(r2), 3),
            Field::Bits(i_code(j), 5),
        ],
        CmpOp::Len(a, i) | CmpOp::Cnt(a, i) => seq![Field::Bits(a_code(a), 3), Field::Bits(i_code(i), 5)],
        CmpOp::St2A | CmpOp::A2St => seq![],
    }
}

/// The shapes of the argument fields of a comparison with a given code, after the leading
/// bit of an order comparison.
pub open spec fn compare_kinds(code: u8, general: bool) -> Seq<Kind> {
    if code == INSTR_GT || code == INSTR_LT {
        if general {
            seq![Kind::Bits(3), Kind::Bits(4), Kind::Bits(3), Kind::Bits(5)]
        } else {
            seq![Kind::Bits(3), Kind::Bits(5), Kind::Bits(5), Kind::Bits(2)]
        }
    } else if code == INSTR_EQA || code == INSTR_EQR {
        seq![Kind::Bits(3), Kind::Bits(5), Kind::Bits(3), Kind::Bits(5)]
    } else if code == INSTR_LEN || code == INSTR_CNT {
        seq![Kind::Bits(3), Kind::Bits(5)]
    } else {
        seq![]
    }
}

/// The comparison of a code (one of the group), the leading bit of an order comparison, and
/// the argument values.
pub open spec fn compare_of(code: u8, general: bool, v: Seq<u16>) -> CmpOp {
    if code == INSTR_GT {
        if general {
            CmpOp::GtR(r_of(v[0]), i16_of(v[1]), r_of(v[2]), i_of(v[3]))
        } else {
            CmpOp::GtA(nt_of(v[3]), a_of(v[0]), i_of(v[1]), i_of(v[2]))
        }
    } else if code == INSTR_LT {
        if general {
            CmpOp::LtR(r_of(v[0]), i16_of(v[1]), r_of(v[2]), i_of(v[3]))
        } else {
            CmpOp::LtA(nt_of(v[3]), a_of(v[0]), i_of(v[1]), i_of(v[2]))
        }
    } else if code == INSTR_EQA {
        CmpOp::EqA(a_of(v[0]), i_of(v[1]), a_of(v[2]), i_of(v[3]))
    } else if code == INSTR_EQR {
        CmpOp::EqR(r_of(v[0]), i_of(v[1]), r_of(v[2]), i_of(v[3]))
    } else if code == INSTR_LEN {
        CmpOp::Len(a_of(v[0]), i_of(v[1]))
    } else if code == INSTR_CNT {
        CmpOp::Cnt(a_of(v[0]), i_of(v[1]))
    } else if code == INSTR_ST2A {
        CmpOp::St2A
    } else {
        CmpOp::A2St
    }
}

/// Writing the arguments of a comparison instruction.
pub open spec fn compare_args_step(op: CmpOp, m: CursorModel) -> Step<()> {
    fields_step(m, compare_fields(op))
}

/// Writing a comparison instruction.
pub open spec fn compare_write_step(op: CmpOp, m: CursorModel) -> Step<()> {
    code_then_fields(m, compare_code(op), compare_fields(op))
}

/// Whether the code is that of an order comparison, whose first argument bit tells a
/// general-purpose register.
pub open spec fn is_order_code(code: u8) -> bool {
    code == INSTR_GT || code == INSTR_LT
}

/// Reading the leading bit an order comparison has; none for other codes.
pub open spec fn compare_lead_step(m: CursorModel, code: u8) -> Step<Seq<u16>> {
    if is_order_code(code) {
        reads_step(m, seq![Kind::Bits(1)])
    } else {
        (m, Ok(seq![]))
    }
}

/// Reading a comparison instruction: its code, the leading bit of an order comparison, then
/// the fields these call for.
pub open spec fn compare_read_step(m: CursorModel) -> Step<CmpOp> {
    match read_u8_step(m) {
        (m1, Ok(code)) => match compare_lead_step(m1, code) {
            (m2, Ok(lead)) => {
                let general = is_order_code(code) && lead[0] == 1;
                match reads_step(m2, compare_kinds(code, general)) {
                    (m3, Ok(v)) => (m3, Ok(compare_of(code, general, v))),
                    (m3, Err(e)) => (m3, Err(e)),
                }
            },
            (m2, Err(e)) => (m2, Err(e)),
        },
        (m1, Err(e)) => (m1, Err(e)),
    }
}

/// What reading a comparison instruction needs of the cursor: unless it is at its end, a byte
/// boundary, a code of the group, and room for the fields.
pub open spec fn compare_read_fit(m: CursorModel) -> bool {
    !m.eof ==> {
        &&& m.bit_pos == 0
        &&& m.byte_pos < m.bytes.len()
        &&& INSTR_GT <= m.bytes[m.byte_pos as int] <= INSTR_A2ST
        &&& read_u8_step(m).1 matches Ok(code) ==> {
            let m1 = read_u8_step(m).0;
            &&& is_order_code(code) ==> reads_fit(m1, seq![Kind::Bits(1)])
            &&& compare_lead_step(m1, code) matches (m2, Ok(lead)) ==> reads_fit(
                m2,
                compare_kinds(code, is_order_code(code) && lead[0] == 1),
            )
        }
    }
}

impl CmpOp {
    /// Number of bytes of the instruction with its arguments.
    pub fn byte_count(&self) -> (r: u16)
        ensures
            r == (if *self is St2A || *self is A2St {
                1u16
            } else if *self is Len || *self is Cnt {
                2u16
            } else {
                3u16
            }),
    {
        match self {
            CmpOp::St2A | CmpOp::A2St => 1,
            CmpOp::Len(..) | CmpOp::Cnt(..) => 2,
            _ => 3,
        }
    }

    /// Range of the operation codes of comparisons.
    pub fn instr_range() -> (r: (u8, u8))
        ensures
            r == (INSTR_GT, INSTR_A2ST),
    {
        (INSTR_GT, INSTR_A2ST)
    }

    /// Operation code of the instruction.
    pub fn instr_byte(&self) -> (r: u8)
        ensures
            r == compare_code(*self),
    {
        match self {
            CmpOp::GtA(..) | CmpOp::GtR(..) => INSTR_GT,
            CmpOp::LtA(..) | CmpOp::LtR(..) => INSTR_LT,
            CmpOp::EqA(..) => INSTR_EQA,
            CmpOp::EqR(..) => INSTR_EQR,
            CmpOp::Len(..) => INSTR_LEN,
            CmpOp::Cnt(..) => INSTR_CNT,
            CmpOp::St2A => INSTR_ST2A,
            CmpOp::A2St => INSTR_A2ST,
        }
    }

    /// Argument fields of the instruction.
    pub fn fields(&self) -> (r: Vec<Field>)
        ensures
            r@ == compare_fields(*self),
    {
        let r = match *self {
            CmpOp::GtA(t, a, i, j) | CmpOp::LtA(t, a, i, j) => vec![
                Field::Bits(0, 1),
                a_bits(a),
                i_bits(i),
                i_bits(j),
                Field::Bits(t.as_u2(), 2),
            ],
            CmpOp::GtR(r1, i, r2, j) | CmpOp::LtR(r1, i, r2, j) => vec![
                Field::Bits(1, 1),
                r_bits(r1),
                Field::Bits(i.to_usize() as u8, 4),
                r_bits(r2),
                i_bits(j),
            ],
            CmpOp::EqA(a1, i, a2, j) => vec![a_bits(a1), i_bits(i), a_bits(a2), i_bits(j)],
            CmpOp::EqR(r1, i, r2, j) => vec![r_bits(r1), i_bits(i), r_bits(r2), i_bits(j)],
            CmpOp::Len(a, i) | CmpOp::Cnt(a, i) => vec![a_bits(a), i_bits(i)],
            CmpOp::St2A | CmpOp::A2St => Vec::new(),
        };
        assert(r@ =~= compare_fields(*self));
        r
    }

    /// Writes the arguments of the instruction, without its code.
    pub fn write_args(&self, c: &mut Cursor) -> (r: Result<(), EncodeError>)
        requires
            old(c).wf(),
            fields_fit(old(c)@, compare_fields(*self)),
        ensures
            final(c).wf(),
            final(c)@ == compare_args_step(*self, old(c)@).0,
            r == encode_failure(compare_args_step(*self, old(c)@).1),
    {
        let fs = self.fields();
        match write_fields(c, &fs) {
            Ok(()) => Ok(()),
            Err(e) => Err(EncodeError::Cursor(e)),
        }
    }

    /// Writes the instruction: its code, then its arguments.
    pub fn write(&self, c: &mut Cursor) -> (r: Result<(), EncodeError>)
        requires
            old(c).wf(),
            code_then_fields_fit(old(c)@, compare_code(*self), compare_fields(*self)),
        ensures
            final(c).wf(),
            final(c)@ == compare_write_step(*self, old(c)@).0,
            r == encode_failure(compare_write_step(*self, old(c)@).1),
    {
        let fs = self.fields();
        write_code_then_fields(c, self.instr_byte(), &fs)
    }

    /// Reads a comparison; the code at the cursor must be of the group.
    pub fn read(c: &mut Cursor) -> (r: Result<CmpOp, DecodeError>)
        requires
            old(c).wf(),
            compare_read_fit(old(c)@),
        ensures
            final(c).wf(),
            final(c)@ == compare_read_step(old(c)@).0,
            r == decode_failure(compare_read_step(old(c)@).1),
    {
        let code = match c.read_u8() {
            Ok(b) => b,
            Err(e) => return Err(DecodeError::Cursor(e)),
        };
        let ghost m1 = c@;
        let order = code == INSTR_GT || code == INSTR_LT;
        let mut general = false;
        if order {
            let lk = vec![Kind::Bits(1)];
            assert(lk@ =~= seq![Kind::Bits(1)]);
            let lead = match read_fields(c, &lk) {
                Ok(v) => v,
                Err(e) => return Err(DecodeError::Cursor(e)),
            };
            proof {
                crate::fields::lemma_reads_len(m1, lk@);
            }
            general = lead[0] == 1;
        }
        let ghost m2 = c@;
        let ks = if order {
            if general {
                vec![Kind::Bits(3), Kind::Bits(4), Kind::Bits(3), Kind::Bits(5)]
            } else {
                vec![Kind::Bits(3), Kind::Bits(5), Kind::Bits(5), Kind::Bits(2)]
            }
        } else if code == INSTR_EQA || code == INSTR_EQR {
            vec![Kind::Bits(3), Kind::Bits(5), Kind::Bits(3), Kind::Bits(5)]
        } else if code == INSTR_LEN || code == INSTR_CNT {
            vec![Kind::Bits(3), Kind::Bits(5)]
        } else {
            Vec::new()
        };
        assert(ks@ =~= compare_kinds(code, general));
        let v = match read_fields(c, &ks) {
            Ok(v) => v,
            Err(e) => return Err(DecodeError::Cursor(e)),
        };
        proof {
            crate::fields::lemma_reads_len(m2, ks@);
        }
        let op = if code == INSTR_GT {
            if general {
                CmpOp::GtR(r_from(v[0]), i16_from(v[1]), r_from(v[2]), i_from(v[3]))
            } else {
                CmpOp::GtA(nt_from(v[3]), a_from(v[0]), i_from(v[1]), i_from(v[2]))
            }
        } else if code == INSTR_LT {
            if general {
                CmpOp::LtR(r_from(v[0]), i16_from(v[1]), r_from(v[2]), i_from(v[3]))
            } else {
                CmpOp::LtA(nt_from(v[3]), a_from(v[0]), i_from(v[1]), i_from(v[2]))
            }
        } else if code == INSTR_EQA {
            CmpOp::EqA(a_from(v[0]), i_from(v[1]), a_from(v[2]), i_from(v[3]))
        } else if code == INSTR_EQR {
            CmpOp::EqR(r_from(v[0]), i_from(v[1]), r_from(v[2]), i_from(v[3]))
        } else if code == INSTR_LEN {
            CmpOp::Len(a_from(v[0]), i_from(v[1]))
        } else if code == INSTR_CNT {
            CmpOp::Cnt(a_from(v[0]), i_from(v[1]))
        } else if code == INSTR_ST2A {
            CmpOp::St2A
        } else {
            CmpOp::A2St
        };
        Ok(op)
    }
}

/// Operation code of `zero` on an arithmetic register.
pub const INSTR_ZEROA: u8 = 0b00_001_000;
/// Operation code of `zero` on a general-purpose register.
pub const INSTR_ZEROR: u8 = 0b00_001_001;
/// Operation code of `cl` on an arithmetic register.
pub const INSTR_CLA: u8 = 0b00_001_010;
/// Operation code of `cl` on a general-purpose register.
pub const INSTR_CLR: u8 = 0b00_001_011;
/// Operation code of `put` into an arithmetic register.
pub const INSTR_PUTA: u8 = 0b00_001_100;
/// Operation code of `put` into a general-purpose register.
pub const INSTR_PUTR: u8 = 0b00_001_101;
/// Operation code of `putif` into an arithmetic register.
pub const INSTR_PUTIFA: u8 = 0b00_001_110;
/// Operation code of `putif` into a general-purpose register.
pub const INSTR_PUTIFR: u8 = 0b00_001_111;

/// A value to put into a register: up to 1024 little-endian bytes.
#[derive(Clone, Debug, PartialEq, Eq)]
pub struct Value {
    bytes: Vec<u8>,
}

impl View for Value {
    type V = Seq<u8>;

    closed spec fn view(&self) -> Seq<u8> {
        self.bytes@
    }
}

impl Value {
    /// Value of the given bytes, at most 1024 of them.
    pub fn with(bytes: &[u8]) -> (r: Value)
        requires
            bytes@.len() <= 1024,
        ensures
            r@ == bytes@,
    {
        Value { bytes: crate::number::slice_to_vec(bytes) }
    }

    /// Number of bytes of the value.
    pub fn len(&self) -> (r: usize)
        ensures
            r == self@.len(),
    {
        self.bytes.len()
    }

    /// Byte at a position.
    pub fn byte(&self, i: usize) -> (r: u8)
        requires
            i < self@.len(),
        ensures
            r == self@[i as int],
    {
        self.bytes[i]
    }
}

/// Instructions putting values into registers or clearing them.
#[derive(Clone, Debug, PartialEq, Eq)]
pub enum PutOp {
    /// Sets an arithmetic register to zero.
    ZeroA(RegA, Reg32),
    /// Sets a general-purpose register to zero.
    ZeroR(RegR, Reg32),
    /// Clears an arithmetic register.
    ClA(RegA, Reg32),
    /// Clears a general-purpose register.
    ClR(RegR, Reg32),
    /// Puts a value into an arithmetic register.
    PutA(RegA, Reg32, Value),
    /// Puts a value into a general-purpose register.
    PutR(RegR, Reg32, Value),
    /// Puts a value into an arithmetic register when it is unset.
    PutIfA(RegA, Reg32, Value),
    /// Puts a value into a general-purpose register when it is unset.
    PutIfR(RegR, Reg32, Value),
}

/// Operation code of a put instruction.
pub open spec fn put_code(op: PutOp) -> u8 {
    match op {
        PutOp::ZeroA(..) => INSTR_ZEROA,
        PutOp::ZeroR(..) => INSTR_ZEROR,
        PutOp::ClA(..) => INSTR_CLA,
        PutOp::ClR(..) => INSTR_CLR,
        PutOp::PutA(..) => INSTR_PUTA,
        PutOp::PutR(..) => INSTR_PUTR,
        PutOp::PutIfA(..) => INSTR_PUTIFA,
        PutOp::PutIfR(..) => INSTR_PUTIFR,
    }
}

/// Byte fields of a value written into a register of `width` bytes: its bytes, then zeros.
pub open spec fn value_fields(v: Seq<u8>, width: nat) -> Seq<Field> {
    Seq::new(width, |i: int| Field::Byte(if i < v.len() { v[i] } else { 0u8 }))
}

/// Width in bytes of the register a put instruction writes a value into; zero for the others.
pub open spec fn put_width(op: PutOp) -> nat {
    match op {
        PutOp::PutA(a, _, _) | PutOp::PutIfA(a, _, _) => a.spec_bytes() as nat,
        PutOp::PutR(r, _, _) | PutOp::PutIfR(r, _, _) => r.spec_bytes() as nat,
        _ => 0,
    }
}

/// The argument fields of a put instruction: the register block and index, then, for a value,
/// the register's width of bytes.
pub open spec fn put_fields(op: PutOp) -> Seq<Field> {
    match op {
        PutOp::ZeroA(a, i) | PutOp::ClA(a, i) => seq![Field::Bits(a_code(a), 3), Field::Bits(i_code(i), 5)],
        PutOp::ZeroR(r, i) | PutOp::ClR(r, i) => seq![Field::Bits(r_code(r), 3), Field::Bits(i_code(i), 5)],
        PutOp::PutA(a, i, v) | PutOp::PutIfA(a, i, v) => seq![Field::Bits(a_code(a), 3), Field::Bits(i_code(i), 5)]
            + value_fields(v@, put_width(op)),
        PutOp::PutR(r, i, v) | PutOp::PutIfR(r, i, v) => seq![Field::Bits(r_code(r), 3), Field::Bits(i_code(i), 5)]
            + value_fields(v@, put_width(op)),
    }
}

/// Whether a put instruction can be written: a value fits its register.
pub open spec fn put_writable(op: PutOp) -> bool {
    match op {
        PutOp::PutA(_, _, v) | PutOp::PutIfA(_, _, v) | PutOp::PutR(_, _, v) | PutOp::PutIfR(_, _, v) => v@.len() <= put_width(op),
        _ => true,
    }
}

/// Writing the arguments of a put instruction.
pub open spec fn put_args_step(op: PutOp, m: CursorModel) -> Step<()> {
    fields_step(m, put_fields(op))
}

/// Writing a put instruction.
pub open spec fn put_write_step(op: PutOp, m: CursorModel) -> Step<()> {
    code_then_fields(m, put_code(op), put_fields(op))
}

/// Width in bytes of the register of a put code and 3-bit block code; zero for codes that carry
/// no value.
pub open spec fn put_code_width(code: u8, block: u16) -> nat {
    if code == INSTR_PUTA || code == INSTR_PUTIFA {
        a_of(block).spec_bytes() as nat
    } else if code == INSTR_PUTR || code == INSTR_PUTIFR {
        r_of(block).spec_bytes() as nat
    } else {
        0
    }
}

/// Shapes of `n` byte fields.
pub open spec fn byte_kinds(n: nat) -> Seq<Kind> {
    Seq::new(n, |i: int| Kind::Byte)
}

/// Content of a put instruction, with a value as its bytes.
pub enum PutModel {
    /// See [`PutOp::ZeroA`].
    ZeroA(RegA, Reg32),
    /// See [`PutOp::ZeroR`].
    ZeroR(RegR, Reg32),
    /// See [`PutOp::ClA`].
    ClA(RegA, Reg32),
    /// See [`PutOp::ClR`].
    ClR(RegR, Reg32),
    /// See [`PutOp::PutA`].
    PutA(RegA, Reg32, Seq<u8>),
    /// See [`PutOp::PutR`].
    PutR(RegR, Reg32, Seq<u8>),
    /// See [`PutOp::PutIfA`].
    PutIfA(RegA, Reg32, Seq<u8>),
    /// See [`PutOp::PutIfR`].
    PutIfR(RegR, Reg32, Seq<u8>),
}

/// Content of a put instruction.
pub open spec fn put_model(op: PutOp) -> PutModel {
    match op {
        PutOp::ZeroA(a, i) => PutModel::ZeroA(a, i),
        PutOp::ZeroR(r, i) => PutModel::ZeroR(r, i),
        PutOp::ClA(a, i) => PutModel::ClA(a, i),
        PutOp::ClR(r, i) => PutModel::ClR(r, i),
        PutOp::PutA(a, i, v) => PutModel::PutA(a, i, v@),
        PutOp::PutR(r, i, v) => PutModel::PutR(r, i, v@),
        PutOp::PutIfA(a, i, v) => PutModel::PutIfA(a, i, v@),
        PutOp::PutIfR(r, i, v) => PutModel::PutIfR(r, i, v@),
    }
}

/// The put instruction of a code, its register fields and the value bytes read.
pub open spec fn put_of(code: u8, v: Seq<u16>, bytes: Seq<u16>) -> PutModel {
    let val = Seq::new(bytes.len(), |i: int| bytes[i] as u8);
    if code == INSTR_ZEROA {
        PutModel::ZeroA(a_of(v[0]), i_of(v[1]))
    } else if code == INSTR_ZEROR {
        PutModel::ZeroR(r_of(v[0]), i_of(v[1]))
    } else if code == INSTR_CLA {
        PutModel::ClA(a_of(v[0]), i_of(v[1]))
    } else if code == INSTR_CLR {
        PutModel::ClR(r_of(v[0]), i_of(v[1]))
    } else if code == INSTR_PUTA {
        PutModel::PutA(a_of(v[0]), i_of(v[1]), val)
    } else if code == INSTR_PUTR {
        PutModel::PutR(r_of(v[0]), i_of(v[1]), val)
    } else if code == INSTR_PUTIFA {
        PutModel::PutIfA(a_of(v[0]), i_of(v[1]), val)
    } else {
        PutModel::PutIfR(r_of(v[0]), i_of(v[1]), val)
    }
}

/// Reading a put instruction: its code, the register block and index, then, for a value, the
/// register's width of bytes.
pub open spec fn put_read_step(m: CursorModel) -> Step<PutModel> {
    match read_u8_step(m) {
        (m1, Ok(code)) => match reads_step(m1, seq![Kind::Bits(3), Kind::Bits(5)]) {
            (m2, Ok(v)) => match reads_step(m2, byte_kinds(put_code_width(code, v[0]))) {
                (m3, Ok(b)) => (m3, Ok(put_of(code, v, b))),
                (m3, Err(e)) => (m3, Err(e)),
            },
            (m2, Err(e)) => (m2, Err(e)),
        },
        (m1, Err(e)) => (m1, Err(e)),
    }
}

/// What reading a put instruction needs of the cursor: unless it is at its end, a byte
/// boundary, a put code, and room for the register fields and the value.
pub open spec fn put_read_fit(m: CursorModel) -> bool {
    &&& m.bytes.len() <= u16::MAX
    &&& !m.eof ==> {
        &&& m.bit_pos == 0
        &&& m.byte_pos + 2 <= m.bytes.len()
        &&& INSTR_ZEROA <= m.bytes[m.byte_pos as int] <= INSTR_PUTIFR
        &&& m.byte_pos + 2 + put_code_width(
            m.bytes[m.byte_pos as int],
            crate::cursor::bits_at(m.bytes[m.byte_pos + 1], 0, 3) as u16,
        ) <= m.bytes.len()
    }
}

/// Outcome of reading a put instruction given what its step reads.
pub open spec fn put_read_result(r: Result<PutOp, DecodeError>, s: Result<PutModel, crate::codec::CursorError>) -> bool {
    match s {
        Err(e) => r == Err::<PutOp, DecodeError>(DecodeError::Cursor(e)),
        Ok(p) => r matches Ok(op) && put_model(op) == p,
    }
}

/// Fields of `n` bytes appended to well-shaped fields ending on a byte boundary keep them well
/// shaped, and add eight bits each.
proof fn lemma_append_bytes(pre: Seq<Field>, bs: Seq<Field>)
    requires
        crate::fields::fields_ok(pre),
        crate::fields::fields_bits(pre) % 8 == 0,
        forall|i: int| 0 <= i < bs.len() ==> bs[i] is Byte,
    ensures
        crate::fields::fields_ok(pre + bs),
        crate::fields::fields_bits(pre + bs) == crate::fields::fields_bits(pre) + 8 * bs.len(),
    decreases bs.len(),
{
    if bs.len() == 0 {
        assert(pre + bs =~= pre);
    } else {
        lemma_append_bytes(pre, bs.drop_last());
        assert((pre + bs).drop_last() =~= pre + bs.drop_last());
        assert((pre + bs).last() == bs.last());
        assert(bs.last() == bs[bs.len() - 1]);
    }
}

/// The fields of a put instruction are well shaped and take two bytes and the value's width.
pub(crate) proof fn lemma_put_fields(op: PutOp)
    ensures
        crate::fields::fields_ok(put_fields(op)),
        crate::fields::fields_bits(put_fields(op)) == 8 + 8 * put_width(op),
{
    reveal_with_fuel(crate::fields::fields_ok, 3);
    reveal_with_fuel(crate::fields::fields_bits, 3);
    let pre = seq![Field::Bits(0, 3), Field::Bits(0, 5)];
    match op {
        PutOp::ZeroA(a, i) | PutOp::ClA(a, i) => {
            let f = put_fields(op);
            assert(f.drop_last() =~= seq![Field::Bits(a_code(a), 3)]);
            assert(f.drop_last().drop_last() =~= Seq::<Field>::empty());
        },
        PutOp::ZeroR(r, i) | PutOp::ClR(r, i) => {
            let f = put_fields(op);
            assert(f.drop_last() =~= seq![Field::Bits(r_code(r), 3)]);
            assert(f.drop_last().drop_last() =~= Seq::<Field>::empty());
        },
        PutOp::PutA(a, i, v) | PutOp::PutIfA(a, i, v) => {
            let h = seq![Field::Bits(a_code(a), 3), Field::Bits(i_code(i), 5)];
            assert(h.drop_last() =~= seq![Field::Bits(a_code(a), 3)]);
            assert(h.drop_last().drop_last() =~= Seq::<Field>::empty());
            lemma_append_bytes(h, value_fields(v@, put_width(op)));
        },
        PutOp::PutR(r, i, v) | PutOp::PutIfR(r, i, v) => {
            let h = seq![Field::Bits(r_code(r), 3), Field::Bits(i_code(i), 5)];
            assert(h.drop_last() =~= seq![Field::Bits(r_code(r), 3)]);
            assert(h.drop_last().drop_last() =~= Seq::<Field>::empty());
            lemma_append_bytes(h, value_fields(v@, put_width(op)));
        },
    }
}

/// Shapes of byte fields are well formed and take eight bits each.
proof fn lemma_byte_kinds(n: nat)
    ensures
        crate::fields::kinds_ok(byte_kinds(n)),
        crate::fields::kinds_bits(byte_kinds(n)) == 8 * n,
    decreases n,
{
    if n > 0 {
        lemma_byte_kinds((n - 1) as nat);
        assert(byte_kinds(n).drop_last() =~= byte_kinds((n - 1) as nat));
    }
}

/// After the code byte of a put instruction, its register fields are read, ending on the next
/// byte boundary, and the block code read is the low three bits of the byte after the code.
proof fn lemma_put_head_reads(m0: CursorModel, m1: CursorModel, ks: Seq<Kind>)
    requires
        put_read_fit(m0),
        read_u8_step(m0) == (m1, Ok::<u8, crate::codec::CursorError>(m0.bytes[m0.byte_pos as int])),
        !m0.eof,
        ks == seq![Kind::Bits(3), Kind::Bits(5)],
    ensures
        reads_fit(m1, ks),
        reads_step(m1, ks).1 is Ok,
        reads_step(m1, ks).0.byte_pos == m0.byte_pos + 2,
        reads_step(m1, ks).0.bit_pos == 0,
        !reads_step(m1, ks).0.eof,
        reads_step(m1, ks).0.bytes == m0.bytes,
        reads_step(m1, ks).1->Ok_0[0] == crate::cursor::bits_at(m0.bytes[m0.byte_pos + 1], 0, 3) as u16,
{
    reveal_with_fuel(crate::fields::kinds_ok, 3);
    reveal_with_fuel(crate::fields::kinds_bits, 3);
    reveal_with_fuel(crate::fields::reads_step, 3);
    assert(ks.drop_last() =~= seq![Kind::Bits(3)]);
    assert(ks.drop_last().drop_last() =~= Seq::<Kind>::empty());
    crate::fields::lemma_reads(m1, ks);
}

impl PutOp {
    /// Number of bytes of the instruction with its arguments: two, and the width of the
    /// register a value is put into.
    pub fn byte_count(&self) -> (r: u16)
        ensures
            r == 2 + put_width(*self),
    {
        match self {
            PutOp::PutA(a, _, _) | PutOp::PutIfA(a, _, _) => 2 + a.bytes(),
            PutOp::PutR(r, _, _) | PutOp::PutIfR(r, _, _) => 2 + r.bytes(),
            _ => 2,
        }
    }

    /// Range of the operation codes of put instructions.
    pub fn instr_range() -> (r: (u8, u8))
        ensures
            r == (INSTR_ZEROA, INSTR_PUTIFR),
    {
        (INSTR_ZEROA, INSTR_PUTIFR)
    }

    /// Operation code of the instruction.
    pub fn instr_byte(&self) -> (r: u8)
        ensures
            r == put_code(*self),
    {
        match self {
            PutOp::ZeroA(..) => INSTR_ZEROA,
            PutOp::ZeroR(..) => INSTR_ZEROR,
            PutOp::ClA(..) => INSTR_CLA,
            PutOp::ClR(..) => INSTR_CLR,
            PutOp::PutA(..) => INSTR_PUTA,
            PutOp::PutR(..) => INSTR_PUTR,
            PutOp::PutIfA(..) => INSTR_PUTIFA,
            PutOp::PutIfR(..) => INSTR_PUTIFR,
        }
    }

    /// Argument fields of the instruction.
    pub fn fields(&self) -> (r: Vec<Field>)
        ensures
            r@ == put_fields(*self),
    {
        let (b, i, val, width) = match self {
            PutOp::ZeroA(a, i) | PutOp::ClA(a, i) => (a_bits(*a), *i, None, 0usize),
            PutOp::ZeroR(r, i) | PutOp::ClR(r, i) => (r_bits(*r), *i, None, 0usize),
            PutOp::PutA(a, i, v) | PutOp::PutIfA(a, i, v) => (a_bits(*a), *i, Some(v), a.bytes() as usize),
            PutOp::PutR(r, i, v) | PutOp::PutIfR(r, i, v) => (r_bits(*r), *i, Some(v), r.bytes() as usize),
        };
        let mut out = vec![b, i_bits(i)];
        let ghost head = out@;
        match val {
            None => {
                assert(out@ =~= put_fields(*self));
            },
            Some(v) => {
                let mut k: usize = 0;
                while k < width
                    invariant
                        k <= width,
                        width == put_width(*self),
                        out@ == head + value_fields(v@, k as nat),
                    decreases width - k,
                {
                    let x = if k < v.len() { v.byte(k) } else { 0u8 };
                    out.push(Field::Byte(x));
                    k += 1;
                    assert(out@ =~= head + value_fields(v@, k as nat));
                }
                assert(out@ =~= put_fields(*self));
            },
        }
        out
    }

    /// Writes the arguments of the instruction, without its code.
    pub fn write_args(&self, c: &mut Cursor) -> (r: Result<(), EncodeError>)
        requires
            old(c).wf(),
            fields_fit(old(c)@, put_fields(*self)),
            put_writable(*self),
        ensures
            final(c).wf(),
            final(c)@ == put_args_step(*self, old(c)@).0,
            r == encode_failure(put_args_step(*self, old(c)@).1),
    {
        let fs = self.fields();
        match write_fields(c, &fs) {
            Ok(()) => Ok(()),
            Err(e) => Err(EncodeError::Cursor(e)),
        }
    }

    /// Writes the instruction: its code, then its arguments. A value is written as the bytes of
    /// its register's width, zeros after its own bytes; it must not be wider than the register.
    pub fn write(&self, c: &mut Cursor) -> (r: Result<(), EncodeError>)
        requires
            old(c).wf(),
            code_then_fields_fit(old(c)@, put_code(*self), put_fields(*self)),
            put_writable(*self),
        ensures
            final(c).wf(),
            final(c)@ == put_write_step(*self, old(c)@).0,
            r == encode_failure(put_write_step(*self, old(c)@).1),
    {
        let fs = self.fields();
        write_code_then_fields(c, self.instr_byte(), &fs)
    }

    /// Reads a put instruction; the code at the cursor must be of the group.
    #[verifier::rlimit(40)]
    pub fn read(c: &mut Cursor) -> (r: Result<PutOp, DecodeError>)
        requires
            old(c).wf(),
            put_read_fit(old(c)@),
        ensures
            final(c).wf(),
            final(c)@ == put_read_step(old(c)@).0,
            put_read_result(r, put_read_step(old(c)@).1),
    {
        let ghost m0 = c@;
        let code = match c.read_u8() {
            Ok(b) => b,
            Err(e) => return Err(DecodeError::Cursor(e)),
        };
        let ghost m1 = c@;
        let ks = vec![Kind::Bits(3), Kind::Bits(5)];
        proof {
            lemma_put_head_reads(m0, m1, ks@);
        }
        let v = match read_fields(c, &ks) {
            Ok(v) => v,
            Err(e) => return Err(DecodeError::Cursor(e)),
        };
        proof {
            crate::fields::lemma_reads_len(m1, ks@);
        }
        let ghost m2 = c@;
        let block = v[0];
        let width: usize = if code == INSTR_PUTA || code == INSTR_PUTIFA {
            a_from(block).bytes() as usize
        } else if code == INSTR_PUTR || code == INSTR_PUTIFR {
            r_from(block).bytes() as usize
        } else {
            0
        };
        let mut bk: Vec<Kind> = Vec::new();
        let mut k: usize = 0;
        while k < width
            invariant
                k <= width,
                bk@ == byte_kinds(k as nat),
            decreases width - k,
        {
            bk.push(Kind::Byte);
            k += 1;
            assert(bk@ =~= byte_kinds(k as nat));
        }
        proof {
            lemma_byte_kinds(width as nat);
            crate::fields::lemma_reads(m2, bk@);
        }
        let b = match read_fields(c, &bk) {
            Ok(b) => b,
            Err(e) => return Err(DecodeError::Cursor(e)),
        };
        let mut val: Vec<u8> = Vec::new();
        let mut j: usize = 0;
        while j < b.len()
            invariant
                j <= b@.len(),
                val@ == Seq::new(j as nat, |t: int| b@[t] as u8),
            decreases b.len() - j,
        {
            val.push(b[j] as u8);
            j += 1;
            assert(val@ =~= Seq::new(j as nat, |t: int| b@[t] as u8));
        }
        let reg = i_from(v[1]);
        let vv = Value { bytes: val };
        let op = if code == INSTR_ZEROA {
            PutOp::ZeroA(a_from(block), reg)
        } else if code == INSTR_ZEROR {
            PutOp::ZeroR(r_from(block), reg)
        } else if code == INSTR_CLA {
            PutOp::ClA(a_from(block), reg)
        } else if code == INSTR_CLR {
            PutOp::ClR(r_from(block), reg)
        } else if code == INSTR_PUTA {
            PutOp::PutA(a_from(block), reg, vv)
        } else if code == INSTR_PUTR {
            PutOp::PutR(r_from(block), reg, vv)
        } else if code == INSTR_PUTIFA {
            PutOp::PutIfA(a_from(block), reg, vv)
        } else {
            PutOp::PutIfR(r_from(block), reg, vv)
        };
        Ok(op)
    }
}

} // verus!
