//! Instructions of the machine and the flags that parametrize them.

use vstd::prelude::*;

use crate::bytestr::ByteStr;
use crate::flags::IntFlags;
use crate::library::LibSite;
use crate::number::Number;
use crate::reg::{Reg32, Reg8, RegA, RegA2, RegAR, RegBlockAR, RegR};

verus! {

/// Movement of the machine after an instruction.
#[derive(Clone, Copy, PartialEq, Eq, Structural, Debug, Hash)]
pub enum ExecStep {
    /// Stop the program.
    Stop,
    /// Go on with the next instruction.
    Next,
    /// Jump to an offset in the current code.
    Jump(u16),
    /// Go on at a site of another library.
    Call(LibSite),
}

/// Signedness of a comparison or shift.
#[derive(Clone, Copy, PartialEq, Eq, Structural, Debug, Hash)]
pub enum SignFlag {
    /// Unsigned integers.
    Unsigned,
    /// Signed integers.
    Signed,
}

/// Result of comparing registers when one of them is unset.
#[derive(Clone, Copy, PartialEq, Eq, Structural, Debug, Hash)]
pub enum NoneEqFlag {
    /// Unset registers compare equal.
    Equal,
    /// Unset registers compare unequal.
    NonEqual,
}

/// How the status flag is merged into a register.
#[derive(Clone, Copy, PartialEq, Eq, Structural, Debug, Hash)]
pub enum MergeFlag {
    /// The register takes the status (replacing its value).
    Replace,
    /// The status is added to the register.
    Add,
    /// The register is masked with the status by AND.
    And,
    /// The register is masked with the status by OR.
    Or,
}

/// What filling a byte string does when the range reaches beyond its length.
#[derive(Clone, Copy, PartialEq, Eq, Structural, Debug, Hash)]
pub enum ExtendFlag {
    /// The string is extended.
    Extend,
    /// The operation fails.
    Fail,
}

/// Instructions that change the flow of control.
#[derive(Clone, Copy, PartialEq, Eq, Structural, Debug, Hash)]
pub enum ControlFlowOp {
    /// Stops with a failure status.
    Fail,
    /// Stops with a success status.
    Succ,
    /// Jumps to an offset.
    Jmp(u16),
    /// Jumps to an offset when the status is set.
    Jif(u16),
    /// Calls a routine at an offset, pushing the current site.
    Routine(u16),
    /// Calls another library, pushing the site.
    Call(LibSite),
    /// Passes control to another library without return.
    Exec(LibSite),
    /// Returns to the latest pushed site.
    Ret,
}

/// Instructions that set or clear registers.
#[derive(Clone, Debug)]
pub enum PutOp {
    /// Clears an arithmetic register.
    ClrA(RegA, Reg32),
    /// Clears a general-purpose register.
    ClrR(RegR, Reg32),
    /// Puts a value into an arithmetic register.
    PutA(RegA, Reg32, Option<Number>),
    /// Puts a value into a general-purpose register.
    PutR(RegR, Reg32, Option<Number>),
    /// Puts a value into an arithmetic register when it is unset.
    PutIfA(RegA, Reg32, Option<Number>),
    /// Puts a value into a general-purpose register when it is unset.
    PutIfR(RegR, Reg32, Option<Number>),
}

/// Instructions that move values between registers.
#[derive(Clone, Copy, PartialEq, Eq, Structural, Debug, Hash)]
pub enum MoveOp {
    /// Moves a value between arithmetic registers of one block, clearing the source.
    MovA(RegA, Reg32, Reg32),
    /// Duplicates a value between arithmetic registers of one block.
    DupA(RegA, Reg32, Reg32),
    /// Swaps two arithmetic registers of one block.
    SwpA(RegA, Reg32, Reg32),
    /// Moves a value between general-purpose registers of one block, clearing the source.
    MovR(RegR, Reg32, Reg32),
    /// Duplicates a value between general-purpose registers of one block.
    DupR(RegR, Reg32, Reg32),
    /// Copies a value between arithmetic blocks as unsigned.
    CpyA(RegA, Reg32, RegA, Reg32),
    /// Copies a value between arithmetic blocks as signed.
    CnvA(RegA, Reg32, RegA, Reg32),
    /// Copies a value between general-purpose blocks.
    CpyR(RegR, Reg32, RegR, Reg32),
    /// Swaps an arithmetic and a general-purpose register.
    SpyAR(RegA, Reg32, RegR, Reg32),
}

/// Instructions that compare values and set the status flag.
#[derive(Clone, Copy, PartialEq, Eq, Structural, Debug, Hash)]
pub enum CmpOp {
    /// Whether the first arithmetic register is greater.
    GtA(SignFlag, RegA, Reg32, Reg32),
    /// Whether the first arithmetic register is less.
    LtA(SignFlag, RegA, Reg32, Reg32),
    /// Whether the first general-purpose register is greater.
    GtR(RegR, Reg32, Reg32),
    /// Whether the first general-purpose register is less.
    LtR(RegR, Reg32, Reg32),
    /// Whether two arithmetic registers are equal.
    EqA(NoneEqFlag, RegA, Reg32, Reg32),
    /// Whether two general-purpose registers are equal.
    EqR(NoneEqFlag, RegR, Reg32, Reg32),
    /// Whether an arithmetic register holds zero.
    IfZA(RegA, Reg32),
    /// Whether a general-purpose register holds zero.
    IfZR(RegR, Reg32),
    /// Whether an arithmetic register is unset.
    IfNA(RegA, Reg32),
    /// Whether a general-purpose register is unset.
    IfNR(RegR, Reg32),
    /// Merges the status into an arithmetic register.
    St(MergeFlag, RegA, Reg8),
    /// Inverts the status.
    StInv,
}

/// Integer arithmetic instructions.
#[derive(Clone, Copy, PartialEq, Eq, Structural, Debug, Hash)]
pub enum ArithmeticOp {
    /// Adds the first register to the second.
    AddA(IntFlags, RegA, Reg32, Reg32),
    /// Subtracts the first register from the second.
    SubA(IntFlags, RegA, Reg32, Reg32),
    /// Multiplies the second register by the first.
    MulA(IntFlags, RegA, Reg32, Reg32),
    /// Divides the first register by the second, into the second.
    DivA(IntFlags, RegA, Reg32, Reg32),
    /// Remainder of dividing the first register by the second, into the second.
    Rem(RegA, Reg32, RegA, Reg32),
    /// Adds a step (a negative one subtracts) to a register.
    Stp(RegA, Reg32, i8),
    /// Negates a register.
    Neg(RegA, Reg32),
    /// Takes the absolute value of a register.
    Abs(RegA, Reg32),
}

/// Bitwise instructions.
#[derive(Clone, Copy, PartialEq, Eq, Structural, Debug, Hash)]
pub enum BitwiseOp {
    /// AND of two registers into a third.
    And(RegAR, Reg32, Reg32, Reg32),
    /// OR of two registers into a third.
    Or(RegAR, Reg32, Reg32, Reg32),
    /// Exclusive OR of two registers into a third.
    Xor(RegAR, Reg32, Reg32, Reg32),
    /// Inverts all bits of a register.
    Not(RegAR, Reg32),
    /// Shifts a register left by an `a8` or `a16` amount.
    Shl(RegA2, Reg32, RegAR, Reg32),
    /// Shifts an arithmetic register right, signed or unsigned.
    ShrA(SignFlag, RegA2, Reg32, RegA, Reg32),
    /// Shifts a general-purpose register right.
    ShrR(RegA2, Reg32, RegR, Reg32),
    /// Rotates a register left.
    Scl(RegA2, Reg32, RegAR, Reg32),
    /// Rotates a register right.
    Scr(RegA2, Reg32, RegAR, Reg32),
    /// Reverses the bits of an arithmetic register.
    RevA(RegA, Reg32),
    /// Reverses the bits of a general-purpose register.
    RevR(RegR, Reg32),
}

/// Byte string instructions; string registers are named by their index.
#[derive(Debug)]
pub enum BytesOp {
    /// Puts a string into a register, clearing the status when the flag is set.
    Put(u8, ByteStr, bool),
    /// Moves a string between registers, clearing the source.
    Mov(u8, u8),
    /// Swaps two string registers.
    Swp(u8, u8),
    /// Fills a range (offsets in `a16` registers) with a byte from an `a8` register.
    Fill(u8, Reg32, Reg32, Reg32, ExtendFlag),
    /// Puts the length of a string into an arithmetic register.
    Len(u8, RegA, Reg32),
    /// Counts the occurrences of the byte of an `a8` register into an `a16` register.
    Cnt(u8, Reg32, Reg32),
    /// Whether two string registers are equal.
    Eq(u8, u8),
    /// Counts the occurrences of one string in another into `a16[0]`.
    Find(u8, u8),
    /// Puts the reversed string into another register.
    Rev(u8, u8),
    /// Finds the fragment, given by the count in an `a16` register, where two strings agree,
    /// putting its offset and length into `a16` registers.
    Con(u8, u8, Reg32, Reg32, Reg32),
    /// Extracts a value at the offset of an `a16` register into a numeric register.
    Extr(u8, RegAR, Reg32, Reg32),
    /// Injects a numeric register into a string at the offset of an `a16` register.
    Inj(u8, RegAR, Reg32, Reg32),
    /// Joins two strings into a third register.
    Join(u8, u8, u8),
    /// Splits a string at an offset.
    Splt(u8, Reg32, u8, u8, u8),
    /// Inserts a string into another at an offset.
    Ins(u8, Reg32, u8, u8),
    /// Deletes a range of a string: flag, the blocks and indices of the two offsets, two flags,
    /// source and destination.
    Del(u8, RegA2, Reg32, RegA2, Reg32, bool, bool, u8, u8),
}

/// Hashing instructions.
#[derive(Clone, Copy, PartialEq, Eq, Structural, Debug, Hash)]
pub enum DigestOp {
    /// RIPEMD-160 of a string into an `r160` register.
    Ripemd(u8, Reg8),
    /// SHA-256 of a string into an `r256` register.
    Sha256(u8, Reg8),
    /// SHA-512 of a string into an `r512` register.
    Sha512(u8, Reg8),
}

/// Instructions on the secp256k1 curve; points are held as 64 bytes in `r512` registers.
#[derive(Clone, Copy, PartialEq, Eq, Structural, Debug, Hash)]
pub enum Secp256k1Op {
    /// Multiplies the generator by the scalar of an `r256` register.
    Gen(Reg32, Reg8),
    /// Multiplies a point by a scalar of an `a256` or `r256` register.
    Mul(RegBlockAR, Reg32, Reg32, Reg32),
    /// Adds a point to another, in place.
    Add(Reg32, Reg8),
    /// Negates a point.
    Neg(Reg32, Reg8),
}

/// Instructions on the Curve25519 curve; points are held in `r512` registers.
#[derive(Clone, Copy, PartialEq, Eq, Structural, Debug, Hash)]
pub enum Curve25519Op {
    /// Multiplies the generator by the scalar of an `r256` register.
    Gen(Reg32, Reg8),
    /// Multiplies a point by a scalar of an `a256` or `r256` register.
    Mul(RegBlockAR, Reg32, Reg32, Reg32),
    /// Adds two points, allowing overflow when the flag is set.
    Add(Reg32, Reg32, Reg32, bool),
    /// Negates a point.
    Neg(Reg32, Reg8),
}

/// Instructions on the Secp256k1 curve with explicit flags: whether the scalar of a
/// multiplication comes from an `a` register, and whether an addition may overflow.
#[derive(Clone, Copy, PartialEq, Eq, Structural, Debug, Hash)]
pub enum SecpOp {
    /// Multiplies the generator by a scalar register into a point register.
    Gen(Reg32, Reg8),
    /// Multiplies a point by a scalar: scalar block flag, scalar, point source, destination.
    Mul(bool, Reg32, Reg32, Reg32),
    /// Adds points: overflow flag, two sources and a destination.
    Add(bool, Reg32, Reg32, Reg32),
    /// Negates a point.
    Neg(Reg32, Reg8),
}

} // verus!
