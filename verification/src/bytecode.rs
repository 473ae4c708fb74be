//! Bytecode of control flow and Secp256k1 instructions: an operation code byte followed by the
//! arguments, written and read through a [`Cursor`].

use vstd::prelude::*;

use crate::codec::{be_bytes, be_val, enc_lib_id, encode_lib_id, CursorError};
use crate::cursor::{
    read_bits_step, read_bytes32_step, read_u16_step, read_u8_step, write_bits_step,
    write_bytes32_step, write_u16_step, write_u8_step, Cursor, CursorModel, Step,
};
use crate::isa::{ControlFlowOp, Secp256k1Op};
use crate::library::{LibId, LibSite};
use crate::reg::{Reg32, Reg8, RegBlockAR};

verus! {

/// Operation code of `fail`.
pub const INSTR_FAIL: u8 = 0b00_000_000;
/// Operation code of `succ`.
pub const INSTR_SUCC: u8 = 0b00_000_001;
/// Operation code of `jmp`.
pub const INSTR_JMP: u8 = 0b00_000_010;
/// Operation code of `jif`.
pub const INSTR_JIF: u8 = 0b00_000_011;
/// Operation code of `routine`.
pub const INSTR_ROUTINE: u8 = 0b00_000_100;
/// Operation code of `call`.
pub const INSTR_CALL: u8 = 0b00_000_101;
/// Operation code of `exec`.
pub const INSTR_EXEC: u8 = 0b00_000_110;
/// Operation code of `ret`.
pub const INSTR_RET: u8 = 0b00_000_111;
/// Operation code of `secpgen`.
pub const INSTR_SECP_GEN: u8 = 0b01_001_000;
/// Operation code of `secpmul`.
pub const INSTR_SECP_MUL: u8 = 0b01_001_001;
/// Operation code of `secpadd`.
pub const INSTR_SECP_ADD: u8 = 0b01_001_010;
/// Operation code of `secpneg`.
pub const INSTR_SECP_NEG: u8 = 0b01_001_011;

/// Errors of writing bytecode.
#[derive(Clone, Copy, PartialEq, Eq, Structural, Debug, Hash)]
pub enum EncodeError {
    /// More instructions than `2^16`: their number.
    TooManyInstructions(usize),
    /// Cursor error.
    Cursor(CursorError),
}

/// Errors of reading bytecode.
#[derive(Clone, Copy, PartialEq, Eq, Structural, Debug, Hash)]
pub enum DecodeError {
    /// Cursor error.
    Cursor(CursorError),
    /// An operation code reserved for future use.
    ReservedInstruction(u8),
    /// An operation code that no instruction of this set has: one outside all groups, an
    /// extension code, or the no-operation code, which is never written.
    UnknownInstruction(u8),
}

/// The next step when a step succeeded; the failed step otherwise.
pub open spec fn and_then(s: Step<()>, next: spec_fn(CursorModel) -> Step<()>) -> Step<()> {
    match s.1 {
        Ok(_) => next(s.0),
        Err(e) => (s.0, Err(e)),
    }
}

/// A step that gives a value made from the value of the step before.
pub open spec fn map_step<A, B>(s: Step<A>, f: spec_fn(A) -> B) -> Step<B> {
    match s.1 {
        Ok(a) => (s.0, Ok(f(a))),
        Err(e) => (s.0, Err(e)),
    }
}

/// The 32 bytes of a library identifier.
pub open spec fn lib_id_bytes(id: LibId) -> Seq<u8> {
    enc_lib_id(id)
}

/// Library identifier of 32 bytes.
pub open spec fn lib_id_of(b: Seq<u8>) -> LibId {
    LibId { hi: be_val(b.subrange(0, 16)) as u128, lo: be_val(b.subrange(16, 32)) as u128 }
}

/// Number of bytes of a control flow instruction with its arguments.
pub open spec fn control_len(op: ControlFlowOp) -> u16 {
    match op {
        ControlFlowOp::Fail | ControlFlowOp::Succ | ControlFlowOp::Ret => 1,
        ControlFlowOp::Jmp(_) | ControlFlowOp::Jif(_) | ControlFlowOp::Routine(_) => 3,
        ControlFlowOp::Call(_) | ControlFlowOp::Exec(_) => 35,
    }
}

/// Operation code of a control flow instruction.
pub open spec fn control_code(op: ControlFlowOp) -> u8 {
    match op {
        ControlFlowOp::Fail => INSTR_FAIL,
        ControlFlowOp::Succ => INSTR_SUCC,
        ControlFlowOp::Jmp(_) => INSTR_JMP,
        ControlFlowOp::Jif(_) => INSTR_JIF,
        ControlFlowOp::Routine(_) => INSTR_ROUTINE,
        ControlFlowOp::Call(_) => INSTR_CALL,
        ControlFlowOp::Exec(_) => INSTR_EXEC,
        ControlFlowOp::Ret => INSTR_RET,
    }
}

/// Writing the arguments of a control flow instruction: an offset as a word; a site as its
/// offset then its library identifier.
pub open spec fn control_args_step(op: ControlFlowOp, m: CursorModel) -> Step<()> {
    match op {
        ControlFlowOp::Jmp(p) | ControlFlowOp::Jif(p) | ControlFlowOp::Routine(p) => write_u16_step(
            m,
            p,
        ),
        ControlFlowOp::Call(s) | ControlFlowOp::Exec(s) => and_then(
            write_u16_step(m, s.pos),
            |m1: CursorModel| write_bytes32_step(m1, lib_id_bytes(s.lib)),
        ),
        _ => (m, Ok(())),
    }
}

/// Writing a control flow instruction: its code, then its arguments.
pub open spec fn control_write_step(op: ControlFlowOp, m: CursorModel) -> Step<()> {
    and_then(write_u8_step(m, control_code(op)), |m1: CursorModel| control_args_step(op, m1))
}

/// Reading a site: an offset, then a library identifier.
pub open spec fn site_read_step(m: CursorModel) -> Step<LibSite> {
    match read_u16_step(m) {
        (m1, Ok(pos)) => map_step(
            read_bytes32_step(m1),
            |b: Seq<u8>| LibSite { lib: lib_id_of(b), pos },
        ),
        (m1, Err(e)) => (m1, Err(e)),
    }
}

/// Reading a control flow instruction whose code is below 8.
pub open spec fn control_read_step(m: CursorModel) -> Step<ControlFlowOp> {
    match read_u8_step(m) {
        (m1, Ok(code)) => if code == INSTR_FAIL {
            (m1, Ok(ControlFlowOp::Fail))
        } else if code == INSTR_SUCC {
            (m1, Ok(ControlFlowOp::Succ))
        } else if code == INSTR_JMP {
            map_step(read_u16_step(m1), |p: u16| ControlFlowOp::Jmp(p))
        } else if code == INSTR_JIF {
            map_step(read_u16_step(m1), |p: u16| ControlFlowOp::Jif(p))
        } else if code == INSTR_ROUTINE {
            map_step(read_u16_step(m1), |p: u16| ControlFlowOp::Routine(p))
        } else if code == INSTR_CALL {
            map_step(site_read_step(m1), |s: LibSite| ControlFlowOp::Call(s))
        } else if code == INSTR_EXEC {
            map_step(site_read_step(m1), |s: LibSite| ControlFlowOp::Exec(s))
        } else {
            (m1, Ok(ControlFlowOp::Ret))
        },
        (m1, Err(e)) => (m1, Err(e)),
    }
}

/// Number of bytes control flow instruction `code` takes, with its arguments.
pub open spec fn control_code_len(code: u8) -> nat {
    if code == INSTR_CALL || code == INSTR_EXEC {
        35
    } else if code == INSTR_JMP || code == INSTR_JIF || code == INSTR_ROUTINE {
        3
    } else {
        1
    }
}

/// A cursor error as an error of writing.
pub open spec fn encode_failure(r: Result<(), CursorError>) -> Result<(), EncodeError> {
    match r {
        Ok(_) => Ok(()),
        Err(e) => Err(EncodeError::Cursor(e)),
    }
}

/// A cursor error as an error of reading.
pub open spec fn decode_failure<T>(r: Result<T, CursorError>) -> Result<T, DecodeError> {
    match r {
        Ok(v) => Ok(v),
        Err(e) => Err(DecodeError::Cursor(e)),
    }
}

/// Reads a site: an offset, then a library identifier.
fn read_site(c: &mut Cursor) -> (r: Result<LibSite, CursorError>)
    requires
        old(c).wf(),
        !old(c)@.eof ==> old(c)@.bit_pos == 0 && old(c)@.byte_pos + 34 <= old(c)@.bytes.len(),
    ensures
        final(c).wf(),
        (final(c)@, r) == site_read_step(old(c)@),
{
    let pos = match c.read_u16() {
        Ok(p) => p,
        Err(e) => return Err(e),
    };
    let b = match c.read_bytes32() {
        Ok(b) => b,
        Err(e) => return Err(e),
    };
    let hi = be16(&b, 0);
    let lo = be16(&b, 16);
    Ok(LibSite::with(pos, LibId { hi, lo }))
}

/// Big-endian value of 16 bytes from `at`.
pub(crate) fn be16(b: &Vec<u8>, at: usize) -> (r: u128)
    requires
        at + 16 <= b@.len(),
    ensures
        r == be_val(b@.subrange(at as int, at + 16)),
{
    let len = b.len();
    let mut v: u128 = 0;
    let mut i: usize = 0;
    while i < 16
        invariant
            i <= 16,
            len == b@.len(),
            at + 16 <= len,
            v == be_val(b@.subrange(at as int, at + i)),
        decreases 16 - i,
    {
        let ghost t = b@.subrange(at as int, at + i + 1);
        proof {
            assert(t.drop_last() =~= b@.subrange(at as int, at + i));
            crate::codec::lemma_be_val_bound(t);
            crate::num::lemma_pow256_values();
            crate::num::lemma_pow256_mono((i + 1) as nat, 16);
        }
        v = v * 256 + b[at + i] as u128;
        i += 1;
    }
    v
}

impl ControlFlowOp {
    /// Number of bytes the instruction takes, with its arguments.
    pub fn byte_count(&self) -> (r: u16)
        ensures
            r == control_len(*self),
    {
        match self {
            ControlFlowOp::Fail | ControlFlowOp::Succ | ControlFlowOp::Ret => 1,
            ControlFlowOp::Jmp(_) | ControlFlowOp::Jif(_) | ControlFlowOp::Routine(_) => 3,
            ControlFlowOp::Call(_) | ControlFlowOp::Exec(_) => 35,
        }
    }

    /// Operation code of the instruction.
    pub fn instr_byte(&self) -> (r: u8)
        ensures
            r == control_code(*self),
    {
        match self {
            ControlFlowOp::Fail => INSTR_FAIL,
            ControlFlowOp::Succ => INSTR_SUCC,
            ControlFlowOp::Jmp(_) => INSTR_JMP,
            ControlFlowOp::Jif(_) => INSTR_JIF,
            ControlFlowOp::Routine(_) => INSTR_ROUTINE,
            ControlFlowOp::Call(_) => INSTR_CALL,
            ControlFlowOp::Exec(_) => INSTR_EXEC,
            ControlFlowOp::Ret => INSTR_RET,
        }
    }

    /// Writes the arguments of the instruction, without its code.
    pub fn write_args(&self, c: &mut Cursor) -> (r: Result<(), EncodeError>)
        requires
            old(c).wf(),
            old(c)@.bit_pos == 0,
            old(c)@.byte_pos + control_len(*self) - 1 <= old(c)@.bytes.len(),
        ensures
            final(c).wf(),
            final(c)@ == control_args_step(*self, old(c)@).0,
            r == encode_failure(control_args_step(*self, old(c)@).1),
    {
        match self {
            ControlFlowOp::Jmp(p) | ControlFlowOp::Jif(p) | ControlFlowOp::Routine(p) => {
                match c.write_u16(*p) {
                    Ok(()) => Ok(()),
                    Err(e) => Err(EncodeError::Cursor(e)),
                }
            },
            ControlFlowOp::Call(s) | ControlFlowOp::Exec(s) => {
                match c.write_u16(s.pos) {
                    Ok(()) => {},
                    Err(e) => return Err(EncodeError::Cursor(e)),
                }
                let mut id: Vec<u8> = Vec::new();
                encode_lib_id(s.lib, &mut id);
                proof {
                    crate::codec::lemma_be_bytes_val(s.lib.hi as nat, 16);
                    crate::codec::lemma_be_bytes_val(s.lib.lo as nat, 16);
                }
                assert(id@ =~= lib_id_bytes(s.lib));
                match c.write_bytes32(id.as_slice()) {
                    Ok(()) => Ok(()),
                    Err(e) => Err(EncodeError::Cursor(e)),
                }
            },
            _ => Ok(()),
        }
    }

    /// Writes the instruction: its code, then its arguments.
    pub fn write(&self, c: &mut Cursor) -> (r: Result<(), EncodeError>)
        requires
            old(c).wf(),
            old(c)@.bit_pos == 0,
            old(c)@.byte_pos + control_len(*self) <= old(c)@.bytes.len(),
        ensures
            final(c).wf(),
            final(c)@ == control_write_step(*self, old(c)@).0,
            r == encode_failure(control_write_step(*self, old(c)@).1),
    {
        match c.write_u8(self.instr_byte()) {
            Ok(()) => {},
            Err(e) => return Err(EncodeError::Cursor(e)),
        }
        self.write_args(c)
    }

    /// Reads a control flow instruction; the code at the cursor must be one (below 8).
    pub fn read(c: &mut Cursor) -> (r: Result<ControlFlowOp, DecodeError>)
        requires
            old(c).wf(),
            !old(c)@.eof ==> old(c)@.bit_pos == 0 && old(c)@.byte_pos < old(c)@.bytes.len()
                && old(c)@.bytes[old(c)@.byte_pos as int] < 8 && old(c)@.byte_pos
                + control_code_len(old(c)@.bytes[old(c)@.byte_pos as int]) <= old(c)@.bytes.len(),
        ensures
            final(c).wf(),
            final(c)@ == control_read_step(old(c)@).0,
            r == decode_failure(control_read_step(old(c)@).1),
    {
        let code = match c.read_u8() {
            Ok(b) => b,
            Err(e) => return Err(DecodeError::Cursor(e)),
        };
        let r = if code == INSTR_FAIL {
            Ok(ControlFlowOp::Fail)
        } else if code == INSTR_SUCC {
            Ok(ControlFlowOp::Succ)
        } else if code == INSTR_JMP {
            match c.read_u16() {
                Ok(p) => Ok(ControlFlowOp::Jmp(p)),
                Err(e) => Err(e),
            }
        } else if code == INSTR_JIF {
            match c.read_u16() {
                Ok(p) => Ok(ControlFlowOp::Jif(p)),
                Err(e) => Err(e),
            }
        } else if code == INSTR_ROUTINE {
            match c.read_u16() {
                Ok(p) => Ok(ControlFlowOp::Routine(p)),
                Err(e) => Err(e),
            }
        } else if code == INSTR_CALL {
            match read_site(c) {
                Ok(s) => Ok(ControlFlowOp::Call(s)),
                Err(e) => Err(e),
            }
        } else if code == INSTR_EXEC {
            match read_site(c) {
                Ok(s) => Ok(ControlFlowOp::Exec(s)),
                Err(e) => Err(e),
            }
        } else {
            Ok(ControlFlowOp::Ret)
        };
        match r {
            Ok(op) => Ok(op),
            Err(e) => Err(DecodeError::Cursor(e)),
        }
    }
}

/// Register with a 3-bit index.
pub open spec fn reg8_of(v: u8) -> Reg8 {
    if v == 0 {
        Reg8::Reg0
    } else if v == 1 {
        Reg8::Reg1
    } else if v == 2 {
        Reg8::Reg2
    } else if v == 3 {
        Reg8::Reg3
    } else if v == 4 {
        Reg8::Reg4
    } else if v == 5 {
        Reg8::Reg5
    } else if v == 6 {
        Reg8::Reg6
    } else {
        Reg8::Reg7
    }
}

/// Register with a 3-bit index.
pub(crate) fn reg8_with(v: u8) -> (r: Reg8)
    requires
        v < 8,
    ensures
        r == reg8_of(v),
        r.spec_to_usize() == v,
{
    Reg8::with(v)
}

/// Number of bytes of a Secp256k1 instruction with its arguments.
pub open spec fn secp_len(op: Secp256k1Op) -> u16 {
    match op {
        Secp256k1Op::Mul(..) => 3,
        _ => 2,
    }
}

/// Operation code of a Secp256k1 instruction.
pub open spec fn secp_code(op: Secp256k1Op) -> u8 {
    match op {
        Secp256k1Op::Gen(..) => INSTR_SECP_GEN,
        Secp256k1Op::Mul(..) => INSTR_SECP_MUL,
        Secp256k1Op::Add(..) => INSTR_SECP_ADD,
        Secp256k1Op::Neg(..) => INSTR_SECP_NEG,
    }
}

/// Writing a 5-bit and a 3-bit register index.
pub open spec fn reg_pair_write_step(a: Reg32, b: Reg8, m: CursorModel) -> Step<()> {
    and_then(
        write_bits_step(m, a.spec_to_usize() as u8, 5),
        |m1: CursorModel| write_bits_step(m1, b.spec_to_usize() as u8, 3),
    )
}

/// Writing the arguments of a Secp256k1 instruction: register indices as bit fields (the
/// multiplication also has a flag for the block of its scalar).
pub open spec fn secp_args_step(op: Secp256k1Op, m: CursorModel) -> Step<()> {
    match op {
        Secp256k1Op::Gen(a, b) | Secp256k1Op::Add(a, b) | Secp256k1Op::Neg(a, b) => reg_pair_write_step(a, b, m),
        Secp256k1Op::Mul(block, scal, src, dst) => and_then(
            write_bits_step(m, if block == RegBlockAR::A { 1 } else { 0 }, 1),
            |m1: CursorModel| and_then(
                write_bits_step(m1, scal.spec_to_usize() as u8, 5),
                |m2: CursorModel| and_then(
                    write_bits_step(m2, src.spec_to_usize() as u8, 5),
                    |m3: CursorModel| write_bits_step(m3, dst.spec_to_usize() as u8, 5),
                ),
            ),
        ),
    }
}

/// Writing a Secp256k1 instruction: its code, then its arguments.
pub open spec fn secp_write_step(op: Secp256k1Op, m: CursorModel) -> Step<()> {
    and_then(write_u8_step(m, secp_code(op)), |m1: CursorModel| secp_args_step(op, m1))
}

/// Reading a 5-bit and a 3-bit register index.
pub open spec fn reg_pair_read_step(m: CursorModel) -> Step<(Reg32, Reg8)> {
    match read_bits_step(m, 5) {
        (m1, Ok(a)) => map_step(
            read_bits_step(m1, 3),
            |b: u8| (Reg32::spec_with(a as nat), reg8_of(b)),
        ),
        (m1, Err(e)) => (m1, Err(e)),
    }
}

/// Reading three 5-bit register indices.
pub open spec fn reg_triple_read_step(m: CursorModel) -> Step<(Reg32, Reg32, Reg32)> {
    match read_bits_step(m, 5) {
        (m1, Ok(a)) => match read_bits_step(m1, 5) {
            (m2, Ok(b)) => map_step(
                read_bits_step(m2, 5),
                |c: u8| (Reg32::spec_with(a as nat), Reg32::spec_with(b as nat), Reg32::spec_with(c as nat)),
            ),
            (m2, Err(e)) => (m2, Err(e)),
        },
        (m1, Err(e)) => (m1, Err(e)),
    }
}

/// Reading a Secp256k1 instruction whose code is one of the four.
pub open spec fn secp_read_step(m: CursorModel) -> Step<Secp256k1Op> {
    match read_u8_step(m) {
        (m1, Ok(code)) => if code == INSTR_SECP_MUL {
            match read_bits_step(m1, 1) {
                (m2, Ok(f)) => map_step(
                    reg_triple_read_step(m2),
                    |t: (Reg32, Reg32, Reg32)| Secp256k1Op::Mul(
                        if f == 1 { RegBlockAR::A } else { RegBlockAR::R },
                        t.0,
                        t.1,
                        t.2,
                    ),
                ),
                (m2, Err(e)) => (m2, Err(e)),
            }
        } else {
            map_step(
                reg_pair_read_step(m1),
                |p: (Reg32, Reg8)| if code == INSTR_SECP_GEN {
                    Secp256k1Op::Gen(p.0, p.1)
                } else if code == INSTR_SECP_ADD {
                    Secp256k1Op::Add(p.0, p.1)
                } else {
                    Secp256k1Op::Neg(p.0, p.1)
                },
            )
        },
        (m1, Err(e)) => (m1, Err(e)),
    }
}

/// A bit field is no wider than its mask.
proof fn lemma_bits_at_bound(b: u8, at: u8)
    requires
        at < 8,
    ensures
        crate::cursor::bits_at(b, at, 5) < 32,
        crate::cursor::bits_at(b, at, 3) < 8,
        crate::cursor::bits_at(b, at, 1) < 2,
{
    assert(crate::cursor::bits_at(b, at, 5) < 32) by (bit_vector)
        requires
            at < 8,
    ;
    assert(crate::cursor::bits_at(b, at, 3) < 8) by (bit_vector)
        requires
            at < 8,
    ;
    assert(crate::cursor::bits_at(b, at, 1) < 2) by (bit_vector)
        requires
            at < 8,
    ;
}

/// Reads a 5-bit and a 3-bit register index.
fn read_reg_pair(c: &mut Cursor) -> (r: Result<(Reg32, Reg8), CursorError>)
    requires
        old(c).wf(),
        !old(c)@.eof ==> old(c)@.bit_pos == 0 && old(c)@.byte_pos < old(c)@.bytes.len(),
    ensures
        final(c).wf(),
        (final(c)@, r) == reg_pair_read_step(old(c)@),
{
    let a = match c.read_u5() {
        Ok(a) => a,
        Err(e) => return Err(e),
    };
    proof {
        lemma_bits_at_bound(old(c)@.bytes[old(c)@.byte_pos as int], 0);
    }
    let b = match c.read_u3() {
        Ok(b) => b,
        Err(e) => return Err(e),
    };
    proof {
        lemma_bits_at_bound(old(c)@.bytes[old(c)@.byte_pos as int], 5);
    }
    Ok((Reg32::with(a), reg8_with(b)))
}

impl Secp256k1Op {
    /// Number of bytes the instruction takes, with its arguments.
    pub fn byte_count(&self) -> (r: u16)
        ensures
            r == secp_len(*self),
    {
        match self {
            Secp256k1Op::Mul(..) => 3,
            _ => 2,
        }
    }

    /// Operation code of the instruction.
    pub fn instr_byte(&self) -> (r: u8)
        ensures
            r == secp_code(*self),
    {
        match self {
            Secp256k1Op::Gen(..) => INSTR_SECP_GEN,
            Secp256k1Op::Mul(..) => INSTR_SECP_MUL,
            Secp256k1Op::Add(..) => INSTR_SECP_ADD,
            Secp256k1Op::Neg(..) => INSTR_SECP_NEG,
        }
    }

    /// Writes the arguments of the instruction, without its code.
    pub fn write_args(&self, c: &mut Cursor) -> (r: Result<(), EncodeError>)
        requires
            old(c).wf(),
            old(c)@.bit_pos == 0,
            old(c)@.byte_pos + secp_len(*self) - 1 <= old(c)@.bytes.len(),
        ensures
            final(c).wf(),
            final(c)@ == secp_args_step(*self, old(c)@).0,
            r == encode_failure(secp_args_step(*self, old(c)@).1),
    {
        let r = match self {
            Secp256k1Op::Gen(a, b) | Secp256k1Op::Add(a, b) | Secp256k1Op::Neg(a, b) => {
                match c.write_u5(a.to_usize() as u8) {
                    Ok(()) => c.write_u3(b.to_usize() as u8),
                    Err(e) => Err(e),
                }
            },
            Secp256k1Op::Mul(block, scal, src, dst) => {
                let flag = *block == RegBlockAR::A;
                match c.write_bool(flag) {
                    Ok(()) => match c.write_u5(scal.to_usize() as u8) {
                        Ok(()) => match c.write_u5(src.to_usize() as u8) {
                            Ok(()) => c.write_u5(dst.to_usize() as u8),
                            Err(e) => Err(e),
                        },
                        Err(e) => Err(e),
                    },
                    Err(e) => Err(e),
                }
            },
        };
        match r {
            Ok(()) => Ok(()),
            Err(e) => Err(EncodeError::Cursor(e)),
        }
    }

    /// Writes the instruction: its code, then its arguments.
    pub fn write(&self, c: &mut Cursor) -> (r: Result<(), EncodeError>)
        requires
            old(c).wf(),
            old(c)@.bit_pos == 0,
            old(c)@.byte_pos + secp_len(*self) <= old(c)@.bytes.len(),
        ensures
            final(c).wf(),
            final(c)@ == secp_write_step(*self, old(c)@).0,
            r == encode_failure(secp_write_step(*self, old(c)@).1),
    {
        match c.write_u8(self.instr_byte()) {
            Ok(()) => {},
            Err(e) => return Err(EncodeError::Cursor(e)),
        }
        self.write_args(c)
    }

    /// Reads a Secp256k1 instruction; the code at the cursor must be one of the four.
    pub fn read(c: &mut Cursor) -> (r: Result<Secp256k1Op, DecodeError>)
        requires
            old(c).wf(),
            !old(c)@.eof ==> old(c)@.bit_pos == 0 && old(c)@.byte_pos < old(c)@.bytes.len()
                && INSTR_SECP_GEN <= old(c)@.bytes[old(c)@.byte_pos as int] <= INSTR_SECP_NEG
                && old(c)@.byte_pos + (if old(c)@.bytes[old(c)@.byte_pos as int]
                == INSTR_SECP_MUL {
                3int
            } else {
                2int
            }) <= old(c)@.bytes.len(),
        ensures
            final(c).wf(),
            final(c)@ == secp_read_step(old(c)@).0,
            r == decode_failure(secp_read_step(old(c)@).1),
    {
        let code = match c.read_u8() {
            Ok(b) => b,
            Err(e) => return Err(DecodeError::Cursor(e)),
        };
        if code == INSTR_SECP_MUL {
            let flag = match c.read_bool() {
                Ok(f) => f,
                Err(e) => return Err(DecodeError::Cursor(e)),
            };
            let ghost m2 = c@;
            let a = match c.read_u5() {
                Ok(v) => v,
                Err(e) => return Err(DecodeError::Cursor(e)),
            };
            proof {
                lemma_bits_at_bound(m2.bytes[m2.byte_pos as int], m2.bit_pos);
            }
            let ghost m3 = c@;
            let b = match c.read_u5() {
                Ok(v) => v,
                Err(e) => return Err(DecodeError::Cursor(e)),
            };
            proof {
                lemma_bits_at_bound(m3.bytes[m3.byte_pos as int], m3.bit_pos);
            }
            let ghost m4 = c@;
            let d = match c.read_u5() {
                Ok(v) => v,
                Err(e) => return Err(DecodeError::Cursor(e)),
            };
            proof {
                lemma_bits_at_bound(m4.bytes[m4.byte_pos as int], m4.bit_pos);
            }
            let block = if flag {
                RegBlockAR::A
            } else {
                RegBlockAR::R
            };
            Ok(Secp256k1Op::Mul(block, Reg32::with(a), Reg32::with(b), Reg32::with(d)))
        } else {
            let (a, b) = match read_reg_pair(c) {
                Ok(p) => p,
                Err(e) => return Err(DecodeError::Cursor(e)),
            };
            if code == INSTR_SECP_GEN {
                Ok(Secp256k1Op::Gen(a, b))
            } else if code == INSTR_SECP_ADD {
                Ok(Secp256k1Op::Add(a, b))
            } else {
                Ok(Secp256k1Op::Neg(a, b))
            }
        }
    }
}

} // verus!
