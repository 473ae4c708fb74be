//! Reading instructions of all groups from bytecode, one after another.

use vstd::prelude::*;

use crate::bytecode::{
    control_code_len, control_read_step, secp_read_step, DecodeError, INSTR_CALL, INSTR_EXEC,
    INSTR_JIF, INSTR_JMP, INSTR_RET, INSTR_ROUTINE, INSTR_SECP_GEN, INSTR_SECP_MUL,
    INSTR_SECP_NEG,
};
use crate::codec::CursorError;
use crate::cursor::{bits_at, read_u8_step, Cursor, CursorModel};
use crate::fields::{
    bits_only, kinds_bits, kinds_bytes, kinds_ok, kinds_shape, lemma_bit_reads, lemma_reads,
    reads_fit, reads_step, Kind,
};
use crate::isa::{ControlFlowOp, Secp256k1Op};
use crate::op_codes::{
    arith_kinds, arith_read_step, bitwise_kinds, bitwise_read_step, bytes_kinds, bytes_read_result,
    bytes_read_step, compare_kinds, compare_read_step, digest_kinds, digest_read_step,
    is_order_code, move_kinds, move_read_step, put_code_width, put_model, put_read_step,
    ArithmeticOp, BitwiseOp, BytesOp, CmpOp, DigestOp, MoveOp, PutOp, INSTR_A2ST, INSTR_ABS,
    INSTR_AMOV, INSTR_AND, INSTR_CNT, INSTR_DEL, INSTR_EQA, INSTR_EQR, INSTR_EXTR, INSTR_FILL,
    INSTR_GT, INSTR_HASH5, INSTR_INJ, INSTR_INS, INSTR_JOIN, INSTR_LEN, INSTR_LENS, INSTR_LT,
    INSTR_MOVRA, INSTR_NEG, INSTR_NOT, INSTR_PUT, INSTR_PUTA, INSTR_PUTIFA, INSTR_PUTIFR, INSTR_PUTR, INSTR_RIPEMD, INSTR_SCR,
    INSTR_SPLIT, INSTR_STP, INSTR_SWPA, INSTR_TRANSL, INSTR_ZEROA,
};
use crate::bytecode::EncodeError;
use crate::bytestr::content;
use crate::program::{code_room, compile, compiled, instr_writable, Instr, CODE_CAP, INSTR_NOP};

verus! {

/// First operation code reserved for future use.
pub const INSTR_RESV_FROM: u8 = 0b11_000_000;

/// The byte at the cursor.
pub open spec fn code_at(m: CursorModel) -> u8 {
    m.bytes[m.byte_pos as int]
}

/// Whether a code is of a group whose argument fields follow from the code alone: moves,
/// arithmetic, bitwise operations, byte strings other than `put`, and digests.
pub open spec fn kinds_group(code: u8) -> bool {
    ||| INSTR_SWPA <= code <= INSTR_MOVRA
    ||| INSTR_NEG <= code <= INSTR_ABS
    ||| INSTR_AND <= code <= INSTR_SCR
    ||| INSTR_PUT < code <= INSTR_TRANSL
    ||| INSTR_RIPEMD <= code <= INSTR_HASH5
}

/// Shapes of the argument fields after a code of [`kinds_group`].
pub open spec fn group_kinds(code: u8) -> Seq<Kind> {
    if INSTR_SWPA <= code <= INSTR_MOVRA {
        move_kinds(code)
    } else if INSTR_NEG <= code <= INSTR_ABS {
        arith_kinds(code)
    } else if INSTR_AND <= code <= INSTR_SCR {
        bitwise_kinds(code)
    } else if INSTR_PUT < code <= INSTR_TRANSL {
        bytes_kinds(code)
    } else {
        digest_kinds()
    }
}

/// Argument shapes of the comparison at a cursor: for an order comparison they depend on the
/// leading bit, the lowest of the byte after the code.
pub open spec fn compare_kinds_at(m: CursorModel) -> Seq<Kind> {
    let code = code_at(m);
    compare_kinds(code, is_order_code(code) && bits_at(m.bytes[m.byte_pos + 1], 0, 1) == 1)
}

/// Whether the instruction at a cursor lies within the bytecode, judged by its code and, for
/// `put`s and comparisons, by the bytes after it that give its size.
pub open spec fn instr_fits(m: CursorModel) -> bool {
    let code = code_at(m);
    let pos = m.byte_pos as int;
    let len = m.bytes.len() as int;
    if code <= INSTR_RET {
        pos + control_code_len(code) <= len
    } else if INSTR_ZEROA <= code <= INSTR_PUTIFR {
        pos + 2 <= len && pos + 2 + put_code_width(code, bits_at(m.bytes[pos + 1], 0, 3) as u16)
            <= len
    } else if INSTR_GT <= code <= INSTR_A2ST {
        let lead: int = if is_order_code(code) { 1 } else { 0 };
        &&& pos + 1 + lead <= len
        &&& bits_only(compare_kinds_at(m))
        &&& 8 * (pos + 1) + lead + kinds_bits(compare_kinds_at(m)) <= 8 * len
    } else if code == INSTR_PUT {
        pos + 4 <= len && pos + 4 + m.bytes[pos + 2] + 256 * m.bytes[pos + 3] <= len
    } else if kinds_group(code) {
        kinds_ok(group_kinds(code)) && pos + 1 + (kinds_bits(group_kinds(code)) + 7) / 8 <= len
    } else if INSTR_SECP_GEN <= code <= INSTR_SECP_NEG {
        pos + (if code == INSTR_SECP_MUL { 3int } else { 2int }) <= len
    } else {
        true
    }
}

/// Whether a read can start at a cursor: on a byte boundary, with the whole instruction inside
/// the bytecode.
pub open spec fn instr_readable(m: CursorModel) -> bool {
    m.bit_pos == 0 && instr_fits(m)
}

/// Where the cursor is after the instruction at it is read.
pub open spec fn instr_next(m: CursorModel) -> CursorModel {
    let code = code_at(m);
    if !instr_readable(m) {
        m
    } else if code <= INSTR_RET {
        control_read_step(m).0
    } else if code <= INSTR_PUTIFR {
        put_read_step(m).0
    } else if code <= INSTR_MOVRA {
        move_read_step(m).0
    } else if code <= INSTR_A2ST {
        compare_read_step(m).0
    } else if code <= INSTR_ABS {
        arith_read_step(m).0
    } else if code <= INSTR_SCR {
        bitwise_read_step(m).0
    } else if code <= INSTR_TRANSL {
        bytes_read_step(m).0
    } else if code <= INSTR_HASH5 {
        digest_read_step(m).0
    } else if INSTR_SECP_GEN <= code <= INSTR_SECP_NEG {
        secp_read_step(m).0
    } else if INSTR_RESV_FROM <= code < INSTR_NOP {
        read_u8_step(m).0
    } else {
        m
    }
}

/// The failure of a cursor step as a decoding failure, if it failed.
pub open spec fn step_failure<T>(r: Result<T, CursorError>) -> Option<DecodeError> {
    match r {
        Ok(_) => None,
        Err(e) => Some(DecodeError::Cursor(e)),
    }
}

/// Why reading the instruction at a cursor fails, if it does. An instruction that does not lie
/// within the bytecode, or a cursor off a byte boundary, fails with `Eof`.
pub open spec fn instr_failure(m: CursorModel) -> Option<DecodeError> {
    let code = code_at(m);
    if !instr_readable(m) {
        Some(DecodeError::Cursor(CursorError::Eof))
    } else if code <= INSTR_RET {
        step_failure(control_read_step(m).1)
    } else if code <= INSTR_PUTIFR {
        step_failure(put_read_step(m).1)
    } else if code <= INSTR_MOVRA {
        step_failure(move_read_step(m).1)
    } else if code <= INSTR_A2ST {
        step_failure(compare_read_step(m).1)
    } else if code <= INSTR_ABS {
        step_failure(arith_read_step(m).1)
    } else if code <= INSTR_SCR {
        step_failure(bitwise_read_step(m).1)
    } else if code <= INSTR_TRANSL {
        step_failure(bytes_read_step(m).1)
    } else if code <= INSTR_HASH5 {
        match digest_read_step(m).1 {
            Ok(_) => None,
            Err(e) => Some(e),
        }
    } else if INSTR_SECP_GEN <= code <= INSTR_SECP_NEG {
        step_failure(secp_read_step(m).1)
    } else if INSTR_RESV_FROM <= code < INSTR_NOP {
        match read_u8_step(m).1 {
            Ok(_) => Some(DecodeError::ReservedInstruction(code)),
            Err(e) => Some(DecodeError::Cursor(e)),
        }
    } else {
        Some(DecodeError::UnknownInstruction(code))
    }
}

/// Whether `i` is what a successful read of the instruction at a cursor gives.
pub open spec fn instr_read_ok(m: CursorModel, i: Instr) -> bool {
    let code = code_at(m);
    if code <= INSTR_RET {
        i matches Instr::ControlFlow(op) && control_read_step(m).1 == Ok::<ControlFlowOp, CursorError>(op)
    } else if code <= INSTR_PUTIFR {
        i matches Instr::Put(op) && put_read_step(m).1 == Ok::<_, CursorError>(put_model(op))
    } else if code <= INSTR_MOVRA {
        i matches Instr::Move(op) && move_read_step(m).1 == Ok::<MoveOp, CursorError>(op)
    } else if code <= INSTR_A2ST {
        i matches Instr::Cmp(op) && compare_read_step(m).1 == Ok::<CmpOp, CursorError>(op)
    } else if code <= INSTR_ABS {
        i matches Instr::Arithmetic(op) && arith_read_step(m).1 == Ok::<ArithmeticOp, CursorError>(op)
    } else if code <= INSTR_SCR {
        i matches Instr::Bitwise(op) && bitwise_read_step(m).1 == Ok::<BitwiseOp, CursorError>(op)
    } else if code <= INSTR_TRANSL {
        i matches Instr::Bytes(op) && bytes_read_result(Ok(op), bytes_read_step(m).1)
    } else if code <= INSTR_HASH5 {
        i matches Instr::Digest(op) && digest_read_step(m).1 == Ok::<DigestOp, DecodeError>(op)
    } else if INSTR_SECP_GEN <= code <= INSTR_SECP_NEG {
        i matches Instr::Secp256k1(op) && secp_read_step(m).1 == Ok::<Secp256k1Op, CursorError>(op)
    } else {
        false
    }
}

/// Where a read may start: not past the end, inside the bytecode, over at most `u16::MAX`
/// bytes.
pub open spec fn read_start(m: CursorModel) -> bool {
    !m.eof && m.byte_pos < m.bytes.len() && m.bytes.len() <= u16::MAX
}

/// With room for a code and fields of well-formed shapes after it, the code is read and the
/// fields can be.
proof fn lemma_code_kinds_fit(m: CursorModel, ks: Seq<Kind>)
    requires
        read_start(m),
        m.bit_pos == 0,
        kinds_ok(ks),
        m.byte_pos + 1 + (kinds_bits(ks) + 7) / 8 <= m.bytes.len(),
    ensures
        read_u8_step(m).1 is Ok,
        reads_fit(read_u8_step(m).0, ks),
{
    let m1 = read_u8_step(m).0;
    assert(m1.byte_pos == m.byte_pos + 1 && m1.bit_pos == 0 && !m1.eof && m1.bytes == m.bytes);
    lemma_reads(m1, ks);
}

/// A comparison that lies within the bytecode can be read.
proof fn lemma_compare_fit(m: CursorModel)
    requires
        read_start(m),
        m.bit_pos == 0,
        INSTR_GT <= code_at(m) <= INSTR_A2ST,
        instr_fits(m),
    ensures
        crate::op_codes::compare_read_fit(m),
{
    let code = code_at(m);
    let m1 = read_u8_step(m).0;
    assert(m1.byte_pos == m.byte_pos + 1 && m1.bit_pos == 0 && !m1.eof && m1.bytes == m.bytes);
    assert(read_u8_step(m).1 == Ok::<u8, CursorError>(code));
    if is_order_code(code) {
        let one = seq![Kind::Bits(1)];
        assert(one.drop_last() =~= Seq::<Kind>::empty());
        assert(kinds_bits(one) == 1) by {
            reveal_with_fuel(kinds_bits, 2);
        }
        assert(bits_only(one));
        lemma_bit_reads(m1, one);
        let (m2, lead) = crate::op_codes::compare_lead_step(m1, code);
        assert(lead matches Ok(l) && l[0] == bits_at(m.bytes[m.byte_pos + 1], 0, 1) as u16) by {
            reveal_with_fuel(reads_step, 2);
        }
        lemma_bit_reads(m2, compare_kinds_at(m));
    } else {
        lemma_bit_reads(m1, compare_kinds_at(m));
    }
}

/// Shapes of the argument fields after a code of [`kinds_group`].
fn group_kinds_vec(code: u8) -> (v: Vec<Kind>)
    ensures
        v@ == group_kinds(code),
{
    let b = Kind::Bits(3);
    if INSTR_SWPA <= code && code <= INSTR_MOVRA {
        if code == INSTR_AMOV {
            let v = vec![Kind::Bits(3), Kind::Bits(3), Kind::Bits(2)];
            assert(v@ =~= group_kinds(code));
            v
        } else {
            let v = vec![b, Kind::Bits(5), b, Kind::Bits(5)];
            assert(v@ =~= group_kinds(code));
            v
        }
    } else if INSTR_NEG <= code && code <= INSTR_ABS {
        if code == INSTR_NEG || code == INSTR_ABS {
            let v = vec![b, Kind::Bits(5)];
            assert(v@ =~= group_kinds(code));
            v
        } else if code == INSTR_STP {
            let v = vec![b, Kind::Bits(5), Kind::Bits(4), Kind::Bits(1), b];
            assert(v@ =~= group_kinds(code));
            v
        } else {
            let v = vec![b, Kind::Bits(5), Kind::Bits(5), b];
            assert(v@ =~= group_kinds(code));
            v
        }
    } else if INSTR_AND <= code && code <= INSTR_SCR {
        if code == INSTR_NOT {
            let v = vec![b, Kind::Bits(5)];
            assert(v@ =~= group_kinds(code));
            v
        } else {
            let v = vec![b, Kind::Bits(5), Kind::Bits(5), b];
            assert(v@ =~= group_kinds(code));
            v
        }
    } else if INSTR_PUT < code && code <= INSTR_TRANSL {
        let v = if code == INSTR_FILL || code == INSTR_TRANSL {
            vec![Kind::Byte, Kind::Word, Kind::Word, Kind::Byte]
        } else if code == INSTR_LENS {
            vec![Kind::Byte]
        } else if code == INSTR_EXTR || code == INSTR_INJ {
            vec![Kind::Bits(5), Kind::Bits(5), Kind::Bits(1), Kind::Bits(5)]
        } else if code == INSTR_JOIN {
            vec![Kind::Byte, Kind::Byte, Kind::Byte]
        } else if code == INSTR_SPLIT {
            vec![Kind::Byte, Kind::Word, Kind::Byte, Kind::Byte]
        } else if code == INSTR_INS {
            vec![Kind::Byte, Kind::Byte, Kind::Word]
        } else if code == INSTR_DEL {
            vec![Kind::Byte, Kind::Word, Kind::Word]
        } else {
            vec![Kind::Byte, Kind::Byte]
        };
        assert(v@ =~= group_kinds(code));
        v
    } else {
        let v = vec![Kind::Bits(5), b];
        assert(v@ =~= group_kinds(code));
        v
    }
}

/// Argument shapes of a comparison of a code, given whether an order comparison is general.
fn compare_kinds_vec(code: u8, general: bool) -> (v: Vec<Kind>)
    ensures
        v@ == compare_kinds(code, general),
{
    let v = if code == INSTR_GT || code == INSTR_LT {
        if general {
            vec![Kind::Bits(3), Kind::Bits(4), Kind::Bits(3), Kind::Bits(5)]
        } else {
            vec![Kind::Bits(3), Kind::Bits(5), Kind::Bits(5), Kind::Bits(2)]
        }
    } else if code == INSTR_EQA || code == INSTR_EQR {
        vec![Kind::Bits(3), Kind::Bits(5), Kind::Bits(3), Kind::Bits(5)]
    } else if code == INSTR_LEN || code == INSTR_CNT {
        vec![Kind::Bits(3), Kind::Bits(5)]
    } else {
        Vec::new()
    };
    assert(v@ =~= compare_kinds(code, general));
    v
}

/// Whether the instruction at the cursor lies within the bytecode (see [`instr_fits`]).
fn fits(c: &Cursor) -> (r: bool)
    requires
        read_start(c@),
    ensures
        r == instr_fits(c@),
{
    let b = c.bytes();
    let pos = c.pos() as usize;
    let len = b.len();
    let code = b[pos];
    if code <= INSTR_RET {
        let n: usize = if code == INSTR_CALL || code == INSTR_EXEC {
            35
        } else if code == INSTR_JMP || code == INSTR_JIF || code == INSTR_ROUTINE {
            3
        } else {
            1
        };
        pos + n <= len
    } else if INSTR_ZEROA <= code && code <= INSTR_PUTIFR {
        if pos + 2 > len {
            return false;
        }
        let x = b[pos + 1];
        let block = x & 0b111;
        proof {
            assert(block == bits_at(x, 0, 3)) by (bit_vector)
                requires
                    block == x & 7u8,
            ;
        }
        let w: usize = if code == INSTR_PUTA || code == INSTR_PUTIFA {
            crate::op_codes::a_from(block as u16).bytes() as usize
        } else if code == INSTR_PUTR || code == INSTR_PUTIFR {
            crate::op_codes::r_from(block as u16).bytes() as usize
        } else {
            0
        };
        pos + 2 + w <= len
    } else if INSTR_GT <= code && code <= INSTR_A2ST {
        let order = code == INSTR_GT || code == INSTR_LT;
        let lead: usize = if order { 1 } else { 0 };
        if pos + 1 + lead > len {
            return false;
        }
        let general = order && b[pos + 1] & 1 == 1;
        proof {
            if order {
                let x = b@[pos + 1];
                assert((x & 1u8 == 1u8) == (bits_at(x, 0, 1) == 1)) by (bit_vector);
            }
        }
        let ks = compare_kinds_vec(code, general);
        assert(ks@ =~= compare_kinds_at(c@));
        proof {
            assert(ks@.len() <= 4);
        }
        let (_, only) = kinds_shape(&ks);
        if !only {
            return false;
        }
        let bits = crate::fields::kinds_bit_count(&ks);
        8 * (pos + 1) + lead + bits <= 8 * len
    } else if code == INSTR_PUT {
        if pos + 4 > len {
            return false;
        }
        pos + 4 + b[pos + 2] as usize + 256 * b[pos + 3] as usize <= len
    } else if (INSTR_SWPA <= code && code <= INSTR_MOVRA) || (INSTR_NEG <= code && code
        <= INSTR_ABS) || (INSTR_AND <= code && code <= INSTR_SCR) || (INSTR_PUT < code && code
        <= INSTR_TRANSL) || (INSTR_RIPEMD <= code && code <= INSTR_HASH5) {
        let ks = group_kinds_vec(code);
        proof {
            assert(ks@.len() <= 5);
        }
        let (ok, _) = kinds_shape(&ks);
        ok && pos + 1 + kinds_bytes(&ks) <= len
    } else if INSTR_SECP_GEN <= code && code <= INSTR_SECP_NEG {
        pos + (if code == INSTR_SECP_MUL { 3 } else { 2 }) <= len
    } else {
        true
    }
}

impl Instr {
    /// Reads the instruction at the cursor. An instruction that runs past the end of the
    /// bytecode, or a cursor off a byte boundary, is `Cursor(Eof)`; a reserved code is
    /// `ReservedInstruction` once read; a code of no group, an extension code and the
    /// no-operation code are `UnknownInstruction`.
    pub fn read(c: &mut Cursor) -> (r: Result<Instr, DecodeError>)
        requires
            old(c).wf(),
            read_start(old(c)@),
        ensures
            final(c).wf(),
            final(c)@ == instr_next(old(c)@),
            match r {
                Ok(i) => instr_failure(old(c)@) is None && instr_read_ok(old(c)@, i),
                Err(e) => instr_failure(old(c)@) == Some(e),
            },
    {
        let ghost m = c@;
        if c.bit_pos() != 0 || !fits(c) {
            return Err(DecodeError::Cursor(CursorError::Eof));
        }
        let code = c.bytes()[c.pos() as usize];
        assert(code == code_at(m));
        if code <= INSTR_RET {
            return match ControlFlowOp::read(c) {
                Ok(op) => Ok(Instr::ControlFlow(op)),
                Err(e) => Err(e),
            };
        }
        if code <= INSTR_PUTIFR {
            return match PutOp::read(c) {
                Ok(op) => Ok(Instr::Put(op)),
                Err(e) => Err(e),
            };
        }
        if code <= INSTR_MOVRA {
            proof {
                lemma_code_kinds_fit(m, move_kinds(code));
            }
            return match MoveOp::read(c) {
                Ok(op) => Ok(Instr::Move(op)),
                Err(e) => Err(e),
            };
        }
        if code <= INSTR_A2ST {
            proof {
                lemma_compare_fit(m);
            }
            return match CmpOp::read(c) {
                Ok(op) => Ok(Instr::Cmp(op)),
                Err(e) => Err(e),
            };
        }
        if code <= INSTR_ABS {
            proof {
                lemma_code_kinds_fit(m, arith_kinds(code));
            }
            return match ArithmeticOp::read(c) {
                Ok(op) => Ok(Instr::Arithmetic(op)),
                Err(e) => Err(e),
            };
        }
        if code <= INSTR_SCR {
            proof {
                lemma_code_kinds_fit(m, bitwise_kinds(code));
            }
            return match BitwiseOp::read(c) {
                Ok(op) => Ok(Instr::Bitwise(op)),
                Err(e) => Err(e),
            };
        }
        if code <= INSTR_TRANSL {
            proof {
                let m1 = read_u8_step(m).0;
                assert(m1.byte_pos == m.byte_pos + 1 && m1.bit_pos == 0 && !m1.eof);
                if code != INSTR_PUT {
                    lemma_code_kinds_fit(m, bytes_kinds(code));
                } else {
                    let m2 = read_u8_step(m1).0;
                    assert(m2.byte_pos == m.byte_pos + 2 && m2.bit_pos == 0 && !m2.eof);
                }
            }
            let r = BytesOp::read(c);
            return match r {
                Ok(op) => Ok(Instr::Bytes(op)),
                Err(e) => Err(e),
            };
        }
        if code <= INSTR_HASH5 {
            proof {
                lemma_code_kinds_fit(m, digest_kinds());
            }
            return match DigestOp::read(c) {
                Ok(op) => Ok(Instr::Digest(op)),
                Err(e) => Err(e),
            };
        }
        if INSTR_SECP_GEN <= code && code <= INSTR_SECP_NEG {
            return match Secp256k1Op::read(c) {
                Ok(op) => Ok(Instr::Secp256k1(op)),
                Err(e) => Err(e),
            };
        }
        if INSTR_RESV_FROM <= code && code < INSTR_NOP {
            return match c.read_u8() {
                Ok(_) => Err(DecodeError::ReservedInstruction(code)),
                Err(e) => Err(DecodeError::Cursor(e)),
            };
        }
        Err(DecodeError::UnknownInstruction(code))
    }
}

/// Whether reading goes on at a cursor: it did not pass the end, and is inside the bytecode.
pub open spec fn reading_on(m: CursorModel) -> bool {
    !m.eof && m.byte_pos < m.bytes.len()
}

/// A cursor at the start of a bytecode.
pub open spec fn code_start(bytes: Seq<u8>) -> CursorModel {
    CursorModel { bytes, byte_pos: 0, bit_pos: 0, eof: false }
}

/// Where the cursor is after `k` instructions are read one after another from `m`.
pub open spec fn read_after(m: CursorModel, k: nat) -> CursorModel
    decreases k,
{
    if k == 0 {
        m
    } else {
        instr_next(read_after(m, (k - 1) as nat))
    }
}

/// Whether the first `k` instructions read from `m` are read without a failure, each where
/// reading goes on.
pub open spec fn reads_cleanly(m: CursorModel, k: nat) -> bool {
    forall|i: nat|
        i < k ==> reading_on(#[trigger] read_after(m, i)) && instr_failure(read_after(m, i)) is None
}

/// Whether `code` is what reading instructions from `m` until reading stops gives.
pub open spec fn reads_code(m: CursorModel, code: Seq<Instr>) -> bool {
    &&& reads_cleanly(m, code.len())
    &&& forall|i: nat| i < code.len() ==> instr_read_ok(#[trigger] read_after(m, i), code[i as int])
    &&& !reading_on(read_after(m, code.len()))
}

/// Whether reading instructions from `m` fails with `e` at the instruction of index `k`.
pub open spec fn read_fails_at(m: CursorModel, k: nat, e: DecodeError) -> bool {
    &&& reads_cleanly(m, k)
    &&& reading_on(read_after(m, k))
    &&& instr_failure(read_after(m, k)) == Some(e)
}

/// A successful read keeps the bytes and moves the cursor on.
proof fn lemma_read_advances(m: CursorModel)
    requires
        read_start(m),
        instr_failure(m) is None,
    ensures
        instr_next(m).bytes == m.bytes,
        instr_next(m).byte_pos > m.byte_pos,
{
    let code = code_at(m);
    let m1 = read_u8_step(m).0;
    assert(m1.byte_pos == m.byte_pos + 1 && m1.bytes == m.bytes);
    if code <= INSTR_RET {
    } else if code <= INSTR_PUTIFR {
        let ks = seq![Kind::Bits(3), Kind::Bits(5)];
        crate::fields::lemma_reads_keep(m1, ks);
        let (m2, v) = reads_step(m1, ks);
        if let Ok(v) = v {
            crate::fields::lemma_reads_keep(m2, crate::op_codes::byte_kinds(put_code_width(code, v[0])));
        }
    } else if code <= INSTR_MOVRA {
        crate::fields::lemma_reads_keep(m1, move_kinds(code));
    } else if code <= INSTR_A2ST {
        let ks = seq![Kind::Bits(1)];
        crate::fields::lemma_reads_keep(m1, ks);
        let (m2, lead) = crate::op_codes::compare_lead_step(m1, code);
        if let Ok(lead) = lead {
            crate::fields::lemma_reads_keep(m2, compare_kinds(code, is_order_code(code) && lead[0] == 1));
        }
    } else if code <= INSTR_ABS {
        crate::fields::lemma_reads_keep(m1, arith_kinds(code));
    } else if code <= INSTR_SCR {
        crate::fields::lemma_reads_keep(m1, bitwise_kinds(code));
    } else if code <= INSTR_TRANSL {
        if code != INSTR_PUT {
            crate::fields::lemma_reads_keep(m1, bytes_kinds(code));
        }
    } else if code <= INSTR_HASH5 {
        crate::fields::lemma_reads_keep(m1, digest_kinds());
    }
}

/// Decodes bytecode of at most `u16::MAX` bytes into instructions, reading one after another
/// until the end; the first failure stops it.
#[verifier::spinoff_prover]
#[verifier::rlimit(50)]
pub fn disassemble(bytecode: &[u8]) -> (r: Result<Vec<Instr>, DecodeError>)
    ensures
        bytecode@.len() > u16::MAX ==> r == Err::<Vec<Instr>, DecodeError>(
            DecodeError::Cursor(CursorError::OutOfBoundaries(bytecode@.len() as usize)),
        ),
        bytecode@.len() <= u16::MAX ==> match r {
            Ok(code) => reads_code(code_start(bytecode@), code@),
            Err(e) => exists|k: nat| read_fails_at(code_start(bytecode@), k, e),
        },
{
    let len = bytecode.len();
    if len > 0xFFFF {
        return Err(DecodeError::Cursor(CursorError::OutOfBoundaries(len)));
    }
    let ghost m0 = code_start(bytecode@);
    let mut c = Cursor::with(vstd::slice::slice_to_vec(bytecode));
    let mut code: Vec<Instr> = Vec::new();
    while !c.is_end() && !c.is_eof()
        invariant
            c.wf(),
            c@.bytes == bytecode@,
            m0 == code_start(bytecode@),
            bytecode@.len() <= u16::MAX,
            c@ == read_after(m0, code@.len()),
            reads_cleanly(m0, code@.len()),
            forall|i: nat| i < code@.len() ==> instr_read_ok(#[trigger] read_after(m0, i), code@[i as int]),
        decreases 0x10000 - c@.byte_pos,
    {
        let ghost k = code@.len();
        let ghost before = c@;
        match Instr::read(&mut c) {
            Ok(i) => {
                proof {
                    lemma_read_advances(before);
                    assert(read_after(m0, k + 1) == instr_next(read_after(m0, k)));
                    assert(reads_cleanly(m0, k + 1));
                }
                code.push(i);
                proof {
                    assert forall|j: nat| j < code@.len() implies instr_read_ok(
                        #[trigger] read_after(m0, j),
                        code@[j as int],
                    ) by {
                        if j < k {
                            assert(code@[j as int] == code@.drop_last()[j as int]);
                        }
                    }
                }
            },
            Err(e) => {
                proof {
                    assert(read_fails_at(code_start(bytecode@), k, e));
                }
                return Err(e);
            },
        }
    }
    Ok(code)
}

/// Whether bytecode of at most `u16::MAX` bytes reads to its end without a failure.
pub open spec fn decodable(bytes: Seq<u8>) -> bool {
    bytes.len() <= u16::MAX && forall|k: nat, e: DecodeError| !read_fails_at(code_start(bytes), k, e)
}

/// Instructions read to the end leave no room for a failure on the way.
proof fn lemma_read_to_end(m: CursorModel, code: Seq<Instr>, k: nat, e: DecodeError)
    requires
        reads_code(m, code),
    ensures
        !read_fails_at(m, k, e),
{
    if read_fails_at(m, k, e) {
        if k < code.len() {
            assert(instr_failure(read_after(m, k)) is None);
        } else if k > code.len() {
            assert(reading_on(read_after(m, code.len())));
        }
    }
}

impl crate::library::Lib {
    /// Library whose code segment is the bytecode of the instructions, with no data and no
    /// referenced library; fails as [`compile`](crate::program::compile) does.
    pub fn assemble(code: &Vec<Instr>) -> (r: Result<crate::library::Lib, EncodeError>)
        requires
            forall|i: int| 0 <= i < code@.len() ==> instr_writable(#[trigger] code@[i]),
        ensures
            r is Ok <==> code_room(code@) <= CODE_CAP,
            match r {
                Ok(lib) => lib.wf() && compiled(code@) == Ok::<Seq<u8>, EncodeError>(
                    content(lib.spec_code()@),
                ) && lib.spec_data().len() == 0 && lib.spec_libs()@.libs.len() == 0,
                Err(e) => compiled(code@) == Err::<Seq<u8>, EncodeError>(e),
            },
    {
        match compile(code) {
            Ok(b) => {
                let bytes = b.to_vec();
                match crate::library::Lib::with(bytes, Vec::new()) {
                    Ok(lib) => Ok(lib),
                    Err(_) => {
                        proof {
                            assert(false);
                        }
                        Err(EncodeError::Cursor(CursorError::Eof))
                    },
                }
            },
            Err(e) => Err(e),
        }
    }

    /// Decodes the code segment into instructions (see [`disassemble`]).
    pub fn disassemble(&self) -> (r: Result<Vec<Instr>, DecodeError>)
        requires
            self.wf(),
        ensures
            match r {
                Ok(code) => reads_code(code_start(content(self.spec_code()@)), code@),
                Err(e) => exists|k: nat| read_fails_at(code_start(content(self.spec_code()@)), k, e),
            },
    {
        let bytes = self.code_segment();
        disassemble(bytes.as_slice())
    }

    /// Number of bytes of the code segment: what the library's instructions take.
    pub fn byte_count(&self) -> (r: u16)
        requires
            self.wf(),
        ensures
            r == content(self.spec_code()@).len(),
    {
        self.code_segment().len() as u16
    }

    /// The library's bytecode: its code segment.
    pub fn encode(&self) -> (r: Vec<u8>)
        requires
            self.wf(),
        ensures
            r@ == content(self.spec_code()@),
    {
        self.code_segment()
    }

    /// Library of the bytecode, with no data and no referenced library, where the bytecode reads
    /// to its end without a failure; `None` where it does not.
    pub fn decode(bytecode: &[u8]) -> (r: Option<crate::library::Lib>)
        ensures
            r is Some <==> decodable(bytecode@),
            r matches Some(lib) ==> lib.wf() && content(lib.spec_code()@) == bytecode@
                && lib.spec_data().len() == 0 && lib.spec_libs()@.libs.len() == 0,
    {
        match disassemble(bytecode) {
            Ok(code) => {
                proof {
                    assert forall|k: nat, e: DecodeError| !read_fails_at(code_start(bytecode@), k, e) by {
                        lemma_read_to_end(code_start(bytecode@), code@, k, e);
                    }
                }
                match crate::library::Lib::with(vstd::slice::slice_to_vec(bytecode), Vec::new()) {
                    Ok(lib) => Some(lib),
                    Err(_) => None,
                }
            },
            Err(_) => None,
        }
    }
}

} // verus!
