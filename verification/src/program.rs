//! Programs as bytecode: instructions of all groups, written one after another into a code
//! segment and read back from one.

use vstd::prelude::*;

use crate::bytecode::{
    control_len, control_write_step, secp_len, secp_write_step, DecodeError, EncodeError,
};
use crate::bytestr::{content, ByteStr};
use crate::codec::CursorError;
use crate::cursor::{write_u8_step, Cursor, CursorModel, Step};
use crate::fields::{fields_bits, fields_ok, lemma_fields_write, Field};
use crate::instr::NOp;
use crate::isa::{ControlFlowOp, Secp256k1Op};
use crate::op_codes::{
    move_code, arith_code, bitwise_code, digest_code, compare_code, put_code, bytes_code,
    arith_fields, arith_write_step, bitwise_fields, bitwise_write_step, bytes_fields,
    bytes_write_step, compare_fields, compare_write_step, digest_fields, digest_write_step,
    move_fields, move_write_step, put_fields, put_write_step, put_writable, code_then_fields,
    ArithmeticOp, BitwiseOp, BytesOp, CmpOp, DigestOp, MoveOp, PutOp,
};

verus! {

/// Operation code of the no-operation instruction.
pub const INSTR_NOP: u8 = 0b11_111_111;

/// Size of a code segment: the largest cursor offset.
pub const CODE_CAP: usize = 65535;

/// An instruction of any group.
#[derive(Debug)]
pub enum Instr {
    /// Control flow.
    ControlFlow(ControlFlowOp),
    /// Putting values into registers.
    Put(PutOp),
    /// Moving register values.
    Move(MoveOp),
    /// Comparisons.
    Cmp(CmpOp),
    /// Arithmetic.
    Arithmetic(ArithmeticOp),
    /// Bit operations.
    Bitwise(BitwiseOp),
    /// Byte strings.
    Bytes(BytesOp),
    /// Hash functions.
    Digest(DigestOp),
    /// Secp256k1 curve operations.
    Secp256k1(Secp256k1Op),
    /// Instructions of the extension, here the one that does nothing.
    ExtensionCodes(NOp),
    /// No operation.
    Nop,
}

/// Fields are well shaped and end on a byte boundary.
pub open spec fn aligned_fields(fs: Seq<Field>) -> bool {
    fields_ok(fs) && fields_bits(fs) % 8 == 0
}

/// Bit fields of 1 to 7 bits are well shaped.
proof fn lemma_all_bits(fs: Seq<Field>)
    requires
        forall|i: int| 0 <= i < fs.len() ==> (#[trigger] fs[i] matches Field::Bits(_, w) && 1 <= w < 8),
    ensures
        fields_ok(fs),
    decreases fs.len(),
{
    if fs.len() > 0 {
        let p = fs.drop_last();
        assert forall|i: int| 0 <= i < p.len() implies (#[trigger] p[i] matches Field::Bits(_, w) && 1 <= w < 8) by {
            assert(p[i] == fs[i]);
        }
        lemma_all_bits(p);
        assert(fs.last() == fs[fs.len() - 1]);
    }
}

/// Bytes and words are well shaped and take whole bytes.
proof fn lemma_all_whole(fs: Seq<Field>)
    requires
        forall|i: int| 0 <= i < fs.len() ==> !(#[trigger] fs[i] is Bits),
    ensures
        aligned_fields(fs),
    decreases fs.len(),
{
    if fs.len() > 0 {
        let p = fs.drop_last();
        assert forall|i: int| 0 <= i < p.len() implies !(#[trigger] p[i] is Bits) by {
            assert(p[i] == fs[i]);
        }
        lemma_all_whole(p);
        assert(fs.last() == fs[fs.len() - 1]);
    }
}

/// 2 bit fields of 1 to 7 bits that take whole bytes.
proof fn lemma_shape2(a: u8, wa: u8, b: u8, wb: u8)
    requires
        1 <= wa < 8,
        1 <= wb < 8,
        (wa + wb) % 8 == 0,
    ensures
        aligned_fields(seq![Field::Bits(a, wa), Field::Bits(b, wb)]),
{
    let fs = seq![Field::Bits(a, wa), Field::Bits(b, wb)];
    lemma_all_bits(fs);
    reveal_with_fuel(fields_bits, 3);
    assert(fs.drop_last() =~= seq![Field::Bits(a, wa)]);
    assert(fs.drop_last().drop_last() =~= Seq::<Field>::empty());
}

/// 3 bit fields of 1 to 7 bits that take whole bytes.
proof fn lemma_shape3(a: u8, wa: u8, b: u8, wb: u8, c: u8, wc: u8)
    requires
        1 <= wa < 8,
        1 <= wb < 8,
        1 <= wc < 8,
        (wa + wb + wc) % 8 == 0,
    ensures
        aligned_fields(seq![Field::Bits(a, wa), Field::Bits(b, wb), Field::Bits(c, wc)]),
{
    let fs = seq![Field::Bits(a, wa), Field::Bits(b, wb), Field::Bits(c, wc)];
    lemma_all_bits(fs);
    reveal_with_fuel(fields_bits, 4);
    assert(fs.drop_last() =~= seq![Field::Bits(a, wa), Field::Bits(b, wb)]);
    assert(fs.drop_last().drop_last() =~= seq![Field::Bits(a, wa)]);
    assert(fs.drop_last().drop_last().drop_last() =~= Seq::<Field>::empty());
}

/// 4 bit fields of 1 to 7 bits that take whole bytes.
proof fn lemma_shape4(a: u8, wa: u8, b: u8, wb: u8, c: u8, wc: u8, d: u8, wd: u8)
    requires
        1 <= wa < 8,
        1 <= wb < 8,
        1 <= wc < 8,
        1 <= wd < 8,
        (wa + wb + wc + wd) % 8 == 0,
    ensures
        aligned_fields(seq![Field::Bits(a, wa), Field::Bits(b, wb), Field::Bits(c, wc), Field::Bits(d, wd)]),
{
    let fs = seq![Field::Bits(a, wa), Field::Bits(b, wb), Field::Bits(c, wc), Field::Bits(d, wd)];
    lemma_all_bits(fs);
    reveal_with_fuel(fields_bits, 5);
    assert(fs.drop_last() =~= seq![Field::Bits(a, wa), Field::Bits(b, wb), Field::Bits(c, wc)]);
    assert(fs.drop_last().drop_last() =~= seq![Field::Bits(a, wa), Field::Bits(b, wb)]);
    assert(fs.drop_last().drop_last().drop_last() =~= seq![Field::Bits(a, wa)]);
    assert(fs.drop_last().drop_last().drop_last().drop_last() =~= Seq::<Field>::empty());
}

/// 5 bit fields of 1 to 7 bits that take whole bytes.
proof fn lemma_shape5(a: u8, wa: u8, b: u8, wb: u8, c: u8, wc: u8, d: u8, wd: u8, e: u8, we: u8)
    requires
        1 <= wa < 8,
        1 <= wb < 8,
        1 <= wc < 8,
        1 <= wd < 8,
        1 <= we < 8,
        (wa + wb + wc + wd + we) % 8 == 0,
    ensures
        aligned_fields(seq![Field::Bits(a, wa), Field::Bits(b, wb), Field::Bits(c, wc), Field::Bits(d, wd), Field::Bits(e, we)]),
{
    let fs = seq![Field::Bits(a, wa), Field::Bits(b, wb), Field::Bits(c, wc), Field::Bits(d, wd), Field::Bits(e, we)];
    lemma_all_bits(fs);
    reveal_with_fuel(fields_bits, 6);
    assert(fs.drop_last() =~= seq![Field::Bits(a, wa), Field::Bits(b, wb), Field::Bits(c, wc), Field::Bits(d, wd)]);
    assert(fs.drop_last().drop_last() =~= seq![Field::Bits(a, wa), Field::Bits(b, wb), Field::Bits(c, wc)]);
    assert(fs.drop_last().drop_last().drop_last() =~= seq![Field::Bits(a, wa), Field::Bits(b, wb)]);
    assert(fs.drop_last().drop_last().drop_last().drop_last() =~= seq![Field::Bits(a, wa)]);
    assert(fs.drop_last().drop_last().drop_last().drop_last().drop_last() =~= Seq::<Field>::empty());
}

#[verifier::rlimit(40)]
pub(crate) proof fn lemma_move_fields(op: MoveOp)
    ensures
        aligned_fields(move_fields(op)),
        move_fields(op).len() <= 5,
{
    match op {
        MoveOp::AMov(a, b, nt) => lemma_shape3(crate::op_codes::a_code(a), 3, crate::op_codes::a_code(b), 3, nt.spec_as_u2(), 2),
        MoveOp::SwpA(a, i, b, j) | MoveOp::MovA(a, i, b, j) => lemma_shape4(crate::op_codes::a_code(a), 3, crate::op_codes::i_code(i), 5, crate::op_codes::a_code(b), 3, crate::op_codes::i_code(j), 5),
        MoveOp::SwpR(a, i, b, j) | MoveOp::MovR(a, i, b, j) => lemma_shape4(crate::op_codes::r_code(a), 3, crate::op_codes::i_code(i), 5, crate::op_codes::r_code(b), 3, crate::op_codes::i_code(j), 5),
        MoveOp::SwpAR(a, i, b, j) | MoveOp::MovAR(a, i, b, j) => lemma_shape4(crate::op_codes::a_code(a), 3, crate::op_codes::i_code(i), 5, crate::op_codes::r_code(b), 3, crate::op_codes::i_code(j), 5),
        MoveOp::MovRA(a, i, b, j) => lemma_shape4(crate::op_codes::r_code(a), 3, crate::op_codes::i_code(i), 5, crate::op_codes::a_code(b), 3, crate::op_codes::i_code(j), 5),
    }
}

#[verifier::rlimit(40)]
pub(crate) proof fn lemma_arith_fields(op: ArithmeticOp)
    ensures
        aligned_fields(arith_fields(op)),
        arith_fields(op).len() <= 5,
{
    match op {
        ArithmeticOp::Neg(a, i) | ArithmeticOp::Abs(a, i) => lemma_shape2(crate::op_codes::a_code(a), 3, crate::op_codes::i_code(i), 5),
        ArithmeticOp::Stp(d, ar, a, i, step) => lemma_shape5(crate::op_codes::a_code(a), 3, crate::op_codes::i_code(i), 5, step, 4, if d == crate::op_types::IncDec::Dec { 1u8 } else { 0u8 }, 1, ar.spec_as_u3(), 3),
        ArithmeticOp::Add(ar, a, i, j) | ArithmeticOp::Sub(ar, a, i, j) | ArithmeticOp::Mul(ar, a, i, j)
        | ArithmeticOp::Div(ar, a, i, j) | ArithmeticOp::Rem(ar, a, i, j) => lemma_shape4(crate::op_codes::a_code(a), 3, crate::op_codes::i_code(i), 5, crate::op_codes::i_code(j), 5, ar.spec_as_u3(), 3),
    }
}

#[verifier::rlimit(40)]
pub(crate) proof fn lemma_bitwise_fields(op: BitwiseOp)
    ensures
        aligned_fields(bitwise_fields(op)),
        bitwise_fields(op).len() <= 5,
{
    match op {
        BitwiseOp::Not(a, i) => lemma_shape2(crate::op_codes::a_code(a), 3, crate::op_codes::i_code(i), 5),
        BitwiseOp::And(a, i, j, d) | BitwiseOp::Or(a, i, j, d) | BitwiseOp::Xor(a, i, j, d)
        | BitwiseOp::Shl(a, i, j, d) | BitwiseOp::Shr(a, i, j, d) | BitwiseOp::Scl(a, i, j, d)
        | BitwiseOp::Scr(a, i, j, d) => lemma_shape4(crate::op_codes::a_code(a), 3, crate::op_codes::i_code(i), 5, crate::op_codes::i_code(j), 5, crate::op_codes::r8_code(d), 3),
    }
}

#[verifier::rlimit(40)]
pub(crate) proof fn lemma_digest_fields(op: DigestOp)
    ensures
        aligned_fields(digest_fields(op)),
        digest_fields(op).len() <= 5,
{
    match op {
        DigestOp::Ripemd(s, d) | DigestOp::Sha256(s, d) | DigestOp::Sha512(s, d) => lemma_shape2(crate::op_codes::i_code(s), 5, crate::op_codes::r8_code(d), 3),
    }
}

#[verifier::rlimit(40)]
pub(crate) proof fn lemma_compare_fields(op: CmpOp)
    ensures
        aligned_fields(compare_fields(op)),
        compare_fields(op).len() <= 5,
{
    match op {
        CmpOp::GtA(t, a, i, j) | CmpOp::LtA(t, a, i, j) => lemma_shape5(0, 1, crate::op_codes::a_code(a), 3, crate::op_codes::i_code(i), 5, crate::op_codes::i_code(j), 5, t.spec_as_u2(), 2),
        CmpOp::GtR(r1, i, r2, j) | CmpOp::LtR(r1, i, r2, j) => lemma_shape5(1, 1, crate::op_codes::r_code(r1), 3, crate::op_codes::i16_code(i), 4, crate::op_codes::r_code(r2), 3, crate::op_codes::i_code(j), 5),
        CmpOp::EqA(a1, i, a2, j) => lemma_shape4(crate::op_codes::a_code(a1), 3, crate::op_codes::i_code(i), 5, crate::op_codes::a_code(a2), 3, crate::op_codes::i_code(j), 5),
        CmpOp::EqR(r1, i, r2, j) => lemma_shape4(crate::op_codes::r_code(r1), 3, crate::op_codes::i_code(i), 5, crate::op_codes::r_code(r2), 3, crate::op_codes::i_code(j), 5),
        CmpOp::Len(a, i) | CmpOp::Cnt(a, i) => lemma_shape2(crate::op_codes::a_code(a), 3, crate::op_codes::i_code(i), 5),
        CmpOp::St2A | CmpOp::A2St => {
            assert(compare_fields(op) =~= Seq::<Field>::empty());
        },
    }
}

#[verifier::rlimit(40)]
pub(crate) proof fn lemma_bytes_fields(op: BytesOp)
    requires
        !(op is Put),
    ensures
        aligned_fields(bytes_fields(op)),
        bytes_fields(op).len() <= 5,
{
    match op {
        BytesOp::Extr(s, o, b, i) | BytesOp::Inj(s, o, b, i) => lemma_shape4(crate::op_codes::i_code(s), 5, crate::op_codes::i_code(o), 5, crate::op_codes::block_bit(b), 1, crate::op_codes::i_code(i), 5),
        _ => lemma_all_whole(bytes_fields(op)),
    }
}


/// Number of bytes the cursor moves on by when an instruction is written.
pub open spec fn instr_room(i: Instr) -> nat {
    match i {
        Instr::ControlFlow(op) => control_len(op) as nat,
        Instr::Put(op) => 1 + fields_bits(put_fields(op)) / 8,
        Instr::Move(op) => 1 + fields_bits(move_fields(op)) / 8,
        Instr::Cmp(op) => 1 + fields_bits(compare_fields(op)) / 8,
        Instr::Arithmetic(op) => 1 + fields_bits(arith_fields(op)) / 8,
        Instr::Bitwise(op) => 1 + fields_bits(bitwise_fields(op)) / 8,
        Instr::Bytes(BytesOp::Put(_, st)) => 6 + content(st@).len(),
        Instr::Bytes(op) => 1 + fields_bits(bytes_fields(op)) / 8,
        Instr::Digest(op) => 1 + fields_bits(digest_fields(op)) / 8,
        Instr::Secp256k1(op) => secp_len(op) as nat,
        Instr::ExtensionCodes(_) | Instr::Nop => 1,
    }
}

/// Whether an instruction can be written: a value fits its register and a string is well
/// formed.
pub open spec fn instr_writable(i: Instr) -> bool {
    match i {
        Instr::Put(op) => put_writable(op),
        Instr::Bytes(BytesOp::Put(_, st)) => st.wf(),
        _ => true,
    }
}

/// Operation code the no-operation instruction is written with: one, which is the code of
/// `succ`.
pub const NOP_WRITTEN: u8 = 1;

/// Writing an instruction: its code, then its arguments. An extension instruction is written as
/// its own code.
pub open spec fn instr_write_step(i: Instr, m: CursorModel) -> Step<()> {
    match i {
        Instr::ControlFlow(op) => control_write_step(op, m),
        Instr::Put(op) => put_write_step(op, m),
        Instr::Move(op) => move_write_step(op, m),
        Instr::Cmp(op) => compare_write_step(op, m),
        Instr::Arithmetic(op) => arith_write_step(op, m),
        Instr::Bitwise(op) => bitwise_write_step(op, m),
        Instr::Bytes(op) => bytes_write_step(op, m),
        Instr::Digest(op) => digest_write_step(op, m),
        Instr::Secp256k1(op) => secp_write_step(op, m),
        Instr::ExtensionCodes(_) => write_u8_step(m, INSTR_NOP),
        Instr::Nop => write_u8_step(m, NOP_WRITTEN),
    }
}

/// Where a cursor may write or read the next instruction: on a byte boundary, short of its end,
/// over at most `u16::MAX` bytes.
pub open spec fn ready(m: CursorModel) -> bool {
    !m.eof && m.bit_pos == 0 && m.byte_pos <= m.bytes.len() && m.bytes.len() <= u16::MAX
}

/// Whether a step succeeded and left the cursor ready `k` bytes further, over the same number of
/// bytes.
pub open spec fn moved_by<T>(m: CursorModel, s: Step<T>, k: nat) -> bool {
    &&& s.1 is Ok
    &&& ready(s.0)
    &&& s.0.byte_pos == m.byte_pos + k
    &&& s.0.bytes.len() == m.bytes.len()
}

/// A code byte and aligned fields written with room: the write succeeds, ending on a byte
/// boundary after them.
proof fn lemma_code_fields(m: CursorModel, code: u8, fs: Seq<Field>)
    requires
        ready(m),
        aligned_fields(fs),
        m.byte_pos + 1 + fields_bits(fs) / 8 <= m.bytes.len(),
    ensures
        crate::op_codes::code_then_fields_fit(m, code, fs),
        moved_by(m, code_then_fields(m, code, fs), 1 + fields_bits(fs) / 8),
{
    let m1 = write_u8_step(m, code).0;
    assert(write_u8_step(m, code).1 is Ok);
    assert(m1.byte_pos == m.byte_pos + 1 && m1.bit_pos == 0 && !m1.eof);
    assert(crate::fields::fields_room(fs) == fields_bits(fs) / 8);
    lemma_fields_write(m1, fs);
}

/// Control flow instructions written with room succeed and end on a byte boundary after them.
proof fn lemma_control_write(op: ControlFlowOp, m: CursorModel)
    requires
        ready(m),
        m.byte_pos + control_len(op) <= m.bytes.len(),
    ensures
        moved_by(m, control_write_step(op, m), control_len(op) as nat),
{
}

/// Secp256k1 instructions written with room succeed and end on a byte boundary after them.
proof fn lemma_secp_write(op: Secp256k1Op, m: CursorModel)
    requires
        ready(m),
        m.byte_pos + secp_len(op) <= m.bytes.len(),
    ensures
        moved_by(m, secp_write_step(op, m), secp_len(op) as nat),
{
}

/// A string put written with room succeeds and ends six bytes and the string's length further.
proof fn lemma_bytes_put_write(r: u8, st: crate::bytestr::ByteStr, m: CursorModel)
    requires
        ready(m),
        m.byte_pos + 6 + content(st@).len() <= m.bytes.len(),
    ensures
        moved_by(m, bytes_write_step(BytesOp::Put(r, st), m), 6 + content(st@).len()),
        crate::op_codes::bytes_args_fit(BytesOp::Put(r, st), write_u8_step(m, crate::op_codes::INSTR_PUT).0),
{
    crate::laws::law_bytes_put_read_back(r, st, m);
}


/// Number of bytes whole fields take.
fn fields_bytes(fs: &Vec<Field>) -> (r: usize)
    requires
        fs@.len() <= 2048,
    ensures
        r == fields_bits(fs@) / 8,
        r <= 32 * fs@.len(),
{
    let mut bits: usize = 0;
    let mut i: usize = 0;
    while i < fs.len()
        invariant
            i <= fs@.len() <= 2048,
            bits == fields_bits(fs@.take(i as int)),
            bits <= 256 * i,
        decreases fs.len() - i,
    {
        let w: usize = match fs[i] {
            Field::Bits(_, w) => w as usize,
            Field::Byte(_) => 8,
            Field::Word(_) => 16,
        };
        proof {
            assert(fs@.take(i + 1).drop_last() =~= fs@.take(i as int));
            assert(fs@.take(i + 1).last() == fs@[i as int]);
        }
        bits = bits + w;
        i += 1;
    }
    assert(fs@.take(fs@.len() as int) =~= fs@);
    bits / 8
}

impl Instr {
    /// Number of bytes the cursor moves on by when the instruction is written.
    pub fn room(&self) -> (r: usize)
        requires
            instr_writable(*self),
        ensures
            r == instr_room(*self),
            r <= 0x20000,
    {
        match self {
            Instr::ControlFlow(op) => op.byte_count() as usize,
            Instr::Put(op) => {
                let fs = op.fields();
                proof {
                    crate::op_codes::lemma_put_fields(*op);
                    assert(put_fields(*op).len() <= 1026);
                }
                1 + fields_bytes(&fs)
            },
            Instr::Move(op) => {
                proof { lemma_move_fields(*op); }
                1 + fields_bytes(&op.fields())
            },
            Instr::Cmp(op) => {
                proof { lemma_compare_fields(*op); }
                1 + fields_bytes(&op.fields())
            },
            Instr::Arithmetic(op) => {
                proof { lemma_arith_fields(*op); }
                1 + fields_bytes(&op.fields())
            },
            Instr::Bitwise(op) => {
                proof { lemma_bitwise_fields(*op); }
                1 + fields_bytes(&op.fields())
            },
            Instr::Bytes(BytesOp::Put(_, st)) => 6 + st.len() as usize,
            Instr::Bytes(op) => {
                proof { lemma_bytes_fields(*op); }
                1 + fields_bytes(&op.fields())
            },
            Instr::Digest(op) => {
                proof { lemma_digest_fields(*op); }
                1 + fields_bytes(&op.fields())
            },
            Instr::Secp256k1(op) => op.byte_count() as usize,
            Instr::ExtensionCodes(_) | Instr::Nop => 1,
        }
    }

    /// Writes the instruction; with room for it, the write succeeds and the cursor ends on a
    /// byte boundary after it.
    pub fn write(&self, c: &mut Cursor) -> (r: Result<(), EncodeError>)
        requires
            old(c).wf(),
            ready(old(c)@),
            old(c)@.byte_pos + instr_room(*self) <= old(c)@.bytes.len(),
            instr_writable(*self),
        ensures
            final(c).wf(),
            final(c)@ == instr_write_step(*self, old(c)@).0,
            r == crate::bytecode::encode_failure(instr_write_step(*self, old(c)@).1),
            moved_by(old(c)@, instr_write_step(*self, old(c)@), instr_room(*self)),
    {
        match self {
            Instr::ControlFlow(op) => {
                proof { lemma_control_write(*op, c@); }
                op.write(c)
            },
            Instr::Put(op) => {
                proof {
                    crate::op_codes::lemma_put_fields(*op);
                    lemma_code_fields(c@, put_code(*op), put_fields(*op));
                }
                op.write(c)
            },
            Instr::Move(op) => {
                proof {
                    lemma_move_fields(*op);
                    lemma_code_fields(c@, move_code(*op), move_fields(*op));
                }
                op.write(c)
            },
            Instr::Cmp(op) => {
                proof {
                    lemma_compare_fields(*op);
                    lemma_code_fields(c@, compare_code(*op), compare_fields(*op));
                }
                op.write(c)
            },
            Instr::Arithmetic(op) => {
                proof {
                    lemma_arith_fields(*op);
                    lemma_code_fields(c@, arith_code(*op), arith_fields(*op));
                }
                op.write(c)
            },
            Instr::Bitwise(op) => {
                proof {
                    lemma_bitwise_fields(*op);
                    lemma_code_fields(c@, bitwise_code(*op), bitwise_fields(*op));
                }
                op.write(c)
            },
            Instr::Bytes(op) => {
                proof {
                    match op {
                        BytesOp::Put(g, st) => lemma_bytes_put_write(*g, *st, c@),
                        _ => {
                            lemma_bytes_fields(*op);
                            lemma_code_fields(c@, bytes_code(*op), bytes_fields(*op));
                        },
                    }
                }
                op.write(c)
            },
            Instr::Digest(op) => {
                proof {
                    lemma_digest_fields(*op);
                    lemma_code_fields(c@, digest_code(*op), digest_fields(*op));
                }
                op.write(c)
            },
            Instr::Secp256k1(op) => {
                proof { lemma_secp_write(*op, c@); }
                op.write(c)
            },
            Instr::ExtensionCodes(_) => match c.write_u8(INSTR_NOP) {
                Ok(()) => Ok(()),
                Err(e) => Err(EncodeError::Cursor(e)),
            },
            Instr::Nop => match c.write_u8(NOP_WRITTEN) {
                Ok(()) => Ok(()),
                Err(e) => Err(EncodeError::Cursor(e)),
            },
        }
    }
}

/// An empty code segment under a cursor at its start.
pub open spec fn blank_code() -> CursorModel {
    CursorModel { bytes: Seq::new(CODE_CAP as nat, |i: int| 0u8), byte_pos: 0, bit_pos: 0, eof: false }
}

/// Writing an instruction into a code segment: refused when it would not end within the
/// segment.
pub open spec fn compile_step(m: CursorModel, i: Instr) -> Step<()> {
    if m.byte_pos + instr_room(i) > CODE_CAP {
        (m, Err(CursorError::OutOfBoundaries((m.byte_pos + instr_room(i)) as usize)))
    } else {
        instr_write_step(i, m)
    }
}

/// Writing instructions one after another into an empty code segment, stopping at the first
/// failure.
pub open spec fn compile_all(code: Seq<Instr>) -> Step<()>
    decreases code.len(),
{
    if code.len() == 0 {
        (blank_code(), Ok(()))
    } else {
        match compile_all(code.drop_last()) {
            (m, Ok(_)) => compile_step(m, code.last()),
            (m, Err(e)) => (m, Err(e)),
        }
    }
}

/// Bytecode of instructions: the code segment up to where the last one ends, or the failure.
pub open spec fn compiled(code: Seq<Instr>) -> Result<Seq<u8>, EncodeError> {
    match compile_all(code) {
        (m, Ok(_)) => Ok(m.bytes.subrange(0, m.byte_pos as int)),
        (m, Err(e)) => Err(EncodeError::Cursor(e)),
    }
}

/// Bytes that instructions take when written one after another.
pub open spec fn code_room(code: Seq<Instr>) -> nat
    decreases code.len(),
{
    if code.len() == 0 {
        0
    } else {
        code_room(code.drop_last()) + instr_room(code.last())
    }
}

/// Writing instructions succeeds exactly when they fit the segment, and then leaves the cursor
/// ready right after the last of them.
proof fn lemma_compile_all(code: Seq<Instr>)
    requires
        forall|i: int| 0 <= i < code.len() ==> instr_writable(#[trigger] code[i]),
    ensures
        compile_all(code).1 is Ok <==> code_room(code) <= CODE_CAP,
        compile_all(code).1 is Ok ==> ready(compile_all(code).0) && compile_all(code).0.bytes.len()
            == CODE_CAP && compile_all(code).0.byte_pos == code_room(code),
    decreases code.len(),
{
    if code.len() > 0 {
        let p = code.drop_last();
        assert forall|i: int| 0 <= i < p.len() implies instr_writable(#[trigger] p[i]) by {
            assert(p[i] == code[i]);
        }
        lemma_compile_all(p);
        let (m, r) = compile_all(p);
        assert(code.last() == code[code.len() - 1]);
        if r is Ok && m.byte_pos + instr_room(code.last()) <= CODE_CAP {
            lemma_instr_write(code.last(), m);
        }
    }
}

/// Once writing a prefix of instructions failed, writing more of them fails the same way.
proof fn lemma_failure_stays(code: Seq<Instr>, k: int, n: int)
    requires
        0 <= k <= n <= code.len(),
        compile_all(code.take(k)).1 is Err,
    ensures
        compile_all(code.take(n)) == compile_all(code.take(k)),
    decreases n - k,
{
    if n > k {
        lemma_failure_stays(code, k, n - 1);
        assert(code.take(n).drop_last() =~= code.take(n - 1));
    }
}

/// A vector of `n` zero bytes.
fn zeros(n: usize) -> (v: Vec<u8>)
    ensures
        v@ == Seq::new(n as nat, |i: int| 0u8),
{
    let mut v: Vec<u8> = Vec::new();
    let mut k: usize = 0;
    while k < n
        invariant
            k <= n,
            v@ =~= Seq::new(k as nat, |i: int| 0u8),
        decreases n - k,
    {
        v.push(0u8);
        k += 1;
    }
    v
}

/// A write with room succeeds and leaves the cursor ready after it.
proof fn lemma_instr_write(i: Instr, m: CursorModel)
    requires
        ready(m),
        m.byte_pos + instr_room(i) <= m.bytes.len(),
        instr_writable(i),
    ensures
        moved_by(m, instr_write_step(i, m), instr_room(i)),
{
    match i {
        Instr::ControlFlow(op) => lemma_control_write(op, m),
        Instr::Put(op) => {
            crate::op_codes::lemma_put_fields(op);
            lemma_code_fields(m, put_code(op), put_fields(op));
        },
        Instr::Move(op) => {
            lemma_move_fields(op);
            lemma_code_fields(m, move_code(op), move_fields(op));
        },
        Instr::Cmp(op) => {
            lemma_compare_fields(op);
            lemma_code_fields(m, compare_code(op), compare_fields(op));
        },
        Instr::Arithmetic(op) => {
            lemma_arith_fields(op);
            lemma_code_fields(m, arith_code(op), arith_fields(op));
        },
        Instr::Bitwise(op) => {
            lemma_bitwise_fields(op);
            lemma_code_fields(m, bitwise_code(op), bitwise_fields(op));
        },
        Instr::Bytes(op) => match op {
            BytesOp::Put(g, st) => lemma_bytes_put_write(g, st, m),
            _ => {
                lemma_bytes_fields(op);
                lemma_code_fields(m, bytes_code(op), bytes_fields(op));
            },
        },
        Instr::Digest(op) => {
            lemma_digest_fields(op);
            lemma_code_fields(m, digest_code(op), digest_fields(op));
        },
        Instr::Secp256k1(op) => lemma_secp_write(op, m),
        Instr::ExtensionCodes(_) | Instr::Nop => {},
    }
}

/// Encodes instructions as bytecode, one after another; fails when they do not fit a code
/// segment of `u16::MAX` bytes. Values put into registers must fit them, and strings must be
/// well formed.
pub fn compile(code: &Vec<Instr>) -> (r: Result<ByteStr, EncodeError>)
    requires
        forall|i: int| 0 <= i < code@.len() ==> instr_writable(#[trigger] code@[i]),
    ensures
        r is Ok <==> code_room(code@) <= CODE_CAP,
        match r {
            Ok(b) => b.wf() && compiled(code@) == Ok::<Seq<u8>, EncodeError>(content(b@))
                && content(b@).len() == code_room(code@),
            Err(e) => compiled(code@) == Err::<Seq<u8>, EncodeError>(e),
        },
{
    proof {
        lemma_compile_all(code@);
    }
    let mut c = Cursor::with(zeros(CODE_CAP));
    proof {
        assert(c@ =~= blank_code());
        assert(code@.take(0) =~= Seq::<Instr>::empty());
    }
    let mut k: usize = 0;
    while k < code.len()
        invariant
            k <= code@.len(),
            forall|i: int| 0 <= i < code@.len() ==> instr_writable(#[trigger] code@[i]),
            c.wf(),
            compile_all(code@.take(k as int)) == (c@, Ok::<(), CursorError>(())),
            ready(c@),
            c@.bytes.len() == CODE_CAP,
        decreases code.len() - k,
    {
        proof {
            assert(code@.take(k + 1).drop_last() =~= code@.take(k as int));
            assert(code@.take(k + 1).last() == code@[k as int]);
        }
        let room = code[k].room();
        let end: usize = c.pos() as usize + room;
        if end > CODE_CAP {
            let e = CursorError::OutOfBoundaries(end);
            proof {
                lemma_failure_stays(code@, k + 1, code@.len() as int);
                assert(code@.take(code@.len() as int) =~= code@);
                lemma_compile_all(code@);
            }
            return Err(EncodeError::Cursor(e));
        }
        match code[k].write(&mut c) {
            Ok(()) => {},
            Err(e) => {
                proof {
                    assert(false);
                }
                return Err(e);
            },
        }
        k += 1;
    }
    assert(code@.take(code@.len() as int) =~= code@);
    let n = c.pos() as usize;
    let out = ByteStr::with(slice_prefix(c.bytes(), n));
    proof {
        assert(content(out@) =~= c@.bytes.subrange(0, n as int));
    }
    Ok(out)
}

/// The first `n` bytes of a slice.
fn slice_prefix(s: &[u8], n: usize) -> (r: &[u8])
    requires
        n <= s@.len(),
    ensures
        r@ == s@.subrange(0, n as int),
{
    vstd::slice::slice_subrange(s, 0, n)
}

} // verus!
