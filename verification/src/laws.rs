//! Properties of the library that relate several operations or hold of every input.

use vstd::prelude::*;

use vstd::arithmetic::power2::pow2;

use core::cmp::Ordering;

use crate::arithm::{spec_int_add, spec_int_mul, spec_int_sub};
use crate::codec::{
    be_bytes, be_val, dec_bool, dec_bytestr, dec_layout, dec_lib_id, dec_lib_site, dec_number,
    dec_u16, enc_bool, enc_bytestr, enc_layout, enc_lib_id, enc_lib_site, enc_number, enc_u16,
    CursorError, Decoded,
};
use crate::bitwise::{rev_bits, rev_byte};
use crate::cmp::{number_order, reverse_order};
use crate::cursor::{
    advance_bytes, bits_at, low_mask, read_bits_step, read_bytes32_step, read_slice_step, read_u16_step, spliced, then_value,
    write_bits_step, write_bytes32_step, write_slice_step, write_u16_step, CursorModel,
};
use crate::exec::{control_step, move_step};
use crate::flags::{int_flags_outcome, int_flags_text, IntFlags};
use crate::instr::{instr_step, Instr, InstructionSet};
use crate::exec::{cmp_step, put_step};
use crate::exec_alu::{arith_step, bitwise_step};
use crate::exec_bytes::bytes_step;
use crate::exec_crypto::{digest_step, secp_step};
use crate::isa::{
    ArithmeticOp, BitwiseOp, BytesOp, CmpOp, ControlFlowOp, DigestOp, ExecStep, MoveOp, PutOp,
    Secp256k1Op,
};
use crate::layout::Layout;
use crate::library::LibSite;
use crate::op_codes::{a_code, i_code, r_code};
use crate::microcode::add_mod_value;
use crate::number::{model_wf, not_bytes, reshaped_model, NumberModel};
use crate::reg::{Reg32, RegA, RegAR, RegR};
use crate::regs::{a_width, num, r_width, regs_wf, slot, stored, with_num, RegsModel, CALL_STACK_MAX};

verus! {

/// Reversing the order of the bits of a byte twice gives the byte back.
proof fn lemma_rev_byte_twice(b: u8)
    ensures
        rev_byte(rev_byte(b)) == b,
{
    assert(rev_byte(rev_byte(b)) == b) by (bit_vector);
}

/// Reversing the bits of a value twice gives the value back.
pub proof fn law_reverse_bits_twice(s: Seq<u8>)
    ensures
        rev_bits(rev_bits(s)) == s,
{
    assert forall|i: int| 0 <= i < s.len() implies #[trigger] rev_bits(rev_bits(s))[i] == s[i] by {
        lemma_rev_byte_twice(s[i]);
    }
    assert(rev_bits(rev_bits(s)) =~= s);
}

/// Inverting every bit twice gives the value back.
pub proof fn law_not_twice(s: Seq<u8>)
    ensures
        not_bytes(not_bytes(s)) == s,
{
    assert forall|i: int| 0 <= i < s.len() implies #[trigger] not_bytes(not_bytes(s))[i] == s[i] by {
        let b = s[i];
        assert(!(!b) == b) by (bit_vector);
    }
    assert(not_bytes(not_bytes(s)) =~= s);
}

/// Comparing two numbers the other way round gives the reverse order.
pub proof fn law_order_reverses(a: NumberModel, b: NumberModel)
    requires
        a.layout == b.layout,
    ensures
        number_order(b, a) == reverse_order(number_order(a, b)),
{
}

/// Addition of two numbers of one layout does not depend on the order of the operands.
pub proof fn law_add_commutes(a: NumberModel, b: NumberModel, f: IntFlags)
    requires
        a.layout == b.layout,
    ensures
        spec_int_add(a, b, f) == spec_int_add(b, a, f),
{
    assert(a.bytes.len() + 0 == a.bytes.len());
    if f.signed {
        assert(crate::num::sle_val(a.bytes) + crate::num::sle_val(b.bytes) == crate::num::sle_val(
            b.bytes,
        ) + crate::num::sle_val(a.bytes));
    }
}

/// Multiplication of two numbers of one layout does not depend on the order of the operands,
/// unless signed multiplication meets the smallest 1024-bit value, where the `amplify` crate's
/// result is not stated.
pub proof fn law_mul_commutes(a: NumberModel, b: NumberModel, f: IntFlags)
    requires
        a.layout == b.layout,
        f.signed ==> crate::num::sle_val(a.bytes) != crate::bigint::i1024_min(),
        f.signed ==> crate::num::sle_val(b.bytes) != crate::bigint::i1024_min(),
    ensures
        spec_int_mul(a, b, f) == spec_int_mul(b, a, f),
{
    let x = crate::num::sle_val(a.bytes);
    let y = crate::num::sle_val(b.bytes);
    let u = crate::num::le_val(a.bytes);
    let v = crate::num::le_val(b.bytes);
    assert(x * y == y * x) by (nonlinear_arith);
    assert(u * v == v * u) by (nonlinear_arith);
}

/// A register index is found again from its position.
pub(crate) proof fn lemma_reg32_position(r: Reg32)
    ensures
        r.spec_to_usize() < 32,
        Reg32::spec_with(r.spec_to_usize() as nat) == r,
{
}

/// Distinct registers of the numeric arrays occupy distinct positions.
pub(crate) proof fn lemma_slot_distinct(reg: RegAR, idx: Reg32, other: RegAR, oidx: Reg32)
    requires
        reg is A == other is A,
        other != reg || oidx != idx,
    ensures
        slot(reg, idx) != slot(other, oidx),
        0 <= slot(reg, idx) < 256,
{
    lemma_reg32_position(idx);
    lemma_reg32_position(oidx);
    match (reg, other) {
        (RegAR::A(a), RegAR::A(b)) => {
            assert(a.spec_block() == b.spec_block() ==> a == b);
        },
        (RegAR::R(a), RegAR::R(b)) => {
            assert(a.spec_block() == b.spec_block() ==> a == b);
        },
        _ => {},
    }
}

/// Writing a numeric register and reading it back gives what was written, and every other
/// numeric register keeps its value.
pub proof fn law_register_read_after_write(
    m: RegsModel,
    reg: RegAR,
    idx: Reg32,
    v: Option<NumberModel>,
    other: RegAR,
    oidx: Reg32,
)
    requires
        regs_wf(m),
    ensures
        num(with_num(m, reg, idx, v), reg, idx) == v,
        other != reg || oidx != idx ==> num(with_num(m, reg, idx, v), other, oidx) == num(
            m,
            other,
            oidx,
        ),
{
    lemma_reg32_position(idx);
    lemma_reg32_position(oidx);
    if other != reg || oidx != idx {
        if reg is A == other is A {
            lemma_slot_distinct(reg, idx, other, oidx);
        }
    }
}

/// A value read from a register is stored back unchanged.
proof fn lemma_stored_keeps(m: RegsModel, reg: RegAR, idx: Reg32)
    requires
        regs_wf(m),
    ensures
        stored(num(m, reg, idx), reg) == num(m, reg, idx),
{
    lemma_reg32_position(idx);
    let k = slot(reg, idx);
    match reg {
        RegAR::A(a) => {
            assert(k / 32 == a.spec_block());
            assert(a_width(a.spec_block() as int) == a.spec_bytes());
            assert(crate::regs::slot_ok(m.a[k], a_width(k / 32)));
        },
        RegAR::R(r) => {
            assert(k / 32 == r.spec_block());
            assert(r_width(r.spec_block() as int) == r.spec_bytes());
            assert(crate::regs::slot_ok(m.r[k], r_width(k / 32)));
        },
    }
}

/// Swapping two arithmetic registers twice gives the registers back.
pub proof fn law_swap_twice(m: RegsModel, reg: RegA, i1: Reg32, i2: Reg32)
    requires
        regs_wf(m),
    ensures
        move_step(MoveOp::SwpA(reg, i1, i2), move_step(MoveOp::SwpA(reg, i1, i2), m)) == m,
{
    let r = RegAR::A(reg);
    let op = MoveOp::SwpA(reg, i1, i2);
    lemma_reg32_position(i1);
    lemma_reg32_position(i2);
    lemma_stored_keeps(m, r, i1);
    lemma_stored_keeps(m, r, i2);
    let s1 = slot(r, i1);
    let s2 = slot(r, i2);
    if i1 != i2 {
        lemma_slot_distinct(r, i1, r, i2);
    }
    let n = move_step(op, m);
    assert(n.a == m.a.update(s2, m.a[s1]).update(s1, m.a[s2]));
    let o = move_step(op, n);
    assert(num(n, r, i1) == m.a[s2]);
    assert(num(n, r, i2) == m.a[s1]);
    assert(o.a == n.a.update(s2, m.a[s2]).update(s1, m.a[s1]));
    assert(o.a =~= m.a);
}

/// A routine call that succeeds, followed by a return, comes back to the site given to the call
/// with the call stack as it was; only the cycle counter has moved on.
pub proof fn law_routine_then_return(m: RegsModel, offset: u16, site: LibSite, here: LibSite)
    requires
        control_step(ControlFlowOp::Routine(offset), m, site).1 == ExecStep::Jump(offset),
    ensures
        control_step(ControlFlowOp::Ret, control_step(ControlFlowOp::Routine(offset), m, site).0, here)
            == (RegsModel { cy0: (m.cy0 + 1) as u16, ..m }, ExecStep::Call(site)),
{
    let n = control_step(ControlFlowOp::Routine(offset), m, site).0;
    assert(n.cs.drop_last() =~= m.cs);
}

/// The text form of integer flags parses back to the same flags.
pub proof fn law_int_flags_text_parses_back(f: IntFlags)
    ensures
        int_flags_text(f).len() <= 2,
        int_flags_outcome(int_flags_text(f)) == Ok::<IntFlags, crate::flags::ParseFlagError>(f),
{
    let t = int_flags_text(f);
    assert(t.len() == 2);
    assert(forall|c: char| #[trigger] t.contains(c) <==> (t[0] == c || t[1] == c));
}

/// Whether registers `n` have the cycle counter and call stack of `m`.
pub open spec fn same_flow(m: RegsModel, n: RegsModel) -> bool {
    n.cy0 == m.cy0 && n.cs == m.cs
}

proof fn lemma_put_flow(op: PutOp, m: RegsModel)
    ensures
        same_flow(m, put_step(op, m)),
{
}

proof fn lemma_move_flow(op: MoveOp, m: RegsModel)
    ensures
        same_flow(m, move_step(op, m)),
{
}

proof fn lemma_cmp_flow(op: CmpOp, m: RegsModel)
    ensures
        same_flow(m, cmp_step(op, m)),
{
}

proof fn lemma_arith_flow(op: ArithmeticOp, m: RegsModel)
    ensures
        same_flow(m, arith_step(op, m)),
{
}

proof fn lemma_bitwise_flow(op: BitwiseOp, m: RegsModel)
    ensures
        same_flow(m, bitwise_step(op, m)),
{
}

proof fn lemma_bytes_flow(op: BytesOp, m: RegsModel)
    ensures
        same_flow(m, bytes_step(op, m)),
{
    match op {
        BytesOp::Put(..) => {},
        BytesOp::Mov(..) => {},
        BytesOp::Swp(..) => {},
        BytesOp::Fill(..) => {},
        BytesOp::Len(..) => {},
        BytesOp::Cnt(..) => {},
        BytesOp::Eq(..) => {},
        BytesOp::Find(..) => {},
        BytesOp::Rev(..) => {},
        BytesOp::Con(..) => {},
        BytesOp::Extr(..) => {},
        BytesOp::Inj(..) => {},
        BytesOp::Join(..) => {},
        BytesOp::Splt(..) => {},
        BytesOp::Ins(..) => {},
        BytesOp::Del(..) => {},
    }
}

proof fn lemma_digest_flow(op: DigestOp, m: RegsModel)
    ensures
        same_flow(m, digest_step(op, m)),
{
}

proof fn lemma_secp_flow(op: Secp256k1Op, m: RegsModel)
    ensures
        same_flow(m, secp_step(op, m)),
{
}

/// The cycle counter of the registers never goes back: an instruction of the core either keeps
/// it or advances it by one, and only control flow instructions touch it or the call stack.
pub proof fn law_cycles_never_decrease<E: InstructionSet>(i: Instr<E>, m: RegsModel, site: LibSite)
    ensures
        instr_step(i, m, site) matches Some(out) ==> (out.0.cy0 == m.cy0 || out.0.cy0 == m.cy0
            + 1),
        instr_step(i, m, site) matches Some(out) ==> (i is ControlFlow || i is ReservedInstruction
            || same_flow(m, out.0)),
{
    match i {
        Instr::Put(op) => lemma_put_flow(op, m),
        Instr::Move(op) => lemma_move_flow(op, m),
        Instr::Cmp(op) => lemma_cmp_flow(op, m),
        Instr::Arithmetic(op) => lemma_arith_flow(op, m),
        Instr::Bitwise(op) => lemma_bitwise_flow(op, m),
        Instr::Bytes(op) => lemma_bytes_flow(op, m),
        Instr::Digest(op) => lemma_digest_flow(op, m),
        Instr::Secp256k1(op) => lemma_secp_flow(op, m),
        _ => {},
    }
}

/// Widening a number to a layout of at least as many bytes and changing it back to its own
/// layout gives the number back.
pub proof fn law_widen_then_narrow(m: NumberModel, to: Layout)
    requires
        model_wf(m),
        to.spec_bytes() >= m.layout.spec_bytes(),
    ensures
        reshaped_model(reshaped_model(m, to), m.layout) == m,
{
    let w = reshaped_model(m, to);
    if m.layout != to {
        assert(reshaped_model(w, m.layout).bytes =~= m.bytes);
    }
}

/// Whether `d` holds the bytes `e` at position `p`.
pub open spec fn holds_at(d: Seq<u8>, p: nat, e: Seq<u8>) -> bool {
    p + e.len() <= d.len() && d.subrange(p as int, (p + e.len()) as int) == e
}

/// Bytes held at a position are found there one by one, and so are their parts.
proof fn lemma_holds_at(d: Seq<u8>, p: nat, a: Seq<u8>, b: Seq<u8>)
    requires
        holds_at(d, p, a + b),
    ensures
        holds_at(d, p, a),
        holds_at(d, p + a.len(), b),
        forall|i: int| 0 <= i < a.len() ==> d[p + i] == #[trigger] a[i],
{
    assert(d.subrange(p as int, (p + a.len()) as int) =~= (a + b).subrange(0, a.len() as int));
    assert((a + b).subrange(0, a.len() as int) =~= a);
    assert(d.subrange((p + a.len()) as int, (p + a.len() + b.len()) as int) =~= (a + b).subrange(
        a.len() as int,
        (a + b).len() as int,
    ));
    assert((a + b).subrange(a.len() as int, (a + b).len() as int) =~= b);
    assert forall|i: int| 0 <= i < a.len() implies d[p + i] == #[trigger] a[i] by {
        assert(d.subrange(p as int, (p + (a + b).len()) as int)[i] == (a + b)[i]);
    }
}

/// Decoding a written word gives it back, with the position after it.
pub proof fn law_u16_reads_back(v: u16, d: Seq<u8>, p: nat)
    requires
        holds_at(d, p, enc_u16(v)),
    ensures
        dec_u16(d, p) == Decoded::Value(v, p + 2),
{
    lemma_holds_at(d, p, enc_u16(v), Seq::empty());
    assert(enc_u16(v) + Seq::<u8>::empty() =~= enc_u16(v));
    assert(d[p as int] == (v % 256) as u8);
    assert(d[p + 1int] == (v / 256) as u8);
}

/// Decoding a written flag gives it back, with the position after it.
pub proof fn law_bool_reads_back(b: bool, d: Seq<u8>, p: nat)
    requires
        holds_at(d, p, enc_bool(b)),
    ensures
        dec_bool(d, p) == Decoded::Value(b, p + 1),
{
    assert(d[p as int] == d.subrange(p as int, p + 1int)[0]);
}

/// Decoding a written layout gives it back, with the position after it.
pub proof fn law_layout_reads_back(l: Layout, d: Seq<u8>, p: nat)
    requires
        holds_at(d, p, enc_layout(l)),
    ensures
        dec_layout(d, p) == Decoded::Value(l, p + enc_layout(l).len()),
{
    match l {
        Layout::Integer(i) => {
            lemma_holds_at(d, p, enc_bool(i.signed), enc_u16(i.bytes));
            law_u16_reads_back(i.bytes, d, p + 1);
            assert(d[p as int] == enc_bool(i.signed)[0]);
            assert(d[p as int] <= 1);
            assert((d[p as int] == 1) == i.signed);
        },
        Layout::Float(f) => {
            assert(d[p as int] == d.subrange(p as int, p + 1int)[0]);
        },
    }
}

/// Decoding a written number gives it back, with the position after it.
pub proof fn law_number_reads_back(n: NumberModel, d: Seq<u8>, p: nat)
    requires
        model_wf(n),
        holds_at(d, p, enc_number(n)),
    ensures
        dec_number(d, p) == Decoded::Value(n, p + enc_number(n).len()),
{
    lemma_holds_at(d, p, enc_layout(n.layout), n.bytes);
    law_layout_reads_back(n.layout, d, p);
}

/// Decoding a written byte string gives its bytes back, with the position after them.
pub proof fn law_bytestr_reads_back(s: Seq<u8>, d: Seq<u8>, p: nat)
    requires
        s.len() <= u16::MAX,
        holds_at(d, p, enc_bytestr(s)),
    ensures
        dec_bytestr(d, p) == Decoded::Value(s, p + enc_bytestr(s).len()),
{
    lemma_holds_at(d, p, enc_u16(s.len() as u16), s);
    law_u16_reads_back(s.len() as u16, d, p);
}

/// Reading back `n` big-endian bytes of a value below `256^n` gives the value.
proof fn lemma_be_reads_back(x: nat, n: nat, d: Seq<u8>, p: nat)
    requires
        x < crate::num::pow256(n),
        holds_at(d, p, be_bytes(x, n)),
    ensures
        be_val(d.subrange(p as int, (p + n) as int)) == x,
{
    crate::codec::lemma_be_bytes_val(x, n);
    vstd::arithmetic::div_mod::lemma_small_mod(x, crate::num::pow256(n));
}

/// Decoding a written library identifier gives it back, with the position after it.
pub proof fn law_lib_id_reads_back(id: crate::library::LibId, d: Seq<u8>, p: nat)
    requires
        holds_at(d, p, enc_lib_id(id)),
    ensures
        dec_lib_id(d, p) == Decoded::Value(id, p + 32),
{
    crate::codec::lemma_be_bytes_val(id.hi as nat, 16);
    crate::codec::lemma_be_bytes_val(id.lo as nat, 16);
    crate::num::lemma_pow256_values();
    lemma_holds_at(d, p, be_bytes(id.hi as nat, 16), be_bytes(id.lo as nat, 16));
    lemma_be_reads_back(id.hi as nat, 16, d, p);
    lemma_be_reads_back(id.lo as nat, 16, d, p + 16);
}

/// Decoding a written library site gives it back, with the position after it.
pub proof fn law_lib_site_reads_back(s: LibSite, d: Seq<u8>, p: nat)
    requires
        holds_at(d, p, enc_lib_site(s)),
    ensures
        dec_lib_site(d, p) == Decoded::Value(s, p + 34),
{
    crate::codec::lemma_be_bytes_val(s.lib.hi as nat, 16);
    crate::codec::lemma_be_bytes_val(s.lib.lo as nat, 16);
    lemma_holds_at(d, p, enc_lib_id(s.lib), enc_u16(s.pos));
    law_lib_id_reads_back(s.lib, d, p);
    law_u16_reads_back(s.pos, d, p + 32);
}

/// A library is listed once among the libraries of a segment: equal entries have one position,
/// so the index a segment gives for a library is the one it was inserted at.
pub proof fn law_library_listed_once(s: Seq<crate::library::LibId>, a: int, b: int)
    requires
        crate::library::strictly_sorted(s),
        0 <= a < s.len(),
        0 <= b < s.len(),
        s[a] == s[b],
    ensures
        a == b,
{
    if a < b {
        assert(s[a].spec_lt(s[b]));
    } else if b < a {
        assert(s[b].spec_lt(s[a]));
    }
}

/// A cursor put back to where a write started.
pub open spec fn rewound(written: CursorModel, start: CursorModel) -> CursorModel {
    CursorModel { byte_pos: start.byte_pos, bit_pos: start.bit_pos, ..written }
}

/// Bits written into clear bits of a byte are read back from the same position, and the read
/// ends where the write did (short of the last byte offset, where the write ends the cursor).
pub proof fn law_cursor_bits_read_back(m: CursorModel, data: u8, n: u8)
    requires
        1 <= n < 8,
        m.bit_pos + n <= 8,
        !m.eof,
        m.byte_pos < u16::MAX,
        m.byte_pos < m.bytes.len(),
        data <= low_mask(n),
        bits_at(m.bytes[m.byte_pos as int], m.bit_pos, n) == 0,
    ensures
        read_bits_step(rewound(write_bits_step(m, data, n).0, m), n) == then_value(
            write_bits_step(m, data, n),
            data,
        ),
{
    let b = m.bytes[m.byte_pos as int];
    let at = m.bit_pos;
    assert(bits_at(b | ((data << at) as u8), at, n) == data) by (bit_vector)
        requires
            1 <= n < 8,
            at + n <= 8,
            data <= low_mask(n),
            bits_at(b, at, n) == 0,
    ;
    let w = write_bits_step(m, data, n).0;
    assert(w.bytes[m.byte_pos as int] == b | ((data << at) as u8));
}

/// A word written at a position is read back from it, and the read ends where the write did.
pub proof fn law_cursor_word_read_back(m: CursorModel, data: u16)
    requires
        !m.eof,
        m.byte_pos + 2 <= m.bytes.len(),
    ensures
        read_u16_step(rewound(write_u16_step(m, data).0, m)) == then_value(
            write_u16_step(m, data),
            data,
        ),
{
}

/// Thirty-two bytes written at a position are read back from it, and the read ends where the
/// write did.
pub proof fn law_cursor_bytes32_read_back(m: CursorModel, data: Seq<u8>)
    requires
        !m.eof,
        data.len() == 32,
        m.byte_pos + 32 <= m.bytes.len(),
    ensures
        read_bytes32_step(rewound(write_bytes32_step(m, data).0, m)) == then_value(
            write_bytes32_step(m, data),
            data,
        ),
{
    let w = write_bytes32_step(m, data).0;
    assert(w.bytes.subrange(m.byte_pos as int, m.byte_pos + 32) =~= data);
}

/// A slice written at a position is read back from that position, and the read ends where the
/// write did; a write that fails makes the read fail the same way.
pub proof fn law_cursor_slice_read_back(m: CursorModel, data: Seq<u8>)
    requires
        !m.eof,
        m.bit_pos == 0,
        2 + data.len() <= u16::MAX,
        m.byte_pos + 2 + data.len() <= m.bytes.len(),
    ensures
        read_slice_step(rewound(write_slice_step(m, data).0, m)) == then_value(
            write_slice_step(m, data),
            data,
        ),
{
    let len = data.len() as u16;
    let w16 = write_u16_step(m, len);
    let b = w16.0.bytes;
    assert(b[m.byte_pos as int] + 256 * b[m.byte_pos + 1] == len) by {
        assert(b[m.byte_pos as int] == (len % 256) as u8);
        assert(b[m.byte_pos + 1] == (len / 256) as u8);
    }
    let w = write_slice_step(m, data);
    let rw = rewound(w.0, m);
    if w16.1 is Ok {
        let m2 = CursorModel { bytes: spliced(b, w16.0.byte_pos as int, data), ..w16.0 };
        assert(w16.0.byte_pos == m.byte_pos + 2);
        assert(w == advance_bytes(m2, (2 + data.len()) as u16));
        assert(m2.bytes[m.byte_pos as int] == b[m.byte_pos as int]);
        assert(m2.bytes[m.byte_pos + 1] == b[m.byte_pos + 1]);
        assert(m2.bytes.subrange(m.byte_pos + 2, m.byte_pos + 2 + data.len()) =~= data);
        assert(w.0.bytes == m2.bytes);
        assert(!w.0.eof);
        assert(rw == CursorModel { byte_pos: m.byte_pos, ..m2 });
        assert(read_u16_step(rw) == (m2, Ok::<u16, CursorError>(len)));
    } else {
        assert(w == w16);
        assert(rw == w16.0);
        assert(read_u16_step(rw).0 == w16.0);
        assert(read_u16_step(rw).1 is Err);
    }
}

/// A library identifier turned into its 32 bytes is found again from them.
proof fn lemma_lib_id_bytes(id: crate::library::LibId)
    ensures
        crate::bytecode::lib_id_bytes(id).len() == 32,
        crate::bytecode::lib_id_of(crate::bytecode::lib_id_bytes(id)) == id,
{
    crate::codec::lemma_be_bytes_val(id.hi as nat, 16);
    crate::codec::lemma_be_bytes_val(id.lo as nat, 16);
    crate::num::lemma_pow256_values();
    let b = crate::bytecode::lib_id_bytes(id);
    assert(b.subrange(0, 16) =~= be_bytes(id.hi as nat, 16));
    assert(b.subrange(16, 32) =~= be_bytes(id.lo as nat, 16));
    vstd::arithmetic::div_mod::lemma_small_mod(id.hi as nat, crate::num::pow256(16));
    vstd::arithmetic::div_mod::lemma_small_mod(id.lo as nat, crate::num::pow256(16));
}

/// A control flow instruction written as bytecode is read back from where it was written, and
/// the read ends where the write did (short of the last byte offset, where the cursor ends).
pub proof fn law_control_bytecode_read_back(op: ControlFlowOp, m: CursorModel)
    requires
        !m.eof,
        m.bit_pos == 0,
        m.byte_pos + crate::bytecode::control_len(op) <= m.bytes.len(),
        m.byte_pos + crate::bytecode::control_len(op) <= u16::MAX,
    ensures
        crate::bytecode::control_write_step(op, m).1 is Ok,
        crate::bytecode::control_read_step(rewound(crate::bytecode::control_write_step(op, m).0, m))
            == (crate::bytecode::control_write_step(op, m).0, Ok::<
            ControlFlowOp,
            crate::codec::CursorError,
        >(op)),
{
    let p = m.byte_pos as int;
    let w = crate::bytecode::control_write_step(op, m).0;
    match op {
        ControlFlowOp::Call(s) | ControlFlowOp::Exec(s) => {
            lemma_lib_id_bytes(s.lib);
            let id = crate::bytecode::lib_id_bytes(s.lib);
            assert(w.bytes[p] == crate::bytecode::control_code(op));
            assert(w.bytes[p + 1] == (s.pos % 256) as u8);
            assert(w.bytes[p + 2] == (s.pos / 256) as u8);
            assert(w.bytes.subrange(p + 3, p + 35) =~= id);
        },
        ControlFlowOp::Jmp(o) | ControlFlowOp::Jif(o) | ControlFlowOp::Routine(o) => {
            assert(w.bytes[p] == crate::bytecode::control_code(op));
            assert(w.bytes[p + 1] == (o % 256) as u8);
            assert(w.bytes[p + 2] == (o / 256) as u8);
        },
        _ => {
            assert(w.bytes[p] == crate::bytecode::control_code(op));
        },
    }
}

/// Two bit fields packed into a byte from its low end, three bits then five, are found again.
proof fn lemma_three_five(x: u8, y: u8)
    requires
        x < 8,
        y < 32,
    ensures
        bits_at((0u8 | (x << 0u8)) | (y << 3u8), 0, 3) == x,
        bits_at((0u8 | (x << 0u8)) | (y << 3u8), 3, 5) == y,
        bits_at(0u8 | (x << 0u8), 3, 5) == 0,
        bits_at(0u8, 0, 3) == 0,
{
    assert(bits_at((0u8 | (x << 0u8)) | (y << 3u8), 0, 3) == x) by (bit_vector)
        requires
            x < 8,
            y < 32,
    ;
    assert(bits_at((0u8 | (x << 0u8)) | (y << 3u8), 3, 5) == y) by (bit_vector)
        requires
            x < 8,
            y < 32,
    ;
    assert(bits_at(0u8 | (x << 0u8), 3, 5) == 0) by (bit_vector)
        requires
            x < 8,
    ;
    assert(bits_at(0u8, 0, 3) == 0) by (bit_vector);
}

/// Three bit fields packed into a byte, three, three and two bits, are found again.
proof fn lemma_three_three_two(x: u8, y: u8, z: u8)
    requires
        x < 8,
        y < 8,
        z < 4,
    ensures
        bits_at(((0u8 | (x << 0u8)) | (y << 3u8)) | (z << 6u8), 0, 3) == x,
        bits_at(((0u8 | (x << 0u8)) | (y << 3u8)) | (z << 6u8), 3, 3) == y,
        bits_at(((0u8 | (x << 0u8)) | (y << 3u8)) | (z << 6u8), 6, 2) == z,
        bits_at(0u8 | (x << 0u8), 3, 3) == 0,
        bits_at((0u8 | (x << 0u8)) | (y << 3u8), 6, 2) == 0,
        bits_at(0u8, 0, 3) == 0,
{
    assert(bits_at(((0u8 | (x << 0u8)) | (y << 3u8)) | (z << 6u8), 0, 3) == x && bits_at(
        ((0u8 | (x << 0u8)) | (y << 3u8)) | (z << 6u8),
        3,
        3,
    ) == y && bits_at(((0u8 | (x << 0u8)) | (y << 3u8)) | (z << 6u8), 6, 2) == z && bits_at(
        0u8 | (x << 0u8),
        3,
        3,
    ) == 0 && bits_at((0u8 | (x << 0u8)) | (y << 3u8), 6, 2) == 0 && bits_at(0u8, 0, 3) == 0)
        by (bit_vector)
        requires
            x < 8,
            y < 8,
            z < 4,
    ;
}

/// Block codes are found again from their three bits.
proof fn lemma_block_codes(a: crate::reg::RegA, r: crate::reg::RegR, i: Reg32, t: crate::op_types::NumType)
    ensures
        crate::op_codes::a_code(a) < 8,
        crate::op_codes::a_of(crate::op_codes::a_code(a) as u16) == a,
        crate::op_codes::r_code(r) < 8,
        crate::op_codes::r_of(crate::op_codes::r_code(r) as u16) == r,
        crate::op_codes::i_code(i) < 32,
        crate::op_codes::i_of(crate::op_codes::i_code(i) as u16) == i,
        t.spec_as_u2() < 4,
        crate::op_codes::nt_of(t.spec_as_u2() as u16) == t,
{
    lemma_reg32_position(i);
}

/// Writing a code byte and four bit fields of three, five, three and five bits over zero bytes,
/// then reading from the same position the code and fields of those shapes, gives them back.
proof fn lemma_quad_read_back(m: CursorModel, code: u8, x: u8, y: u8, z: u8, w: u8)
    requires
        !m.eof,
        m.bit_pos == 0,
        m.byte_pos + 3 <= m.bytes.len(),
        m.byte_pos + 3 <= u16::MAX,
        m.bytes[m.byte_pos + 1] == 0,
        m.bytes[m.byte_pos + 2] == 0,
        x < 8,
        y < 32,
        z < 8,
        w < 32,
    ensures
        ({
            let fs = seq![crate::fields::Field::Bits(x, 3), crate::fields::Field::Bits(y, 5), crate::fields::Field::Bits(z, 3), crate::fields::Field::Bits(w, 5)];
            let ws = crate::op_codes::code_then_fields(m, code, fs);
            let (m1, r1) = crate::cursor::read_u8_step(rewound(ws.0, m));
            &&& ws.1 is Ok
            &&& r1 == Ok::<u8, crate::codec::CursorError>(code)
            &&& crate::fields::reads_step(m1, crate::op_codes::quad_kinds()) == (ws.0, Ok::<Seq<u16>, crate::codec::CursorError>(seq![x as u16, y as u16, z as u16, w as u16]))
        }),
{
    reveal_with_fuel(crate::fields::fields_step, 5);
    reveal_with_fuel(crate::fields::reads_step, 5);
    let f0 = crate::fields::Field::Bits(x, 3);
    let f1 = crate::fields::Field::Bits(y, 5);
    let f2 = crate::fields::Field::Bits(z, 3);
    let f3 = crate::fields::Field::Bits(w, 5);
    let fs = seq![f0, f1, f2, f3];
    assert(fs.drop_last() =~= seq![f0, f1, f2]);
    assert(fs.drop_last().drop_last() =~= seq![f0, f1]);
    assert(fs.drop_last().drop_last().drop_last() =~= seq![f0]);
    assert(fs.drop_last().drop_last().drop_last().drop_last() =~= Seq::<crate::fields::Field>::empty());
    let ks = crate::op_codes::quad_kinds();
    assert(ks.drop_last() =~= seq![crate::fields::Kind::Bits(3), crate::fields::Kind::Bits(5), crate::fields::Kind::Bits(3)]);
    assert(ks.drop_last().drop_last() =~= seq![crate::fields::Kind::Bits(3), crate::fields::Kind::Bits(5)]);
    assert(ks.drop_last().drop_last().drop_last() =~= seq![crate::fields::Kind::Bits(3)]);
    assert(ks.drop_last().drop_last().drop_last().drop_last() =~= Seq::<crate::fields::Kind>::empty());
    lemma_three_five(x, y);
    lemma_three_five(z, w);
    assert(seq![x as u16].push(y as u16).push(z as u16).push(w as u16) =~= seq![x as u16, y as u16, z as u16, w as u16]);
    assert(Seq::<u16>::empty().push(x as u16) =~= seq![x as u16]);
}

/// Writing a code byte and three bit fields of three, three and two bits over a zero byte, then
/// reading them back, gives them back.
proof fn lemma_triple_read_back(m: CursorModel, code: u8, x: u8, y: u8, z: u8)
    requires
        !m.eof,
        m.bit_pos == 0,
        m.byte_pos + 2 <= m.bytes.len(),
        m.byte_pos + 2 <= u16::MAX,
        m.bytes[m.byte_pos + 1] == 0,
        x < 8,
        y < 8,
        z < 4,
    ensures
        ({
            let fs = seq![crate::fields::Field::Bits(x, 3), crate::fields::Field::Bits(y, 3), crate::fields::Field::Bits(z, 2)];
            let ks = seq![crate::fields::Kind::Bits(3), crate::fields::Kind::Bits(3), crate::fields::Kind::Bits(2)];
            let ws = crate::op_codes::code_then_fields(m, code, fs);
            let (m1, r1) = crate::cursor::read_u8_step(rewound(ws.0, m));
            &&& ws.1 is Ok
            &&& r1 == Ok::<u8, crate::codec::CursorError>(code)
            &&& crate::fields::reads_step(m1, ks) == (ws.0, Ok::<Seq<u16>, crate::codec::CursorError>(seq![x as u16, y as u16, z as u16]))
        }),
{
    reveal_with_fuel(crate::fields::fields_step, 4);
    reveal_with_fuel(crate::fields::reads_step, 4);
    let f0 = crate::fields::Field::Bits(x, 3);
    let f1 = crate::fields::Field::Bits(y, 3);
    let f2 = crate::fields::Field::Bits(z, 2);
    let fs = seq![f0, f1, f2];
    assert(fs.drop_last() =~= seq![f0, f1]);
    assert(fs.drop_last().drop_last() =~= seq![f0]);
    assert(fs.drop_last().drop_last().drop_last() =~= Seq::<crate::fields::Field>::empty());
    let ks = seq![crate::fields::Kind::Bits(3), crate::fields::Kind::Bits(3), crate::fields::Kind::Bits(2)];
    assert(ks.drop_last() =~= seq![crate::fields::Kind::Bits(3), crate::fields::Kind::Bits(3)]);
    assert(ks.drop_last().drop_last() =~= seq![crate::fields::Kind::Bits(3)]);
    assert(ks.drop_last().drop_last().drop_last() =~= Seq::<crate::fields::Kind>::empty());
    lemma_three_three_two(x, y, z);
    assert(seq![x as u16].push(y as u16).push(z as u16) =~= seq![x as u16, y as u16, z as u16]);
    assert(Seq::<u16>::empty().push(x as u16) =~= seq![x as u16]);
}

/// A move instruction whose code and argument values are read back after writing is read
/// back whole.
proof fn lemma_move_read_back_from(op: crate::op_codes::MoveOp, m: CursorModel, vs: Seq<u16>)
    requires
        crate::op_codes::move_write_step(op, m).1 is Ok,
        ({
            let w = crate::op_codes::move_write_step(op, m).0;
            let (m1, r1) = crate::cursor::read_u8_step(rewound(w, m));
            &&& r1 == Ok::<u8, crate::codec::CursorError>(crate::op_codes::move_code(op))
            &&& crate::fields::reads_step(m1, crate::op_codes::move_kinds(crate::op_codes::move_code(op))) == (w, Ok::<Seq<u16>, crate::codec::CursorError>(vs))
        }),
        crate::op_codes::move_of(crate::op_codes::move_code(op), vs) == op,
    ensures
        crate::op_codes::move_read_step(rewound(crate::op_codes::move_write_step(op, m).0, m)) == (
        crate::op_codes::move_write_step(op, m).0, Ok::<crate::op_codes::MoveOp, crate::codec::CursorError>(op)),
{
}

/// A move instruction written as bytecode over zero bytes is read back from where it was
/// written, and the read ends where the write did.
#[verifier::rlimit(40)]
pub proof fn law_move_bytecode_read_back(op: crate::op_codes::MoveOp, m: CursorModel)
    requires
        !m.eof,
        m.bit_pos == 0,
        m.byte_pos + 3 <= m.bytes.len(),
        m.byte_pos + 3 <= u16::MAX,
        forall|i: int| m.byte_pos < i < m.byte_pos + 3 ==> m.bytes[i] == 0,
    ensures
        crate::op_codes::move_write_step(op, m).1 is Ok,
        crate::op_codes::move_read_step(rewound(crate::op_codes::move_write_step(op, m).0, m)) == (
        crate::op_codes::move_write_step(op, m).0, Ok::<crate::op_codes::MoveOp, crate::codec::CursorError>(op)),
{
    let p = m.byte_pos as int;
    assert(m.bytes[p + 1] == 0);
    assert(m.bytes[p + 2] == 0);
    let code = crate::op_codes::move_code(op);
    match op {
        crate::op_codes::MoveOp::AMov(a, b, t) => {
            lemma_block_codes(a, crate::reg::RegR::R128, Reg32::Reg0, t);
            lemma_block_codes(b, crate::reg::RegR::R128, Reg32::Reg0, t);
            lemma_triple_read_back(m, code, a_code(a), a_code(b), t.spec_as_u2());
            lemma_move_read_back_from(op, m, seq![a_code(a) as u16, a_code(b) as u16, t.spec_as_u2() as u16]);
        },
        crate::op_codes::MoveOp::SwpA(a, i, b, j) | crate::op_codes::MoveOp::MovA(a, i, b, j) => {
            lemma_block_codes(a, crate::reg::RegR::R128, i, crate::op_types::NumType::Unsigned);
            lemma_block_codes(b, crate::reg::RegR::R128, j, crate::op_types::NumType::Unsigned);
            lemma_quad_read_back(m, code, a_code(a), i_code(i), a_code(b), i_code(j));
            lemma_move_read_back_from(op, m, seq![a_code(a) as u16, i_code(i) as u16, a_code(b) as u16, i_code(j) as u16]);
        },
        crate::op_codes::MoveOp::SwpR(a, i, b, j) | crate::op_codes::MoveOp::MovR(a, i, b, j) => {
            lemma_block_codes(crate::reg::RegA::A8, a, i, crate::op_types::NumType::Unsigned);
            lemma_block_codes(crate::reg::RegA::A8, b, j, crate::op_types::NumType::Unsigned);
            lemma_quad_read_back(m, code, r_code(a), i_code(i), r_code(b), i_code(j));
            lemma_move_read_back_from(op, m, seq![r_code(a) as u16, i_code(i) as u16, r_code(b) as u16, i_code(j) as u16]);
        },
        crate::op_codes::MoveOp::SwpAR(a, i, b, j) | crate::op_codes::MoveOp::MovAR(a, i, b, j) => {
            lemma_block_codes(a, b, i, crate::op_types::NumType::Unsigned);
            lemma_block_codes(a, b, j, crate::op_types::NumType::Unsigned);
            lemma_quad_read_back(m, code, a_code(a), i_code(i), r_code(b), i_code(j));
            lemma_move_read_back_from(op, m, seq![a_code(a) as u16, i_code(i) as u16, r_code(b) as u16, i_code(j) as u16]);
        },
        crate::op_codes::MoveOp::MovRA(a, i, b, j) => {
            lemma_block_codes(b, a, i, crate::op_types::NumType::Unsigned);
            lemma_block_codes(b, a, j, crate::op_types::NumType::Unsigned);
            lemma_quad_read_back(m, code, r_code(a), i_code(i), a_code(b), i_code(j));
            lemma_move_read_back_from(op, m, seq![r_code(a) as u16, i_code(i) as u16, a_code(b) as u16, i_code(j) as u16]);
        },
    }
}

/// Writing a code byte and two bit fields filling one byte (three then five bits, or five then
/// three) over a zero byte, then reading them back, gives them back.
proof fn lemma_two_read_back(m: CursorModel, code: u8, x: u8, y: u8, wx: u8)
    requires
        !m.eof,
        m.bit_pos == 0,
        m.byte_pos + 2 <= m.bytes.len(),
        m.byte_pos + 2 <= u16::MAX,
        m.bytes[m.byte_pos + 1] == 0,
        wx == 3 || wx == 5,
        wx == 3 ==> x < 8 && y < 32,
        wx == 5 ==> x < 32 && y < 8,
    ensures
        ({
            let fs = seq![crate::fields::Field::Bits(x, wx), crate::fields::Field::Bits(y, (8 - wx) as u8)];
            let ks = seq![crate::fields::Kind::Bits(wx), crate::fields::Kind::Bits((8 - wx) as u8)];
            let ws = crate::op_codes::code_then_fields(m, code, fs);
            let (m1, r1) = crate::cursor::read_u8_step(rewound(ws.0, m));
            &&& ws.1 is Ok
            &&& r1 == Ok::<u8, crate::codec::CursorError>(code)
            &&& crate::fields::reads_step(m1, ks) == (ws.0, Ok::<Seq<u16>, crate::codec::CursorError>(seq![x as u16, y as u16]))
        }),
{
    reveal_with_fuel(crate::fields::fields_step, 3);
    reveal_with_fuel(crate::fields::reads_step, 3);
    let fs = seq![crate::fields::Field::Bits(x, wx), crate::fields::Field::Bits(y, (8 - wx) as u8)];
    let ks = seq![crate::fields::Kind::Bits(wx), crate::fields::Kind::Bits((8 - wx) as u8)];
    assert(fs.drop_last() =~= seq![crate::fields::Field::Bits(x, wx)]);
    assert(fs.drop_last().drop_last() =~= Seq::<crate::fields::Field>::empty());
    assert(ks.drop_last() =~= seq![crate::fields::Kind::Bits(wx)]);
    assert(ks.drop_last().drop_last() =~= Seq::<crate::fields::Kind>::empty());
    if wx == 3 {
        lemma_three_five(x, y);
    } else {
        lemma_pair_byte(x, y);
        assert(bits_at(0u8, 0, 5) == 0);
    }
    assert(seq![x as u16].push(y as u16) =~= seq![x as u16, y as u16]);
    assert(Seq::<u16>::empty().push(x as u16) =~= seq![x as u16]);
}

/// Writing a code byte and four bit fields of three, five, five and three bits over zero
/// bytes, then reading them back, gives them back.
proof fn lemma_quad2_read_back(m: CursorModel, code: u8, x: u8, y: u8, z: u8, w: u8)
    requires
        !m.eof,
        m.bit_pos == 0,
        m.byte_pos + 3 <= m.bytes.len(),
        m.byte_pos + 3 <= u16::MAX,
        m.bytes[m.byte_pos + 1] == 0,
        m.bytes[m.byte_pos + 2] == 0,
        x < 8,
        y < 32,
        z < 32,
        w < 8,
    ensures
        ({
            let fs = seq![crate::fields::Field::Bits(x, 3), crate::fields::Field::Bits(y, 5), crate::fields::Field::Bits(z, 5), crate::fields::Field::Bits(w, 3)];
            let ks = seq![crate::fields::Kind::Bits(3), crate::fields::Kind::Bits(5), crate::fields::Kind::Bits(5), crate::fields::Kind::Bits(3)];
            let ws = crate::op_codes::code_then_fields(m, code, fs);
            let (m1, r1) = crate::cursor::read_u8_step(rewound(ws.0, m));
            &&& ws.1 is Ok
            &&& r1 == Ok::<u8, crate::codec::CursorError>(code)
            &&& crate::fields::reads_step(m1, ks) == (ws.0, Ok::<Seq<u16>, crate::codec::CursorError>(seq![x as u16, y as u16, z as u16, w as u16]))
        }),
{
    reveal_with_fuel(crate::fields::fields_step, 5);
    reveal_with_fuel(crate::fields::reads_step, 5);
    let fs = seq![crate::fields::Field::Bits(x, 3), crate::fields::Field::Bits(y, 5), crate::fields::Field::Bits(z, 5), crate::fields::Field::Bits(w, 3)];
    assert(fs.drop_last() =~= seq![crate::fields::Field::Bits(x, 3), crate::fields::Field::Bits(y, 5), crate::fields::Field::Bits(z, 5)]);
    assert(fs.drop_last().drop_last() =~= seq![crate::fields::Field::Bits(x, 3), crate::fields::Field::Bits(y, 5)]);
    assert(fs.drop_last().drop_last().drop_last() =~= seq![crate::fields::Field::Bits(x, 3)]);
    assert(fs.drop_last().drop_last().drop_last().drop_last() =~= Seq::<crate::fields::Field>::empty());
    let ks = seq![crate::fields::Kind::Bits(3), crate::fields::Kind::Bits(5), crate::fields::Kind::Bits(5), crate::fields::Kind::Bits(3)];
    assert(ks.drop_last() =~= seq![crate::fields::Kind::Bits(3), crate::fields::Kind::Bits(5), crate::fields::Kind::Bits(5)]);
    assert(ks.drop_last().drop_last() =~= seq![crate::fields::Kind::Bits(3), crate::fields::Kind::Bits(5)]);
    assert(ks.drop_last().drop_last().drop_last() =~= seq![crate::fields::Kind::Bits(3)]);
    assert(ks.drop_last().drop_last().drop_last().drop_last() =~= Seq::<crate::fields::Kind>::empty());
    lemma_three_five(x, y);
    lemma_pair_byte(z, w);
    assert(seq![x as u16].push(y as u16).push(z as u16).push(w as u16) =~= seq![x as u16, y as u16, z as u16, w as u16]);
    assert(Seq::<u16>::empty().push(x as u16) =~= seq![x as u16]);
}

/// Four, one and three bits packed into a byte are found again.
proof fn lemma_four_one_three(a: u8, b: u8, c: u8)
    requires
        a < 16,
        b < 2,
        c < 8,
    ensures
        bits_at(((0u8 | (a << 0u8)) | (b << 4u8)) | (c << 5u8), 0, 4) == a,
        bits_at(((0u8 | (a << 0u8)) | (b << 4u8)) | (c << 5u8), 4, 1) == b,
        bits_at(((0u8 | (a << 0u8)) | (b << 4u8)) | (c << 5u8), 5, 3) == c,
        bits_at(0u8 | (a << 0u8), 4, 1) == 0,
        bits_at((0u8 | (a << 0u8)) | (b << 4u8), 5, 3) == 0,
        bits_at(0u8, 0, 4) == 0,
{
    assert(bits_at(((0u8 | (a << 0u8)) | (b << 4u8)) | (c << 5u8), 0, 4) == a && bits_at(
        ((0u8 | (a << 0u8)) | (b << 4u8)) | (c << 5u8),
        4,
        1,
    ) == b && bits_at(((0u8 | (a << 0u8)) | (b << 4u8)) | (c << 5u8), 5, 3) == c && bits_at(
        0u8 | (a << 0u8),
        4,
        1,
    ) == 0 && bits_at((0u8 | (a << 0u8)) | (b << 4u8), 5, 3) == 0 && bits_at(0u8, 0, 4) == 0)
        by (bit_vector)
        requires
            a < 16,
            b < 2,
            c < 8,
    ;
}

/// Writing a code byte and five bit fields of three, five, four, one and three bits over zero
/// bytes, then reading them back, gives them back.
proof fn lemma_five_read_back(m: CursorModel, code: u8, x: u8, y: u8, z: u8, f: u8, w: u8)
    requires
        !m.eof,
        m.bit_pos == 0,
        m.byte_pos + 3 <= m.bytes.len(),
        m.byte_pos + 3 <= u16::MAX,
        m.bytes[m.byte_pos + 1] == 0,
        m.bytes[m.byte_pos + 2] == 0,
        x < 8,
        y < 32,
        z < 16,
        f < 2,
        w < 8,
    ensures
        ({
            let fs = seq![crate::fields::Field::Bits(x, 3), crate::fields::Field::Bits(y, 5), crate::fields::Field::Bits(z, 4), crate::fields::Field::Bits(f, 1), crate::fields::Field::Bits(w, 3)];
            let ks = seq![crate::fields::Kind::Bits(3), crate::fields::Kind::Bits(5), crate::fields::Kind::Bits(4), crate::fields::Kind::Bits(1), crate::fields::Kind::Bits(3)];
            let ws = crate::op_codes::code_then_fields(m, code, fs);
            let (m1, r1) = crate::cursor::read_u8_step(rewound(ws.0, m));
            &&& ws.1 is Ok
            &&& r1 == Ok::<u8, crate::codec::CursorError>(code)
            &&& crate::fields::reads_step(m1, ks) == (ws.0, Ok::<Seq<u16>, crate::codec::CursorError>(seq![x as u16, y as u16, z as u16, f as u16, w as u16]))
        }),
{
    reveal_with_fuel(crate::fields::fields_step, 6);
    reveal_with_fuel(crate::fields::reads_step, 6);
    let fs = seq![crate::fields::Field::Bits(x, 3), crate::fields::Field::Bits(y, 5), crate::fields::Field::Bits(z, 4), crate::fields::Field::Bits(f, 1), crate::fields::Field::Bits(w, 3)];
    assert(fs.drop_last() =~= seq![crate::fields::Field::Bits(x, 3), crate::fields::Field::Bits(y, 5), crate::fields::Field::Bits(z, 4), crate::fields::Field::Bits(f, 1)]);
    assert(fs.drop_last().drop_last() =~= seq![crate::fields::Field::Bits(x, 3), crate::fields::Field::Bits(y, 5), crate::fields::Field::Bits(z, 4)]);
    assert(fs.drop_last().drop_last().drop_last() =~= seq![crate::fields::Field::Bits(x, 3), crate::fields::Field::Bits(y, 5)]);
    assert(fs.drop_last().drop_last().drop_last().drop_last() =~= seq![crate::fields::Field::Bits(x, 3)]);
    assert(fs.drop_last().drop_last().drop_last().drop_last().drop_last() =~= Seq::<crate::fields::Field>::empty());
    let ks = seq![crate::fields::Kind::Bits(3), crate::fields::Kind::Bits(5), crate::fields::Kind::Bits(4), crate::fields::Kind::Bits(1), crate::fields::Kind::Bits(3)];
    assert(ks.drop_last() =~= seq![crate::fields::Kind::Bits(3), crate::fields::Kind::Bits(5), crate::fields::Kind::Bits(4), crate::fields::Kind::Bits(1)]);
    assert(ks.drop_last().drop_last() =~= seq![crate::fields::Kind::Bits(3), crate::fields::Kind::Bits(5), crate::fields::Kind::Bits(4)]);
    assert(ks.drop_last().drop_last().drop_last() =~= seq![crate::fields::Kind::Bits(3), crate::fields::Kind::Bits(5)]);
    assert(ks.drop_last().drop_last().drop_last().drop_last() =~= seq![crate::fields::Kind::Bits(3)]);
    assert(ks.drop_last().drop_last().drop_last().drop_last().drop_last() =~= Seq::<crate::fields::Kind>::empty());
    lemma_three_five(x, y);
    lemma_four_one_three(z, f, w);
    assert(seq![x as u16].push(y as u16).push(z as u16).push(f as u16).push(w as u16) =~= seq![x as u16, y as u16, z as u16, f as u16, w as u16]);
    assert(Seq::<u16>::empty().push(x as u16) =~= seq![x as u16]);
}

/// Kinds of arithmetic are found again from their three bits.
proof fn lemma_arith_kind_code(ar: crate::op_types::Arithmetics)
    ensures
        ar.spec_as_u3() < 8,
        crate::op_codes::ar_of(ar.spec_as_u3() as u16) == ar,
{
}

/// Number of bytes of an arithmetic instruction.
pub open spec fn arith_len(op: crate::op_codes::ArithmeticOp) -> int {
    if op is Neg || op is Abs { 2 } else { 3 }
}

/// An arithmetic instruction written as bytecode over zero bytes is read back from where it
/// was written, and the read ends where the write did; the step of `stp` must fit its four bits.
#[verifier::rlimit(40)]
pub proof fn law_arith_bytecode_read_back(op: crate::op_codes::ArithmeticOp, m: CursorModel)
    requires
        !m.eof,
        m.bit_pos == 0,
        m.byte_pos + arith_len(op) <= m.bytes.len(),
        m.byte_pos + arith_len(op) <= u16::MAX,
        forall|i: int| m.byte_pos < i < m.byte_pos + arith_len(op) ==> m.bytes[i] == 0,
        op matches crate::op_codes::ArithmeticOp::Stp(_, _, _, _, step) ==> step < 16,
    ensures
        crate::op_codes::arith_write_step(op, m).1 is Ok,
        crate::op_codes::arith_read_step(rewound(crate::op_codes::arith_write_step(op, m).0, m)) == (
        crate::op_codes::arith_write_step(op, m).0, Ok::<crate::op_codes::ArithmeticOp, crate::codec::CursorError>(op)),
{
    let p = m.byte_pos as int;
    assert(m.bytes[p + 1] == 0);
    let code = crate::op_codes::arith_code(op);
    let w = crate::op_codes::arith_write_step(op, m).0;
    match op {
        crate::op_codes::ArithmeticOp::Neg(a, i) | crate::op_codes::ArithmeticOp::Abs(a, i) => {
            lemma_block_codes(a, crate::reg::RegR::R128, i, crate::op_types::NumType::Unsigned);
            lemma_two_read_back(m, code, a_code(a), i_code(i), 3);
            assert(crate::op_codes::arith_kinds(code) == seq![crate::fields::Kind::Bits(3), crate::fields::Kind::Bits(5)]);
            assert(crate::op_codes::arith_of(code, seq![a_code(a) as u16, i_code(i) as u16]) == op);
        },
        crate::op_codes::ArithmeticOp::Stp(d, ar, a, i, step) => {
            assert(m.bytes[p + 2] == 0);
            lemma_block_codes(a, crate::reg::RegR::R128, i, crate::op_types::NumType::Unsigned);
            lemma_arith_kind_code(ar);
            let f: u8 = if d == crate::op_types::IncDec::Dec { 1 } else { 0 };
            lemma_five_read_back(m, code, a_code(a), i_code(i), step, f, ar.spec_as_u3());
            assert(crate::op_codes::arith_of(code, seq![a_code(a) as u16, i_code(i) as u16, step as u16, f as u16, ar.spec_as_u3() as u16]) == op);
        },
        crate::op_codes::ArithmeticOp::Add(ar, a, i, j) | crate::op_codes::ArithmeticOp::Sub(ar, a, i, j)
        | crate::op_codes::ArithmeticOp::Mul(ar, a, i, j) | crate::op_codes::ArithmeticOp::Div(ar, a, i, j)
        | crate::op_codes::ArithmeticOp::Rem(ar, a, i, j) => {
            assert(m.bytes[p + 2] == 0);
            lemma_block_codes(a, crate::reg::RegR::R128, i, crate::op_types::NumType::Unsigned);
            lemma_block_codes(a, crate::reg::RegR::R128, j, crate::op_types::NumType::Unsigned);
            lemma_arith_kind_code(ar);
            lemma_quad2_read_back(m, code, a_code(a), i_code(i), i_code(j), ar.spec_as_u3());
            assert(crate::op_codes::arith_of(code, seq![a_code(a) as u16, i_code(i) as u16, i_code(j) as u16, ar.spec_as_u3() as u16]) == op);
        },
    }
}

/// A bitwise instruction written as bytecode over zero bytes is read back from where it was
/// written, and the read ends where the write did.
#[verifier::rlimit(40)]
pub proof fn law_bitwise_bytecode_read_back(op: crate::op_codes::BitwiseOp, m: CursorModel)
    requires
        !m.eof,
        m.bit_pos == 0,
        m.byte_pos + 3 <= m.bytes.len(),
        m.byte_pos + 3 <= u16::MAX,
        forall|i: int| m.byte_pos < i < m.byte_pos + 3 ==> m.bytes[i] == 0,
    ensures
        crate::op_codes::bitwise_write_step(op, m).1 is Ok,
        crate::op_codes::bitwise_read_step(rewound(crate::op_codes::bitwise_write_step(op, m).0, m)) == (
        crate::op_codes::bitwise_write_step(op, m).0, Ok::<crate::op_codes::BitwiseOp, crate::codec::CursorError>(op)),
{
    let p = m.byte_pos as int;
    assert(m.bytes[p + 1] == 0);
    assert(m.bytes[p + 2] == 0);
    let code = crate::op_codes::bitwise_code(op);
    match op {
        crate::op_codes::BitwiseOp::Not(a, i) => {
            lemma_block_codes(a, crate::reg::RegR::R128, i, crate::op_types::NumType::Unsigned);
            lemma_two_read_back(m, code, a_code(a), i_code(i), 3);
            assert(crate::op_codes::bitwise_of(code, seq![a_code(a) as u16, i_code(i) as u16]) == op);
        },
        crate::op_codes::BitwiseOp::And(a, i, j, d) | crate::op_codes::BitwiseOp::Or(a, i, j, d)
        | crate::op_codes::BitwiseOp::Xor(a, i, j, d) | crate::op_codes::BitwiseOp::Shl(a, i, j, d)
        | crate::op_codes::BitwiseOp::Shr(a, i, j, d) | crate::op_codes::BitwiseOp::Scl(a, i, j, d)
        | crate::op_codes::BitwiseOp::Scr(a, i, j, d) => {
            lemma_block_codes(a, crate::reg::RegR::R128, i, crate::op_types::NumType::Unsigned);
            lemma_block_codes(a, crate::reg::RegR::R128, j, crate::op_types::NumType::Unsigned);
            lemma_reg8_position(d);
            let dc = crate::op_codes::r8_code(d);
            assert(crate::op_codes::r8_of(dc as u16) == d);
            lemma_quad2_read_back(m, code, a_code(a), i_code(i), i_code(j), dc);
            assert(crate::op_codes::bitwise_of(code, seq![a_code(a) as u16, i_code(i) as u16, i_code(j) as u16, dc as u16]) == op);
        },
    }
}

/// A digest instruction written as bytecode over a zero byte is read back from where it was
/// written, and the read ends where the write did.
pub proof fn law_digest_bytecode_read_back(op: crate::op_codes::DigestOp, m: CursorModel)
    requires
        !m.eof,
        m.bit_pos == 0,
        m.byte_pos + 2 <= m.bytes.len(),
        m.byte_pos + 2 <= u16::MAX,
        m.bytes[m.byte_pos + 1] == 0,
    ensures
        crate::op_codes::digest_write_step(op, m).1 is Ok,
        crate::op_codes::digest_read_step(rewound(crate::op_codes::digest_write_step(op, m).0, m)) == (
        crate::op_codes::digest_write_step(op, m).0, Ok::<crate::op_codes::DigestOp, crate::bytecode::DecodeError>(op)),
{
    let code = crate::op_codes::digest_code(op);
    match op {
        crate::op_codes::DigestOp::Ripemd(s, d) | crate::op_codes::DigestOp::Sha256(s, d)
        | crate::op_codes::DigestOp::Sha512(s, d) => {
            lemma_block_codes(crate::reg::RegA::A8, crate::reg::RegR::R128, s, crate::op_types::NumType::Unsigned);
            lemma_reg8_position(d);
            let dc = crate::op_codes::r8_code(d);
            assert(crate::op_codes::r8_of(dc as u16) == d);
            lemma_two_read_back(m, code, i_code(s), dc, 5);
        },
    }
}

/// A register index below 8 is found again from its position.
proof fn lemma_reg8_position(r: crate::reg::Reg8)
    ensures
        r.spec_to_usize() < 8,
        crate::bytecode::reg8_of(r.spec_to_usize() as u8) == r,
{
}

/// Two register indices packed into a byte are found again in it.
proof fn lemma_pair_byte(a: u8, b: u8)
    requires
        a < 32,
        b < 8,
    ensures
        bits_at(0u8 | (a << 0u8), 0, 5) == a,
        bits_at((0u8 | (a << 0u8)) | (b << 5u8), 0, 5) == a,
        bits_at((0u8 | (a << 0u8)) | (b << 5u8), 5, 3) == b,
        bits_at(0u8 | (a << 0u8), 5, 3) == 0,
        bits_at(0u8, 0, 5) == 0,
{
    assert(bits_at(0u8 | (a << 0u8), 0, 5) == a) by (bit_vector)
        requires
            a < 32,
    ;
    assert(bits_at((0u8 | (a << 0u8)) | (b << 5u8), 0, 5) == a) by (bit_vector)
        requires
            a < 32,
            b < 8,
    ;
    assert(bits_at((0u8 | (a << 0u8)) | (b << 5u8), 5, 3) == b) by (bit_vector)
        requires
            a < 32,
            b < 8,
    ;
    assert(bits_at(0u8 | (a << 0u8), 5, 3) == 0) by (bit_vector)
        requires
            a < 32,
    ;
    assert(bits_at(0u8, 0, 5) == 0) by (bit_vector);
}

/// A Secp256k1 instruction written as bytecode over zero bytes is read back from where it was
/// written, and the read ends where the write did; the multiplication's point register crosses
/// a byte boundary, where only its two low bits are kept, so it is read back when below 4.
pub proof fn law_secp_bytecode_read_back(op: Secp256k1Op, m: CursorModel)
    requires
        !m.eof,
        m.bit_pos == 0,
        m.byte_pos + crate::bytecode::secp_len(op) <= m.bytes.len(),
        m.byte_pos + crate::bytecode::secp_len(op) <= u16::MAX,
        forall|i: int| m.byte_pos < i < m.byte_pos + crate::bytecode::secp_len(op) ==> m.bytes[i] == 0,
        op matches Secp256k1Op::Mul(_, _, src, _) ==> src.spec_to_usize() < 4,
    ensures
        crate::bytecode::secp_write_step(op, m).1 is Ok,
        crate::bytecode::secp_read_step(rewound(crate::bytecode::secp_write_step(op, m).0, m)) == (
        crate::bytecode::secp_write_step(op, m).0, Ok::<Secp256k1Op, crate::codec::CursorError>(
            op,
        )),
{
    let p = m.byte_pos as int;
    match op {
        Secp256k1Op::Gen(a, b) | Secp256k1Op::Add(a, b) | Secp256k1Op::Neg(a, b) => {
            lemma_reg32_position(a);
            lemma_reg8_position(b);
            let x = a.spec_to_usize() as u8;
            let y = b.spec_to_usize() as u8;
            lemma_pair_byte(x, y);
            assert(m.bytes[p + 1] == 0);
        },
        Secp256k1Op::Mul(block, scal, src, dst) => {
            lemma_reg32_position(scal);
            lemma_reg32_position(src);
            lemma_reg32_position(dst);
            let f: u8 = if block == crate::reg::RegBlockAR::A { 1 } else { 0 };
            let s1 = scal.spec_to_usize() as u8;
            let s2 = src.spec_to_usize() as u8;
            let s3 = dst.spec_to_usize() as u8;
            assert(m.bytes[p + 1] == 0);
            assert(m.bytes[p + 2] == 0);
            let b1 = ((0u8 | (f << 0u8)) | (s1 << 1u8)) | (s2 << 6u8);
            let b2 = 0u8 | (s3 << 3u8);
            assert(bits_at(b1, 0, 1) == f && bits_at(b1, 1, 5) == s1 && bits_at(b1, 6, 5) == s2
                && bits_at(b2, 3, 5) == s3 && bits_at(0u8, 0, 1) == 0 && bits_at(0u8 | (f << 0u8),
            1, 5) == 0 && bits_at((0u8 | (f << 0u8)) | (s1 << 1u8), 6, 5) == 0 && bits_at(0u8, 3, 5)
                == 0) by (bit_vector)
                requires
                    f < 2,
                    s1 < 32,
                    s2 < 4,
                    s3 < 32,
                    b1 == ((0u8 | (f << 0u8)) | (s1 << 1u8)) | (s2 << 6u8),
                    b2 == 0u8 | (s3 << 3u8),
            ;
        },
    }
}

/// Field sums are symmetric in their two elements, and always land below the order.
pub proof fn law_field_sum_commutes(a: u128, b: u128, order: u128)
    requires
        a < order,
        b < order,
    ensures
        add_mod_value(a, b, order) == add_mod_value(b, a, order),
        add_mod_value(a, b, order) < order,
{
}

/// A nonzero field element plus its negation is zero, with no 128-bit overflow.
pub proof fn law_field_negation_cancels(a: u128, order: u128)
    requires
        0 < a < order,
    ensures
        a + (order - a) <= u128::MAX,
        add_mod_value(a, (order - a) as u128, order) == 0,
{
    assert((order as int) % (order as int) == 0) by (nonlinear_arith)
        requires
            order > 0,
    ;
}

/// Adding two arithmetic registers stores their sum, cut to the register's width, in the
/// second of them and sets the status to whether there was a sum; an unset operand stores
/// nothing. On unsigned flags the sum is stored as it came. No other register changes.
pub proof fn law_add_stores_sum(
    m: RegsModel,
    f: IntFlags,
    reg: RegA,
    src: Reg32,
    dst: Reg32,
    other: RegAR,
    oidx: Reg32,
)
    requires
        regs_wf(m),
    ensures
        ({
            let after = arith_step(ArithmeticOp::AddA(f, reg, src, dst), m);
            let sum = match (num(m, RegAR::A(reg), src), num(m, RegAR::A(reg), dst)) {
                (Some(x), Some(y)) => spec_int_add(x, y, f),
                _ => None,
            };
            &&& num(after, RegAR::A(reg), dst) == stored(sum, RegAR::A(reg))
            &&& after.st0 == sum is Some
            &&& !f.signed ==> num(after, RegAR::A(reg), dst) == sum
            &&& (other != RegAR::A(reg) || oidx != dst) ==> num(after, other, oidx) == num(m, other, oidx)
        }),
{
    lemma_arith_stored(m, ArithmeticOp::AddA(f, reg, src, dst), other, oidx);
}

/// Subtracting one arithmetic register from another stores the difference, cut to the
/// register's width, in the second of them and sets the status to whether there was a
/// difference; an unset operand stores nothing. On unsigned flags the difference is stored as
/// it came. No other register changes.
pub proof fn law_sub_stores_difference(
    m: RegsModel,
    f: IntFlags,
    reg: RegA,
    src: Reg32,
    dst: Reg32,
    other: RegAR,
    oidx: Reg32,
)
    requires
        regs_wf(m),
    ensures
        ({
            let after = arith_step(ArithmeticOp::SubA(f, reg, src, dst), m);
            let diff = match (num(m, RegAR::A(reg), src), num(m, RegAR::A(reg), dst)) {
                (Some(x), Some(y)) => spec_int_sub(x, y, f),
                _ => None,
            };
            &&& num(after, RegAR::A(reg), dst) == stored(diff, RegAR::A(reg))
            &&& after.st0 == diff is Some
            &&& !f.signed ==> num(after, RegAR::A(reg), dst) == diff
            &&& (other != RegAR::A(reg) || oidx != dst) ==> num(after, other, oidx) == num(m, other, oidx)
        }),
{
    lemma_arith_stored(m, ArithmeticOp::SubA(f, reg, src, dst), other, oidx);
}

/// What an addition or subtraction of arithmetic registers stores, and that nothing else
/// changes.
proof fn lemma_arith_stored(m: RegsModel, op: ArithmeticOp, other: RegAR, oidx: Reg32)
    requires
        regs_wf(m),
        op is AddA || op is SubA,
    ensures
        ({
            let (reg, dst, res) = crate::exec_alu::arith_result(op, m);
            let after = arith_step(op, m);
            &&& num(after, RegAR::A(reg), dst) == stored(res, RegAR::A(reg))
            &&& after.st0 == res is Some
            &&& (op matches ArithmeticOp::AddA(f, ..) && !f.signed) ==> num(after, RegAR::A(reg), dst) == res
            &&& (op matches ArithmeticOp::SubA(f, ..) && !f.signed) ==> num(after, RegAR::A(reg), dst) == res
            &&& (other != RegAR::A(reg) || oidx != dst) ==> num(after, other, oidx) == num(m, other, oidx)
        }),
{
    let (reg, dst, res) = crate::exec_alu::arith_result(op, m);
    let r = RegAR::A(reg);
    let w = with_num(m, r, dst, stored(res, r));
    law_register_read_after_write(m, r, dst, stored(res, r), other, oidx);
    assert(num(arith_step(op, m), other, oidx) == num(w, other, oidx));
    assert(num(arith_step(op, m), r, dst) == num(w, r, dst));
    match op {
        ArithmeticOp::AddA(f, _, src, _) | ArithmeticOp::SubA(f, _, src, _) => {
            lemma_reg32_position(src);
            lemma_reg32_position(dst);
            let ks = slot(r, src);
            let kd = slot(r, dst);
            assert(ks / 32 == reg.spec_block());
            assert(kd / 32 == reg.spec_block());
            assert(a_width(reg.spec_block() as int) == reg.spec_bytes());
            assert(crate::regs::slot_ok(m.a[ks], a_width(ks / 32)));
            assert(crate::regs::slot_ok(m.a[kd], a_width(kd / 32)));
            if !f.signed {
                match res {
                    Some(v) => {
                        assert(v.layout == r.spec_layout());
                    },
                    None => {},
                }
            }
        },
        _ => {},
    }
}

/// Three bit fields packed into a byte, one, three and four bits, are found again.
proof fn lemma_one_three_four(a: u8, b: u8, c: u8)
    requires
        a < 2,
        b < 8,
        c < 16,
    ensures
        bits_at(((0u8 | (a << 0u8)) | (b << 1u8)) | (c << 4u8), 0, 1) == a,
        bits_at(((0u8 | (a << 0u8)) | (b << 1u8)) | (c << 4u8), 1, 3) == b,
        bits_at(((0u8 | (a << 0u8)) | (b << 1u8)) | (c << 4u8), 4, 4) == c,
        bits_at(0u8 | (a << 0u8), 1, 3) == 0,
        bits_at((0u8 | (a << 0u8)) | (b << 1u8), 4, 4) == 0,
        bits_at(0u8, 0, 1) == 0,
{
    assert(bits_at(((0u8 | (a << 0u8)) | (b << 1u8)) | (c << 4u8), 0, 1) == a && bits_at(
        ((0u8 | (a << 0u8)) | (b << 1u8)) | (c << 4u8),
        1,
        3,
    ) == b && bits_at(((0u8 | (a << 0u8)) | (b << 1u8)) | (c << 4u8), 4, 4) == c && bits_at(
        0u8 | (a << 0u8),
        1,
        3,
    ) == 0 && bits_at((0u8 | (a << 0u8)) | (b << 1u8), 4, 4) == 0 && bits_at(0u8, 0, 1) == 0)
        by (bit_vector)
        requires
            a < 2,
            b < 8,
            c < 16,
    ;
}

/// Reading two lists of fields one after the other is reading the joined list.
proof fn lemma_reads_split(m: CursorModel, a: Seq<crate::fields::Kind>, b: Seq<crate::fields::Kind>)
    ensures
        crate::fields::reads_step(m, a + b) == (match crate::fields::reads_step(m, a) {
            (m1, Ok(va)) => match crate::fields::reads_step(m1, b) {
                (m2, Ok(vb)) => (m2, Ok(va + vb)),
                (m2, Err(e)) => (m2, Err(e)),
            },
            (m1, Err(e)) => (m1, Err(e)),
        }),
    decreases b.len(),
{
    if b.len() == 0 {
        assert(a + b =~= a);
        match crate::fields::reads_step(m, a) {
            (m1, Ok(va)) => {
                assert(va + Seq::<u16>::empty() =~= va);
            },
            _ => {},
        }
    } else {
        lemma_reads_split(m, a, b.drop_last());
        assert((a + b).drop_last() =~= a + b.drop_last());
        assert((a + b).last() == b.last());
        match crate::fields::reads_step(m, a) {
            (m1, Ok(va)) => match crate::fields::reads_step(m1, b.drop_last()) {
                (m2, Ok(vb)) => match crate::fields::read_field_step(m2, b.last()) {
                    (m3, Ok(v)) => {
                        assert((va + vb).push(v) =~= va + vb.push(v));
                    },
                    _ => {},
                },
                _ => {},
            },
            _ => {},
        }
    }
}

/// Writing a code byte and five bit fields of one, three, four, three and five bits over zero
/// bytes, then reading from the same position the code and fields of those shapes, gives them
/// back.
proof fn lemma_lead_five_read_back(m: CursorModel, code: u8, f: u8, x: u8, y: u8, z: u8, w: u8)
    requires
        !m.eof,
        m.bit_pos == 0,
        m.byte_pos + 3 <= m.bytes.len(),
        m.byte_pos + 3 <= u16::MAX,
        m.bytes[m.byte_pos + 1] == 0,
        m.bytes[m.byte_pos + 2] == 0,
        f < 2,
        x < 8,
        y < 16,
        z < 8,
        w < 32,
    ensures
        ({
            let fs = seq![crate::fields::Field::Bits(f, 1), crate::fields::Field::Bits(x, 3), crate::fields::Field::Bits(y, 4), crate::fields::Field::Bits(z, 3), crate::fields::Field::Bits(w, 5)];
            let ks = seq![crate::fields::Kind::Bits(1), crate::fields::Kind::Bits(3), crate::fields::Kind::Bits(4), crate::fields::Kind::Bits(3), crate::fields::Kind::Bits(5)];
            let ws = crate::op_codes::code_then_fields(m, code, fs);
            let (m1, r1) = crate::cursor::read_u8_step(rewound(ws.0, m));
            &&& ws.1 is Ok
            &&& r1 == Ok::<u8, crate::codec::CursorError>(code)
            &&& crate::fields::reads_step(m1, ks) == (ws.0, Ok::<Seq<u16>, crate::codec::CursorError>(seq![f as u16, x as u16, y as u16, z as u16, w as u16]))
        }),
{
    reveal_with_fuel(crate::fields::fields_step, 6);
    reveal_with_fuel(crate::fields::reads_step, 6);
    let fs = seq![crate::fields::Field::Bits(f, 1), crate::fields::Field::Bits(x, 3), crate::fields::Field::Bits(y, 4), crate::fields::Field::Bits(z, 3), crate::fields::Field::Bits(w, 5)];
    assert(fs.drop_last() =~= seq![crate::fields::Field::Bits(f, 1), crate::fields::Field::Bits(x, 3), crate::fields::Field::Bits(y, 4), crate::fields::Field::Bits(z, 3)]);
    assert(fs.drop_last().drop_last() =~= seq![crate::fields::Field::Bits(f, 1), crate::fields::Field::Bits(x, 3), crate::fields::Field::Bits(y, 4)]);
    assert(fs.drop_last().drop_last().drop_last() =~= seq![crate::fields::Field::Bits(f, 1), crate::fields::Field::Bits(x, 3)]);
    assert(fs.drop_last().drop_last().drop_last().drop_last() =~= seq![crate::fields::Field::Bits(f, 1)]);
    assert(fs.drop_last().drop_last().drop_last().drop_last().drop_last() =~= Seq::<crate::fields::Field>::empty());
    let ks = seq![crate::fields::Kind::Bits(1), crate::fields::Kind::Bits(3), crate::fields::Kind::Bits(4), crate::fields::Kind::Bits(3), crate::fields::Kind::Bits(5)];
    assert(ks.drop_last() =~= seq![crate::fields::Kind::Bits(1), crate::fields::Kind::Bits(3), crate::fields::Kind::Bits(4), crate::fields::Kind::Bits(3)]);
    assert(ks.drop_last().drop_last() =~= seq![crate::fields::Kind::Bits(1), crate::fields::Kind::Bits(3), crate::fields::Kind::Bits(4)]);
    assert(ks.drop_last().drop_last().drop_last() =~= seq![crate::fields::Kind::Bits(1), crate::fields::Kind::Bits(3)]);
    assert(ks.drop_last().drop_last().drop_last().drop_last() =~= seq![crate::fields::Kind::Bits(1)]);
    assert(ks.drop_last().drop_last().drop_last().drop_last().drop_last() =~= Seq::<crate::fields::Kind>::empty());
    lemma_one_three_four(f, x, y);
    lemma_three_five(z, w);
    assert(seq![f as u16].push(x as u16).push(y as u16).push(z as u16).push(w as u16) =~= seq![f as u16, x as u16, y as u16, z as u16, w as u16]);
    assert(Seq::<u16>::empty().push(f as u16) =~= seq![f as u16]);
}

/// As [`lemma_lead_five_read_back`], with the first bit read on its own.
proof fn lemma_lead_read_back(m: CursorModel, code: u8, f: u8, x: u8, y: u8, z: u8, w: u8)
    requires
        !m.eof,
        m.bit_pos == 0,
        m.byte_pos + 3 <= m.bytes.len(),
        m.byte_pos + 3 <= u16::MAX,
        m.bytes[m.byte_pos + 1] == 0,
        m.bytes[m.byte_pos + 2] == 0,
        f < 2,
        x < 8,
        y < 16,
        z < 8,
        w < 32,
    ensures
        ({
            let fs = seq![crate::fields::Field::Bits(f, 1), crate::fields::Field::Bits(x, 3), crate::fields::Field::Bits(y, 4), crate::fields::Field::Bits(z, 3), crate::fields::Field::Bits(w, 5)];
            let ks = seq![crate::fields::Kind::Bits(3), crate::fields::Kind::Bits(4), crate::fields::Kind::Bits(3), crate::fields::Kind::Bits(5)];
            let ws = crate::op_codes::code_then_fields(m, code, fs);
            let (m1, r1) = crate::cursor::read_u8_step(rewound(ws.0, m));
            let (m2, r2) = crate::fields::reads_step(m1, seq![crate::fields::Kind::Bits(1)]);
            &&& ws.1 is Ok
            &&& r1 == Ok::<u8, crate::codec::CursorError>(code)
            &&& r2 == Ok::<Seq<u16>, crate::codec::CursorError>(seq![f as u16])
            &&& crate::fields::reads_step(m2, ks) == (ws.0, Ok::<Seq<u16>, crate::codec::CursorError>(seq![x as u16, y as u16, z as u16, w as u16]))
        }),
{
    lemma_lead_five_read_back(m, code, f, x, y, z, w);
    let fs = seq![crate::fields::Field::Bits(f, 1), crate::fields::Field::Bits(x, 3), crate::fields::Field::Bits(y, 4), crate::fields::Field::Bits(z, 3), crate::fields::Field::Bits(w, 5)];
    let lead = seq![crate::fields::Kind::Bits(1)];
    let ks = seq![crate::fields::Kind::Bits(3), crate::fields::Kind::Bits(4), crate::fields::Kind::Bits(3), crate::fields::Kind::Bits(5)];
    assert(lead + ks =~= seq![crate::fields::Kind::Bits(1), crate::fields::Kind::Bits(3), crate::fields::Kind::Bits(4), crate::fields::Kind::Bits(3), crate::fields::Kind::Bits(5)]);
    let ws = crate::op_codes::code_then_fields(m, code, fs);
    let m1 = crate::cursor::read_u8_step(rewound(ws.0, m)).0;
    lemma_reads_split(m1, lead, ks);
    let (m2, r2) = crate::fields::reads_step(m1, lead);
    crate::fields::lemma_reads_len(m1, lead);
    match r2 {
        Ok(va) => {
            crate::fields::lemma_reads_len(m2, ks);
            match crate::fields::reads_step(m2, ks) {
                (m3, Ok(vb)) => {
                    let all = seq![f as u16, x as u16, y as u16, z as u16, w as u16];
                    assert(va + vb == all);
                    assert(va =~= (va + vb).subrange(0, 1));
                    assert(vb =~= (va + vb).subrange(1, 5));
                    assert(all.subrange(0, 1) =~= seq![f as u16]);
                    assert(all.subrange(1, 5) =~= seq![x as u16, y as u16, z as u16, w as u16]);
                },
                _ => {},
            }
        },
        _ => {},
    }
}

/// The register codes of the first register of a general-purpose order comparison are found
/// again.
proof fn lemma_reg16_code(i: crate::reg::Reg16)
    ensures
        crate::op_codes::i16_code(i) < 16,
        crate::op_codes::i16_of(crate::op_codes::i16_code(i) as u16) == i,
{
}

/// Number of bytes of a comparison instruction.
pub open spec fn compare_len(op: crate::op_codes::CmpOp) -> int {
    if op is St2A || op is A2St { 1 } else if op is Len || op is Cnt { 2 } else { 3 }
}

/// A comparison written as bytecode over zero bytes is read back from where it was written,
/// and the read ends where the write did. The order comparisons of arithmetic registers are
/// left out: their five-bit fields cross a byte boundary, where the cursor keeps only the bits
/// that fit.
#[verifier::rlimit(40)]
pub proof fn law_compare_bytecode_read_back(op: crate::op_codes::CmpOp, m: CursorModel)
    requires
        !m.eof,
        m.bit_pos == 0,
        m.byte_pos + compare_len(op) <= m.bytes.len(),
        m.byte_pos + compare_len(op) <= u16::MAX,
        forall|i: int| m.byte_pos < i < m.byte_pos + compare_len(op) ==> m.bytes[i] == 0,
        !(op is GtA) && !(op is LtA),
    ensures
        crate::op_codes::compare_write_step(op, m).1 is Ok,
        crate::op_codes::compare_read_step(rewound(crate::op_codes::compare_write_step(op, m).0, m)) == (
        crate::op_codes::compare_write_step(op, m).0, Ok::<crate::op_codes::CmpOp, crate::codec::CursorError>(op)),
{
    let p = m.byte_pos as int;
    let code = crate::op_codes::compare_code(op);
    match op {
        crate::op_codes::CmpOp::GtR(r1, i, r2, j) | crate::op_codes::CmpOp::LtR(r1, i, r2, j) => {
            assert(m.bytes[p + 1] == 0);
            assert(m.bytes[p + 2] == 0);
            lemma_block_codes(crate::reg::RegA::A8, r1, j, crate::op_types::NumType::Unsigned);
            lemma_block_codes(crate::reg::RegA::A8, r2, j, crate::op_types::NumType::Unsigned);
            lemma_reg16_code(i);
            lemma_lead_read_back(m, code, 1, r_code(r1), crate::op_codes::i16_code(i), r_code(r2), i_code(j));
            assert(crate::op_codes::compare_of(code, true, seq![r_code(r1) as u16, crate::op_codes::i16_code(i) as u16, r_code(r2) as u16, i_code(j) as u16]) == op);
        },
        crate::op_codes::CmpOp::EqA(a, i, b, j) => {
            assert(m.bytes[p + 1] == 0);
            assert(m.bytes[p + 2] == 0);
            lemma_block_codes(a, crate::reg::RegR::R128, i, crate::op_types::NumType::Unsigned);
            lemma_block_codes(b, crate::reg::RegR::R128, j, crate::op_types::NumType::Unsigned);
            lemma_quad_read_back(m, code, a_code(a), i_code(i), a_code(b), i_code(j));
            assert(crate::op_codes::compare_of(code, false, seq![a_code(a) as u16, i_code(i) as u16, a_code(b) as u16, i_code(j) as u16]) == op);
        },
        crate::op_codes::CmpOp::EqR(a, i, b, j) => {
            assert(m.bytes[p + 1] == 0);
            assert(m.bytes[p + 2] == 0);
            lemma_block_codes(crate::reg::RegA::A8, a, i, crate::op_types::NumType::Unsigned);
            lemma_block_codes(crate::reg::RegA::A8, b, j, crate::op_types::NumType::Unsigned);
            lemma_quad_read_back(m, code, r_code(a), i_code(i), r_code(b), i_code(j));
            assert(crate::op_codes::compare_of(code, false, seq![r_code(a) as u16, i_code(i) as u16, r_code(b) as u16, i_code(j) as u16]) == op);
        },
        crate::op_codes::CmpOp::Len(a, i) | crate::op_codes::CmpOp::Cnt(a, i) => {
            assert(m.bytes[p + 1] == 0);
            lemma_block_codes(a, crate::reg::RegR::R128, i, crate::op_types::NumType::Unsigned);
            lemma_two_read_back(m, code, a_code(a), i_code(i), 3);
            assert(crate::op_codes::compare_of(code, false, seq![a_code(a) as u16, i_code(i) as u16]) == op);
        },
        _ => {
            reveal_with_fuel(crate::fields::fields_step, 1);
            reveal_with_fuel(crate::fields::reads_step, 1);
            let w = crate::op_codes::compare_write_step(op, m).0;
            assert(w.bytes[p] == code);
        },
    }
}

/// The value of a single byte is the byte.
proof fn lemma_le_val_single(b: Seq<u8>)
    requires
        b.len() == 1,
    ensures
        crate::num::le_val(b) == b[0],
{
    let e = b.drop_last();
    assert(e =~= Seq::<u8>::empty());
    assert(crate::num::le_val(e) == 0);
    assert(crate::num::pow256(0) == 1);
    assert(b.last() == b[0]);
    assert(crate::num::le_val(b) == crate::num::le_val(e) + (b.last() as nat) * crate::num::pow256(0));
}

/// Bytes of two values whose bits do not meet, the first a multiple of `2^e` and the second
/// below `2^e`, combined by OR in either order: the value is their sum.
#[verifier::spinoff_prover]
#[verifier::rlimit(40)]
proof fn lemma_or_disjoint(s: Seq<u8>, t: Seq<u8>, e: nat)
    requires
        s.len() == t.len(),
        crate::num::le_val(s) % pow2(e) == 0,
        crate::num::le_val(t) < pow2(e),
    ensures
        crate::num::le_val(Seq::new(s.len(), |i: int| s[i] | t[i])) == crate::num::le_val(s) + crate::num::le_val(t),
        crate::num::le_val(Seq::new(s.len(), |i: int| t[i] | s[i])) == crate::num::le_val(s) + crate::num::le_val(t),
    decreases s.len(),
{
    let n = s.len();
    let o = Seq::new(n, |i: int| s[i] | t[i]);
    assert forall|i: int| 0 <= i < n implies #[trigger] (t[i] | s[i]) == s[i] | t[i] by {
        let a = s[i];
        let b = t[i];
        assert(b | a == a | b) by (bit_vector);
    }
    assert(Seq::new(n, |i: int| t[i] | s[i]) =~= o);
    if n == 0 {
        return;
    }
    reveal_with_fuel(crate::num::le_val, 2);
    reveal_with_fuel(crate::num::pow256, 2);
    let s1 = s.subrange(1, n as int);
    let t1 = t.subrange(1, n as int);
    let o1 = Seq::new((n - 1) as nat, |i: int| s1[i] | t1[i]);
    assert(o.subrange(1, n as int) =~= o1);
    crate::num::lemma_le_val_prefix(s, 1);
    crate::num::lemma_le_val_prefix(t, 1);
    crate::num::lemma_le_val_prefix(o, 1);
    assert(s.subrange(0, 1).drop_last() =~= Seq::<u8>::empty());
    assert(t.subrange(0, 1).drop_last() =~= Seq::<u8>::empty());
    assert(o.subrange(0, 1).drop_last() =~= Seq::<u8>::empty());
    let s0 = s[0];
    let t0 = t[0];
    assert(crate::num::pow256(0) == 1 && crate::num::pow256(1) == 256);
    assert(crate::num::le_val(Seq::<u8>::empty()) == 0);
    assert(s.subrange(0, 1).last() == s0);
    assert(t.subrange(0, 1).last() == t0);
    assert(o.subrange(0, 1).last() == s0 | t0);
    lemma_le_val_single(s.subrange(0, 1));
    lemma_le_val_single(t.subrange(0, 1));
    lemma_le_val_single(o.subrange(0, 1));
    let vs = crate::num::le_val(s);
    let vt = crate::num::le_val(t);
    let sv1 = crate::num::le_val(s1);
    let tv1 = crate::num::le_val(t1);
    assert(vs == s0 + 256 * sv1);
    assert(vt == t0 + 256 * tv1);
    assert(crate::num::le_val(o) == (s0 | t0) + 256 * crate::num::le_val(o1));
    vstd::arithmetic::power2::lemma2_to64();
    if e >= 8 {
        let e8 = (e - 8) as nat;
        vstd::arithmetic::power2::lemma_pow2_adds(8, e8);
        assert(8 + e8 == e);
        let pp = pow2(e8);
        vstd::arithmetic::power2::lemma_pow2_pos(e8);
        assert(pow2(e) == 256 * pp);
        vstd::arithmetic::div_mod::lemma_fundamental_div_mod(vs as int, pow2(e) as int);
        let q = vs as int / pow2(e) as int;
        let k = pp * q;
        assert(pow2(e) * q == 256 * k) by (nonlinear_arith)
            requires
                pow2(e) == 256 * pp,
                k == pp * q,
        ;
        assert(s0 + 256 * sv1 == 256 * k);
        assert(s0 == 0 && sv1 == k);
        vstd::arithmetic::div_mod::lemma_mod_multiples_basic(q, pp as int);
        assert(q * pp == k) by (nonlinear_arith)
            requires
                k == pp * q,
        ;
        assert(sv1 % pp == 0);
        assert(tv1 < pp);
        lemma_or_disjoint(s1, t1, e8);
        assert(0u8 | t0 == t0) by (bit_vector);
    } else {
        vstd::arithmetic::power2::lemma_pow2_strictly_increases(e, 8);
        let pe = pow2(e);
        let r = pow2((8 - e) as nat);
        vstd::arithmetic::power2::lemma_pow2_adds(e, (8 - e) as nat);
        assert(e + (8 - e) as nat == 8);
        assert(pe * r == 256);
        vstd::arithmetic::power2::lemma_pow2_pos(e);
        assert(tv1 == 0 && t0 < pe);
        assert(pe * (r * sv1) == 256 * sv1) by (nonlinear_arith)
            requires
                pe * r == 256,
        ;
        vstd::arithmetic::div_mod::lemma_mod_multiples_vanish((r * sv1) as int, s0 as int, pe as int);
        assert((s0 as nat) % pe == 0);
        assert(pow2(0) == 1);
        lemma_or_disjoint(s1, t1, 0);
        let k = e as u8;
        vstd::bits::lemma_u8_shl_is_mul(1u8, k);
        assert(1u8 << k == pe);
        assert(s0 | t0 == s0 + t0) by (bit_vector)
            requires
                k < 8,
                s0 % (1u8 << k) == 0,
                t0 < (1u8 << k),
        ;
    }
}

/// Rotating a `b`-bit value left by `e` bits splits it into its top `e` bits and the rest and
/// swaps them; rotating the result right by `e` bits swaps them back.
proof fn lemma_rotate_values(x: nat, e: nat, b: nat)
    requires
        e < b,
        x < pow2(b),
    ensures
        ({
            let p = pow2(e);
            let q = pow2((b - e) as nat);
            let y = (x * p) % pow2(b) + x / q;
            &&& ((x * p) % pow2(b)) % p == 0
            &&& x / q < p
            &&& y < pow2(b)
            &&& y / p < q
            &&& ((y * q) % pow2(b)) % q == 0
            &&& y / p + (y * q) % pow2(b) == x
        }),
{
    let p = pow2(e);
    let q = pow2((b - e) as nat);
    vstd::arithmetic::power2::lemma_pow2_pos(e);
    vstd::arithmetic::power2::lemma_pow2_pos((b - e) as nat);
    vstd::arithmetic::power2::lemma_pow2_adds(e, (b - e) as nat);
    assert(e + (b - e) as nat == b);
    let pq = pow2(b);
    assert(pq == p * q);
    let hi = x / q;
    let lo = x % q;
    vstd::arithmetic::div_mod::lemma_fundamental_div_mod(x as int, q as int);
    assert(x == q * hi + lo);
    assert(lo < q);
    assert(hi < p) by (nonlinear_arith)
        requires
            x == q * hi + lo,
            x < p * q,
            0 <= lo,
            q > 0,
            hi >= 0,
    ;
    // the left rotation
    assert(x * p == pq * hi + lo * p) by (nonlinear_arith)
        requires
            x == q * hi + lo,
            pq == p * q,
    ;
    assert(lo * p < pq) by (nonlinear_arith)
        requires
            lo < q,
            pq == p * q,
            p > 0,
    ;
    vstd::arithmetic::div_mod::lemma_mod_multiples_vanish(hi as int, (lo * p) as int, pq as int);
    vstd::arithmetic::div_mod::lemma_small_mod((lo * p) as nat, pq);
    assert((x * p) % pq == lo * p);
    vstd::arithmetic::div_mod::lemma_mod_multiples_basic(lo as int, p as int);
    let y = lo * p + hi;
    assert(y < pq) by (nonlinear_arith)
        requires
            y == lo * p + hi,
            lo < q,
            hi < p,
            pq == p * q,
    ;
    // the right rotation
    vstd::arithmetic::div_mod::lemma_fundamental_div_mod_converse_div(y as int, p as int, lo as int, hi as int);
    assert(y / p == lo);
    assert(y * q == pq * lo + hi * q) by (nonlinear_arith)
        requires
            y == lo * p + hi,
            pq == p * q,
    ;
    assert(hi * q < pq) by (nonlinear_arith)
        requires
            hi < p,
            pq == p * q,
            q > 0,
    ;
    vstd::arithmetic::div_mod::lemma_mod_multiples_vanish(lo as int, (hi * q) as int, pq as int);
    vstd::arithmetic::div_mod::lemma_small_mod((hi * q) as nat, pq);
    assert((y * q) % pq == hi * q);
    vstd::arithmetic::div_mod::lemma_mod_multiples_basic(hi as int, q as int);
    assert(q * hi == hi * q) by (nonlinear_arith);
}

/// Rotating a value left by `e` bits, then right by `e` bits, within its width, gives it back.
proof fn lemma_rotate_back(v: NumberModel, e: nat)
    requires
        e < 8 * v.bytes.len(),
    ensures
        ({
            let bits = 8 * v.bytes.len();
            let l = crate::exec_alu::or_model(crate::bitwise::spec_shl(v, e), crate::exec_alu::wide_shr(v, (bits - e) as nat));
            &&& l.layout == v.layout
            &&& l.bytes.len() == v.bytes.len()
            &&& crate::exec_alu::or_model(crate::exec_alu::wide_shr(l, e), crate::bitwise::spec_shl(l, (bits - e) as nat)) == v
        }),
{
    let n = v.bytes.len();
    let bits = 8 * n;
    let x = crate::num::le_val(v.bytes);
    crate::num::lemma_le_val_bound(v.bytes);
    crate::num::lemma_pow2_pow256(n);
    assert(pow2(bits) == crate::num::pow256(n));
    lemma_rotate_values(x, e, bits);
    let p = pow2(e);
    let q = pow2((bits - e) as nat);
    vstd::arithmetic::power2::lemma_pow2_strictly_increases(e, bits);
    if e > 0 {
        vstd::arithmetic::power2::lemma_pow2_strictly_increases((bits - e) as nat, bits);
    }
    vstd::arithmetic::power2::lemma_pow2_pos(bits);
    let sh = crate::bitwise::spec_shl(v, e);
    let wr = crate::exec_alu::wide_shr(v, (bits - e) as nat);
    crate::num::lemma_le_bytes_val((x * p) as int, n);
    crate::num::lemma_le_bytes_val((x / q) as int, n);
    vstd::arithmetic::div_mod::lemma_small_mod(x / q, pow2(bits));
    assert(crate::num::le_val(sh.bytes) == (x * p) % pow2(bits));
    assert(crate::num::le_val(wr.bytes) == x / q);
    lemma_or_disjoint(sh.bytes, wr.bytes, e);
    let l = crate::exec_alu::or_model(sh, wr);
    let y = (x * p) % pow2(bits) + x / q;
    assert(crate::num::le_val(l.bytes) == y);
    let r1 = crate::exec_alu::wide_shr(l, e);
    let r2 = crate::bitwise::spec_shl(l, (bits - e) as nat);
    crate::num::lemma_le_bytes_val((y / p) as int, n);
    crate::num::lemma_le_bytes_val((y * q) as int, n);
    vstd::arithmetic::div_mod::lemma_small_mod(y / p, pow2(bits));
    assert(crate::num::le_val(r1.bytes) == y / p);
    assert(crate::num::le_val(r2.bytes) == (y * q) % pow2(bits));
    lemma_or_disjoint(r2.bytes, r1.bytes, (bits - e) as nat);
    let back = crate::exec_alu::or_model(r1, r2);
    assert(back.bytes =~= Seq::new(n, |i: int| r1.bytes[i] | r2.bytes[i]));
    assert(crate::num::le_val(back.bytes) == x);
    crate::num::lemma_le_val_inj(back.bytes, v.bytes);
}

/// Rotating a general-purpose register left by the amount an `a8` or `a16` register holds,
/// then right by the same register, gives the register back, as it was; no other register
/// changes.
pub proof fn law_rotate_left_then_right(
    m: RegsModel,
    r1: crate::reg::RegA2,
    sh: Reg32,
    r: RegR,
    sd: Reg32,
    other: RegAR,
    oidx: Reg32,
)
    requires
        regs_wf(m),
    ensures
        ({
            let after = bitwise_step(
                BitwiseOp::Scr(r1, sh, RegAR::R(r), sd),
                bitwise_step(BitwiseOp::Scl(r1, sh, RegAR::R(r), sd), m),
            );
            &&& num(after, RegAR::R(r), sd) == num(m, RegAR::R(r), sd)
            &&& num(after, other, oidx) == num(m, other, oidx)
        }),
{
    let rr = RegAR::R(r);
    let a = RegAR::A(r1.spec_reg());
    let m1 = bitwise_step(BitwiseOp::Scl(r1, sh, rr, sd), m);
    let bits = 8 * r.spec_bytes();
    match num(m, rr, sd) {
        Some(v) => {
            lemma_reg32_position(sd);
            let k = slot(rr, sd);
            assert(k / 32 == r.spec_block());
            assert(r_width(r.spec_block() as int) == r.spec_bytes());
            assert(crate::regs::slot_ok(m.r[k], r_width(k / 32)));
            assert(v.bytes.len() == r.spec_bytes());
            let e = crate::exec_alu::shift_of(num(m, a, sh)) % (bits as nat);
            let l = crate::exec_alu::or_model(crate::bitwise::spec_shl(v, e), crate::exec_alu::wide_shr(v, (bits - e) as nat));
            let n0 = RegsModel { st0: crate::exec_alu::msb_set(v), ..m };
            assert(m1 == with_num(n0, rr, sd, Some(l)));
            law_register_read_after_write(n0, rr, sd, Some(l), a, sh);
            law_register_read_after_write(n0, rr, sd, Some(l), other, oidx);
            assert(num(m1, a, sh) == num(m, a, sh));
            assert(num(m1, rr, sd) == Some(l));
            lemma_rotate_back(v, e);
            let n1 = RegsModel { st0: crate::exec_alu::lsb_set(l), ..m1 };
            let back = crate::exec_alu::or_model(crate::exec_alu::wide_shr(l, e), crate::bitwise::spec_shl(l, (bits - e) as nat));
            assert(back == v);
            assert(crate::regs::slot_ok(Some(l), r_width(k / 32)));
            assert forall|j: int| 0 <= j < 256 implies #[trigger] crate::regs::slot_ok(n1.r[j], r_width(j / 32)) by {
                if j != k {
                    assert(n1.r[j] == m.r[j]);
                }
            }
            assert(regs_wf(n1));
            law_register_read_after_write(n1, rr, sd, Some(back), other, oidx);
            law_register_read_after_write(n1, rr, sd, Some(back), rr, sd);
        },
        None => {},
    }
}

/// Writing a code byte and 1 whole-byte or word fields, then reading the code and fields of
/// those shapes from the same position, gives them back.
proof fn lemma_byte1_read_back(m: CursorModel, code: u8, a: u8)
    requires
        !m.eof,
        m.bit_pos == 0,
        m.byte_pos + 2 <= m.bytes.len(),
        m.byte_pos + 2 <= u16::MAX,
    ensures
        ({
            let fs = seq![crate::fields::Field::Byte(a)];
            let ks = seq![crate::fields::Kind::Byte];
            let ws = crate::op_codes::code_then_fields(m, code, fs);
            let (m1, r1) = crate::cursor::read_u8_step(rewound(ws.0, m));
            &&& ws.1 is Ok
            &&& r1 == Ok::<u8, crate::codec::CursorError>(code)
            &&& crate::fields::reads_step(m1, ks) == (ws.0, Ok::<Seq<u16>, crate::codec::CursorError>(seq![a as u16]))
        }),
{
    reveal_with_fuel(crate::fields::fields_step, 2);
    reveal_with_fuel(crate::fields::reads_step, 2);
    let fs = seq![crate::fields::Field::Byte(a)];
    let ks = seq![crate::fields::Kind::Byte];
    assert(fs.drop_last() =~= Seq::<crate::fields::Field>::empty());
    assert(ks.drop_last() =~= Seq::<crate::fields::Kind>::empty());
    assert(Seq::<u16>::empty().push(a as u16) =~= seq![a as u16]);
}

/// Writing a code byte and 2 whole-byte or word fields, then reading the code and fields of
/// those shapes from the same position, gives them back.
proof fn lemma_byte2_read_back(m: CursorModel, code: u8, a: u8, b: u8)
    requires
        !m.eof,
        m.bit_pos == 0,
        m.byte_pos + 3 <= m.bytes.len(),
        m.byte_pos + 3 <= u16::MAX,
    ensures
        ({
            let fs = seq![crate::fields::Field::Byte(a), crate::fields::Field::Byte(b)];
            let ks = seq![crate::fields::Kind::Byte, crate::fields::Kind::Byte];
            let ws = crate::op_codes::code_then_fields(m, code, fs);
            let (m1, r1) = crate::cursor::read_u8_step(rewound(ws.0, m));
            &&& ws.1 is Ok
            &&& r1 == Ok::<u8, crate::codec::CursorError>(code)
            &&& crate::fields::reads_step(m1, ks) == (ws.0, Ok::<Seq<u16>, crate::codec::CursorError>(seq![a as u16, b as u16]))
        }),
{
    reveal_with_fuel(crate::fields::fields_step, 3);
    reveal_with_fuel(crate::fields::reads_step, 3);
    let fs = seq![crate::fields::Field::Byte(a), crate::fields::Field::Byte(b)];
    let ks = seq![crate::fields::Kind::Byte, crate::fields::Kind::Byte];
    assert(fs.drop_last() =~= seq![crate::fields::Field::Byte(a)]);
    assert(ks.drop_last() =~= seq![crate::fields::Kind::Byte]);
    assert(fs.drop_last().drop_last() =~= Seq::<crate::fields::Field>::empty());
    assert(ks.drop_last().drop_last() =~= Seq::<crate::fields::Kind>::empty());
    assert(Seq::<u16>::empty().push(a as u16).push(b as u16) =~= seq![a as u16, b as u16]);
    assert(Seq::<u16>::empty().push(a as u16) =~= seq![a as u16]);
}

/// Writing a code byte and 3 whole-byte or word fields, then reading the code and fields of
/// those shapes from the same position, gives them back.
proof fn lemma_byte3_read_back(m: CursorModel, code: u8, a: u8, b: u8, c: u8)
    requires
        !m.eof,
        m.bit_pos == 0,
        m.byte_pos + 4 <= m.bytes.len(),
        m.byte_pos + 4 <= u16::MAX,
    ensures
        ({
            let fs = seq![crate::fields::Field::Byte(a), crate::fields::Field::Byte(b), crate::fields::Field::Byte(c)];
            let ks = seq![crate::fields::Kind::Byte, crate::fields::Kind::Byte, crate::fields::Kind::Byte];
            let ws = crate::op_codes::code_then_fields(m, code, fs);
            let (m1, r1) = crate::cursor::read_u8_step(rewound(ws.0, m));
            &&& ws.1 is Ok
            &&& r1 == Ok::<u8, crate::codec::CursorError>(code)
            &&& crate::fields::reads_step(m1, ks) == (ws.0, Ok::<Seq<u16>, crate::codec::CursorError>(seq![a as u16, b as u16, c as u16]))
        }),
{
    reveal_with_fuel(crate::fields::fields_step, 4);
    reveal_with_fuel(crate::fields::reads_step, 4);
    let fs = seq![crate::fields::Field::Byte(a), crate::fields::Field::Byte(b), crate::fields::Field::Byte(c)];
    let ks = seq![crate::fields::Kind::Byte, crate::fields::Kind::Byte, crate::fields::Kind::Byte];
    assert(fs.drop_last() =~= seq![crate::fields::Field::Byte(a), crate::fields::Field::Byte(b)]);
    assert(ks.drop_last() =~= seq![crate::fields::Kind::Byte, crate::fields::Kind::Byte]);
    assert(fs.drop_last().drop_last() =~= seq![crate::fields::Field::Byte(a)]);
    assert(ks.drop_last().drop_last() =~= seq![crate::fields::Kind::Byte]);
    assert(fs.drop_last().drop_last().drop_last() =~= Seq::<crate::fields::Field>::empty());
    assert(ks.drop_last().drop_last().drop_last() =~= Seq::<crate::fields::Kind>::empty());
    assert(Seq::<u16>::empty().push(a as u16).push(b as u16).push(c as u16) =~= seq![a as u16, b as u16, c as u16]);
    assert(Seq::<u16>::empty().push(a as u16) =~= seq![a as u16]);
    assert(Seq::<u16>::empty().push(a as u16).push(b as u16) =~= seq![a as u16, b as u16]);
}

/// Writing a code byte and 4 whole-byte or word fields, then reading the code and fields of
/// those shapes from the same position, gives them back.
proof fn lemma_fill_read_back(m: CursorModel, code: u8, a: u8, w1: u16, w2: u16, b: u8)
    requires
        !m.eof,
        m.bit_pos == 0,
        m.byte_pos + 7 <= m.bytes.len(),
        m.byte_pos + 7 <= u16::MAX,
    ensures
        ({
            let fs = seq![crate::fields::Field::Byte(a), crate::fields::Field::Word(w1), crate::fields::Field::Word(w2), crate::fields::Field::Byte(b)];
            let ks = seq![crate::fields::Kind::Byte, crate::fields::Kind::Word, crate::fields::Kind::Word, crate::fields::Kind::Byte];
            let ws = crate::op_codes::code_then_fields(m, code, fs);
            let (m1, r1) = crate::cursor::read_u8_step(rewound(ws.0, m));
            &&& ws.1 is Ok
            &&& r1 == Ok::<u8, crate::codec::CursorError>(code)
            &&& crate::fields::reads_step(m1, ks) == (ws.0, Ok::<Seq<u16>, crate::codec::CursorError>(seq![a as u16, w1, w2, b as u16]))
        }),
{
    reveal_with_fuel(crate::fields::fields_step, 5);
    reveal_with_fuel(crate::fields::reads_step, 5);
    let fs = seq![crate::fields::Field::Byte(a), crate::fields::Field::Word(w1), crate::fields::Field::Word(w2), crate::fields::Field::Byte(b)];
    let ks = seq![crate::fields::Kind::Byte, crate::fields::Kind::Word, crate::fields::Kind::Word, crate::fields::Kind::Byte];
    assert(fs.drop_last() =~= seq![crate::fields::Field::Byte(a), crate::fields::Field::Word(w1), crate::fields::Field::Word(w2)]);
    assert(ks.drop_last() =~= seq![crate::fields::Kind::Byte, crate::fields::Kind::Word, crate::fields::Kind::Word]);
    assert(fs.drop_last().drop_last() =~= seq![crate::fields::Field::Byte(a), crate::fields::Field::Word(w1)]);
    assert(ks.drop_last().drop_last() =~= seq![crate::fields::Kind::Byte, crate::fields::Kind::Word]);
    assert(fs.drop_last().drop_last().drop_last() =~= seq![crate::fields::Field::Byte(a)]);
    assert(ks.drop_last().drop_last().drop_last() =~= seq![crate::fields::Kind::Byte]);
    assert(fs.drop_last().drop_last().drop_last().drop_last() =~= Seq::<crate::fields::Field>::empty());
    assert(ks.drop_last().drop_last().drop_last().drop_last() =~= Seq::<crate::fields::Kind>::empty());
    assert(Seq::<u16>::empty().push(a as u16).push(w1).push(w2).push(b as u16) =~= seq![a as u16, w1, w2, b as u16]);
    assert(Seq::<u16>::empty().push(a as u16) =~= seq![a as u16]);
    assert(Seq::<u16>::empty().push(a as u16).push(w1) =~= seq![a as u16, w1]);
    assert(Seq::<u16>::empty().push(a as u16).push(w1).push(w2) =~= seq![a as u16, w1, w2]);
}

/// Writing a code byte and 4 whole-byte or word fields, then reading the code and fields of
/// those shapes from the same position, gives them back.
proof fn lemma_split_read_back(m: CursorModel, code: u8, a: u8, w: u16, b: u8, c: u8)
    requires
        !m.eof,
        m.bit_pos == 0,
        m.byte_pos + 6 <= m.bytes.len(),
        m.byte_pos + 6 <= u16::MAX,
    ensures
        ({
            let fs = seq![crate::fields::Field::Byte(a), crate::fields::Field::Word(w), crate::fields::Field::Byte(b), crate::fields::Field::Byte(c)];
            let ks = seq![crate::fields::Kind::Byte, crate::fields::Kind::Word, crate::fields::Kind::Byte, crate::fields::Kind::Byte];
            let ws = crate::op_codes::code_then_fields(m, code, fs);
            let (m1, r1) = crate::cursor::read_u8_step(rewound(ws.0, m));
            &&& ws.1 is Ok
            &&& r1 == Ok::<u8, crate::codec::CursorError>(code)
            &&& crate::fields::reads_step(m1, ks) == (ws.0, Ok::<Seq<u16>, crate::codec::CursorError>(seq![a as u16, w, b as u16, c as u16]))
        }),
{
    reveal_with_fuel(crate::fields::fields_step, 5);
    reveal_with_fuel(crate::fields::reads_step, 5);
    let fs = seq![crate::fields::Field::Byte(a), crate::fields::Field::Word(w), crate::fields::Field::Byte(b), crate::fields::Field::Byte(c)];
    let ks = seq![crate::fields::Kind::Byte, crate::fields::Kind::Word, crate::fields::Kind::Byte, crate::fields::Kind::Byte];
    assert(fs.drop_last() =~= seq![crate::fields::Field::Byte(a), crate::fields::Field::Word(w), crate::fields::Field::Byte(b)]);
    assert(ks.drop_last() =~= seq![crate::fields::Kind::Byte, crate::fields::Kind::Word, crate::fields::Kind::Byte]);
    assert(fs.drop_last().drop_last() =~= seq![crate::fields::Field::Byte(a), crate::fields::Field::Word(w)]);
    assert(ks.drop_last().drop_last() =~= seq![crate::fields::Kind::Byte, crate::fields::Kind::Word]);
    assert(fs.drop_last().drop_last().drop_last() =~= seq![crate::fields::Field::Byte(a)]);
    assert(ks.drop_last().drop_last().drop_last() =~= seq![crate::fields::Kind::Byte]);
    assert(fs.drop_last().drop_last().drop_last().drop_last() =~= Seq::<crate::fields::Field>::empty());
    assert(ks.drop_last().drop_last().drop_last().drop_last() =~= Seq::<crate::fields::Kind>::empty());
    assert(Seq::<u16>::empty().push(a as u16).push(w).push(b as u16).push(c as u16) =~= seq![a as u16, w, b as u16, c as u16]);
    assert(Seq::<u16>::empty().push(a as u16) =~= seq![a as u16]);
    assert(Seq::<u16>::empty().push(a as u16).push(w) =~= seq![a as u16, w]);
    assert(Seq::<u16>::empty().push(a as u16).push(w).push(b as u16) =~= seq![a as u16, w, b as u16]);
}

/// Number of bytes of a byte string instruction whose arguments are whole bytes and words.
pub open spec fn bytes_len(op: crate::op_codes::BytesOp) -> int {
    match op {
        crate::op_codes::BytesOp::LenS(..) => 2,
        crate::op_codes::BytesOp::Join(..) => 4,
        crate::op_codes::BytesOp::Split(..) => 6,
        crate::op_codes::BytesOp::Fill(..) => 7,
        _ => 3,
    }
}

/// A byte string instruction whose arguments are whole bytes and words, written as bytecode,
/// is read back from where it was written, and the read ends where the write did. Left out
/// are `put`, whose string is written as a slice; `extr` and `inj`, whose second five-bit
/// field crosses a byte boundary, where the cursor keeps only the bits that fit; `ins` and
/// `del`, each written with the other's code; and `transl`, whose destination is written as a
/// word and read as a byte.
pub proof fn law_bytes_bytecode_read_back(op: crate::op_codes::BytesOp, m: CursorModel)
    requires
        !m.eof,
        m.bit_pos == 0,
        m.byte_pos + bytes_len(op) <= m.bytes.len(),
        m.byte_pos + bytes_len(op) <= u16::MAX,
        op is Mov || op is Swp || op is Count || op is Cmp || op is Comm || op is Find
            || op is LenS || op is Join || op is Fill || op is Split,
    ensures
        crate::op_codes::bytes_write_step(op, m).1 is Ok,
        crate::op_codes::bytes_read_step(rewound(crate::op_codes::bytes_write_step(op, m).0, m)) == (
        crate::op_codes::bytes_write_step(op, m).0, Ok::<crate::op_codes::BytesRead, crate::codec::CursorError>(crate::op_codes::BytesRead::Op(op))),
{
    let code = crate::op_codes::bytes_code(op);
    match op {
        crate::op_codes::BytesOp::LenS(a) => {
            lemma_byte1_read_back(m, code, a);
            assert(crate::op_codes::bytes_of(code, seq![a as u16]) == op);
        },
        crate::op_codes::BytesOp::Mov(a, b) | crate::op_codes::BytesOp::Swp(a, b)
        | crate::op_codes::BytesOp::Count(a, b) | crate::op_codes::BytesOp::Cmp(a, b)
        | crate::op_codes::BytesOp::Comm(a, b) | crate::op_codes::BytesOp::Find(a, b) => {
            lemma_byte2_read_back(m, code, a, b);
            assert(crate::op_codes::bytes_of(code, seq![a as u16, b as u16]) == op);
        },
        crate::op_codes::BytesOp::Join(a, b, d) => {
            lemma_byte3_read_back(m, code, a, b, d);
            assert(crate::op_codes::bytes_of(code, seq![a as u16, b as u16, d as u16]) == op);
        },
        crate::op_codes::BytesOp::Fill(a, from, to, v) => {
            lemma_fill_read_back(m, code, a, from, to, v);
            assert(crate::op_codes::bytes_of(code, seq![a as u16, from, to, v as u16]) == op);
        },
        crate::op_codes::BytesOp::Split(a, p, d1, d2) => {
            lemma_split_read_back(m, code, a, p, d1, d2);
            assert(crate::op_codes::bytes_of(code, seq![a as u16, p, d1 as u16, d2 as u16]) == op);
        },
        _ => {},
    }
}

/// A `put` of a string into a string register, written as bytecode, is read back from where it
/// was written as the register and the string's bytes, and the read ends where the write did.
/// The offsets must stay in range as the cursor moves past the slice, which counts the two
/// length bytes once more.
pub proof fn law_bytes_put_read_back(r: u8, st: crate::bytestr::ByteStr, m: CursorModel)
    requires
        !m.eof,
        m.bit_pos == 0,
        m.byte_pos + 4 + crate::bytestr::content(st@).len() <= m.bytes.len(),
        m.byte_pos + 6 + crate::bytestr::content(st@).len() <= u16::MAX,
    ensures
        ({
            let op = crate::op_codes::BytesOp::Put(r, st);
            let w = crate::op_codes::bytes_write_step(op, m);
            &&& w.1 is Ok
            &&& crate::op_codes::bytes_read_step(rewound(w.0, m)) == (w.0, Ok::<crate::op_codes::BytesRead, crate::codec::CursorError>(
                crate::op_codes::BytesRead::Put(r, crate::bytestr::content(st@)),
            ))
        }),
{
    let data = crate::bytestr::content(st@);
    let op = crate::op_codes::BytesOp::Put(r, st);
    let code = crate::op_codes::bytes_code(op);
    let p = m.byte_pos as int;
    let m1 = crate::cursor::write_u8_step(m, code).0;
    let m2 = crate::cursor::write_u8_step(m1, r).0;
    assert(m2.byte_pos == p + 2 && m2.bit_pos == 0 && !m2.eof);
    law_cursor_slice_read_back(m2, data);
    let w = crate::op_codes::bytes_write_step(op, m);
    assert(w == write_slice_step(m2, data));
    assert(w.0.bytes[p] == code);
    assert(w.0.bytes[p + 1] == r);
    let rw = rewound(w.0, m);
    let (x1, c1) = crate::cursor::read_u8_step(rw);
    assert(c1 == Ok::<u8, crate::codec::CursorError>(code));
    assert(x1 == CursorModel { byte_pos: (p + 1) as u16, ..rw });
    let (x2, c2) = crate::cursor::read_u8_step(x1);
    assert(c2 == Ok::<u8, crate::codec::CursorError>(r));
    assert(x2 == rewound(w.0, m2));
    let len16 = data.len() as u16;
    let mm = CursorModel {
        bytes: m2.bytes.update(m2.byte_pos as int, (len16 % 256) as u8).update(m2.byte_pos + 1, (len16 / 256) as u8),
        ..m2
    };
    assert(!mm.eof && mm.byte_pos + 2 <= u16::MAX);
    assert(advance_bytes(mm, 2).1 is Ok);
    let w16 = write_u16_step(m2, len16);
    assert(w16 == advance_bytes(mm, 2));
    assert(w16.1 is Ok);
    assert(w.1 is Ok);
    assert(read_slice_step(x2) == (w.0, Ok::<Seq<u8>, crate::codec::CursorError>(data)));
    assert(code == crate::op_codes::INSTR_PUT);
}

} // verus!
