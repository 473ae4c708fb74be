//! Bitwise operations on numbers: masks, shifts, cyclic shifts and bit reversal.

use vstd::prelude::*;

use vstd::arithmetic::power2::pow2;

use crate::arithm::{extend_1024, i1024_of, u1024_of};
use crate::bigint::{
    i1024_checked_shl, i1024_checked_shr, top_fill, u1024_checked_shl, u1024_checked_shr,
};
use crate::layout::{IntLayout, Layout};
use crate::num::{
    le_bytes, le_val, lemma_cut_le_bytes, lemma_le_bytes_of_val, lemma_le_val_bound,
    lemma_le_val_prefix, lemma_pow256_pos, lemma_pow2_pow256, pow256,
};
use crate::number::{lemma_le_val_zero, model_wf, reshaped_model, Number, NumberModel};

verus! {

broadcast use crate::num::lemma_le_bytes_len;

/// Byte `i` of `s`, reading zeros beyond its end.
pub open spec fn byte_or_zero(s: Seq<u8>, i: int) -> u8 {
    if 0 <= i < s.len() {
        s[i]
    } else {
        0
    }
}

/// Unsigned integer layout of 1024 bits, which bitwise masks produce.
pub open spec fn u1024_layout() -> Layout {
    Layout::Integer(IntLayout { signed: false, bytes: 128 })
}

/// Kind of a bytewise mask operation.
#[derive(Clone, Copy, PartialEq, Eq, Structural, Debug)]
pub enum MaskOp {
    /// Bitwise AND.
    And,
    /// Bitwise OR.
    Or,
    /// Bitwise exclusive OR.
    Xor,
}

/// One byte of a mask operation.
pub open spec fn mask_byte(op: MaskOp, x: u8, y: u8) -> u8 {
    match op {
        MaskOp::And => x & y,
        MaskOp::Or => x | y,
        MaskOp::Xor => x ^ y,
    }
}

/// Result of a mask operation: both operands zero-extended to 1024 bits and combined bit by
/// bit, in the unsigned 1024-bit layout.
pub open spec fn mask_model(op: MaskOp, a: NumberModel, b: NumberModel) -> NumberModel {
    NumberModel {
        layout: u1024_layout(),
        bytes: Seq::new(
            128,
            |i: int| mask_byte(op, byte_or_zero(a.bytes, i), byte_or_zero(b.bytes, i)),
        ),
    }
}

/// Result of shifting `m` left by `e` bits: the bits leaving its width are dropped and the
/// layout is kept.
pub open spec fn spec_shl(m: NumberModel, e: nat) -> NumberModel {
    NumberModel { layout: m.layout, bytes: le_bytes((le_val(m.bytes) * pow2(e)) as int, m.bytes.len()) }
}

/// Value whose low bytes a right shift of `m` by `e` bits keeps. Unsigned numbers are divided
/// by `2^e`. Signed numbers are extended to 1024 bits, shifted with zero fill, and get the top
/// bit of the 1024-bit pattern set again when negative. Shifts of 1024 bits or more give zero.
pub open spec fn shr_raw(m: NumberModel, e: nat) -> nat {
    if e >= 1024 {
        0
    } else if m.layout.spec_is_signed_int() {
        top_fill(le_val(i1024_of(m)) / pow2(e), m.bytes.last() >= 0x80)
    } else {
        le_val(m.bytes) / pow2(e)
    }
}

/// Result of shifting `m` right by `e` bits, in the layout of `m` (see [`shr_raw`]).
pub open spec fn spec_shr(m: NumberModel, e: nat) -> NumberModel {
    NumberModel { layout: m.layout, bytes: le_bytes(shr_raw(m, e) as int, m.bytes.len()) }
}

/// Whether a number can be shifted: an integer of at most 1024 bits.
pub open spec fn shiftable(m: NumberModel) -> bool {
    model_wf(m) && m.layout is Integer && m.bytes.len() <= 128
}

/// Bytes of `m` read as unsigned.
pub open spec fn unsigned_of(m: NumberModel) -> NumberModel {
    NumberModel { layout: m.layout.spec_into_unsigned(), bytes: m.bytes }
}

/// Result of a cyclic left shift by `s` bits, taken modulo the width: the left shift and the
/// right shift by the remaining width of the unsigned reading, combined by OR.
pub open spec fn spec_scl(m: NumberModel, s: nat) -> NumberModel {
    let n = m.bytes.len();
    let e = s % (8 * n);
    let hi = spec_shl(unsigned_of(m), e).bytes;
    let lo = spec_shr(unsigned_of(m), (8 * n - e) as nat).bytes;
    NumberModel { layout: m.layout, bytes: Seq::new(n, |i: int| hi[i] | lo[i]) }
}

/// Result of a cyclic right shift by `s` bits, taken modulo the width.
pub open spec fn spec_scr(m: NumberModel, s: nat) -> NumberModel {
    let n = m.bytes.len();
    let e = s % (8 * n);
    let lo = spec_shr(unsigned_of(m), e).bytes;
    let hi = spec_shl(unsigned_of(m), (8 * n - e) as nat).bytes;
    NumberModel { layout: m.layout, bytes: Seq::new(n, |i: int| lo[i] | hi[i]) }
}

/// A byte with the order of its bits reversed.
pub open spec fn rev_byte(b: u8) -> u8 {
    ((b & 1) << 7u8) | ((b & 2) << 5u8) | ((b & 4) << 3u8) | ((b & 8) << 1u8) | ((b & 16) >> 1u8)
        | ((b & 32) >> 3u8) | ((b & 64) >> 5u8) | ((b & 128) >> 7u8)
}

/// Bytes with the order of all their bits reversed.
pub open spec fn rev_bits(s: Seq<u8>) -> Seq<u8> {
    Seq::new(s.len(), |i: int| rev_byte(s[s.len() - 1 - i]))
}

/// Reverses the order of the bits of a byte.
pub fn reverse_byte(b: u8) -> (r: u8)
    ensures
        r == rev_byte(b),
{
    ((b & 1) << 7u8) | ((b & 2) << 5u8) | ((b & 4) << 3u8) | ((b & 8) << 1u8) | ((b & 16) >> 1u8)
        | ((b & 32) >> 3u8) | ((b & 64) >> 5u8) | ((b & 128) >> 7u8)
}

/// Combines two byte strings bit by bit over 128 bytes, reading zeros beyond their ends.
fn mask_bytes(op: MaskOp, a: &Vec<u8>, b: &Vec<u8>) -> (r: Vec<u8>)
    ensures
        r@ == Seq::new(128, |i: int| mask_byte(op, byte_or_zero(a@, i), byte_or_zero(b@, i))),
{
    let ghost target = Seq::new(128, |i: int| mask_byte(op, byte_or_zero(a@, i), byte_or_zero(b@, i)));
    let mut out: Vec<u8> = Vec::new();
    let mut i: usize = 0;
    while i < 128
        invariant
            i <= 128,
            target == Seq::new(128, |i: int| mask_byte(op, byte_or_zero(a@, i), byte_or_zero(b@, i))),
            out@ == target.subrange(0, i as int),
        decreases 128 - i,
    {
        let x = if i < a.len() {
            a[i]
        } else {
            0
        };
        let y = if i < b.len() {
            b[i]
        } else {
            0
        };
        let z = match op {
            MaskOp::And => x & y,
            MaskOp::Or => x | y,
            MaskOp::Xor => x ^ y,
        };
        out.push(z);
        i = i + 1;
        assert(out@ =~= target.subrange(0, i as int));
    }
    assert(target.subrange(0, 128) =~= target);
    out
}

/// Cutting a 1024-bit integer to an integer layout of at most 1024 bits keeps its first bytes.
proof fn lemma_reshape_wide(w: Seq<u8>, signed: bool, to: Layout)
    requires
        w.len() == 128,
        to is Integer,
        to.valid(),
        to.spec_bytes() <= 128,
    ensures
        reshaped_model(
            NumberModel { layout: Layout::Integer(IntLayout { signed, bytes: 128 }), bytes: w },
            to,
        ) == (NumberModel { layout: to, bytes: w.subrange(0, to.spec_bytes() as int) }),
{
    let m = NumberModel { layout: Layout::Integer(IntLayout { signed, bytes: 128 }), bytes: w };
    if m.layout == to {
        assert(w.subrange(0, 128) =~= w);
    } else {
        assert(reshaped_model(m, to).bytes =~= w.subrange(0, to.spec_bytes() as int));
    }
}

/// 128 zero bytes encode zero.
proof fn lemma_zeros_128(z: Seq<u8>)
    requires
        z == Seq::new(128, |i: int| 0u8),
    ensures
        z == le_bytes(0, 128),
{
    lemma_le_val_zero(z);
    lemma_le_bytes_of_val(z);
}

/// Multiples of `2^(8n)` vanish modulo `256^n`.
proof fn lemma_shl_vanish(x: nat, e: nat, n: nat)
    requires
        8 * n <= e,
    ensures
        (x * pow2(e)) as int % (pow256(n) as int) == 0,
{
    lemma_pow2_pow256(n);
    vstd::arithmetic::power2::lemma_pow2_adds(8 * n, (e - 8 * n) as nat);
    assert(8 * n + (e - 8 * n) as nat == e);
    lemma_pow256_pos(n);
    let p = pow256(n) as int;
    let k = pow2((e - 8 * n) as nat) as int;
    assert((x * pow2(e)) as int == (x as int * k) * p) by (nonlinear_arith)
        requires
            pow2(e) == p * k,
    ;
    vstd::arithmetic::div_mod::lemma_mod_multiples_basic(x as int * k, p);
}

impl Number {
    /// Combines two numbers bit by bit (see [`mask_model`]).
    pub fn mask(self, rhs: Number, op: MaskOp) -> (r: Number)
        requires
            self.wf(),
            rhs.wf(),
        ensures
            r.wf(),
            r@ == mask_model(op, self@, rhs@),
    {
        let a = self.to_vec();
        let b = rhs.to_vec();
        let bytes = mask_bytes(op, &a, &b);
        Number::from_parts(Layout::unsigned(128), bytes)
    }

    /// Bitwise AND of two numbers, in the unsigned 1024-bit layout.
    pub fn bitand(self, rhs: Number) -> (r: Number)
        requires
            self.wf(),
            rhs.wf(),
        ensures
            r.wf(),
            r@ == mask_model(MaskOp::And, self@, rhs@),
    {
        self.mask(rhs, MaskOp::And)
    }

    /// Bitwise OR of two numbers, in the unsigned 1024-bit layout.
    pub fn bitor(self, rhs: Number) -> (r: Number)
        requires
            self.wf(),
            rhs.wf(),
        ensures
            r.wf(),
            r@ == mask_model(MaskOp::Or, self@, rhs@),
    {
        self.mask(rhs, MaskOp::Or)
    }

    /// Bitwise exclusive OR of two numbers, in the unsigned 1024-bit layout.
    pub fn bitxor(self, rhs: Number) -> (r: Number)
        requires
            self.wf(),
            rhs.wf(),
        ensures
            r.wf(),
            r@ == mask_model(MaskOp::Xor, self@, rhs@),
    {
        self.mask(rhs, MaskOp::Xor)
    }

    /// Shift amount held by a number whose unsigned value is below `2^16`.
    pub fn shift_amount(&self) -> (r: u16)
        requires
            self.wf(),
            le_val(self@.bytes) < 0x10000,
        ensures
            r == le_val(self@.bytes),
    {
        let v = self.to_vec();
        proof {
            let t1 = v@.subrange(0, 1);
            assert(v@.len() >= 1);
            assert(t1.len() == 1);
            assert(t1.drop_last() =~= Seq::<u8>::empty());
            assert(le_val(t1.drop_last()) == 0);
            assert(t1.last() == v@[0]);
            assert(pow256(0) == 1);
            assert(le_val(t1) == le_val(t1.drop_last()) + (t1.last() as nat) * pow256(0));
            assert(le_val(t1) == v@[0] as nat);
        }
        if v.len() == 1 {
            proof {
                assert(v@.subrange(0, 1) =~= v@);
                assert(le_val(v@) == v@[0]);
            }
            return v[0] as u16;
        }
        proof {
            lemma_le_val_prefix(v@, 2);
            let t = v@.subrange(0, 2);
            let rest = v@.subrange(2, v@.len() as int);
            assert(t.drop_last() =~= v@.subrange(0, 1));
            assert(pow256(1) == 256);
            assert(pow256(2) == 0x10000);
            assert(le_val(t) == v@[0] + v@[1] * 256);
            assert(v@ == self@.bytes);
            assert(le_val(v@) < 0x10000);
            assert(le_val(t) + pow256(2) * le_val(rest) == le_val(v@));
            if le_val(rest) > 0 {
                assert(pow256(2) * le_val(rest) >= 0x10000) by (nonlinear_arith)
                    requires
                        pow256(2) == 0x10000,
                        le_val(rest) >= 1,
                ;
            }
            assert(le_val(rest) == 0);
            assert(pow256(2) * le_val(rest) == 0) by (nonlinear_arith)
                requires
                    le_val(rest) == 0,
            ;
            assert(le_val(v@) == v@[0] + v@[1] * 256);
        }
        v[0] as u16 + (v[1] as u16) * 256
    }

    /// Shifts left by `e` bits within the width (see [`spec_shl`]).
    pub fn shift_left(self, e: u32) -> (r: Number)
        requires
            shiftable(self@),
        ensures
            r.wf(),
            r@ == spec_shl(self@, e as nat),
    {
        let layout = self.layout();
        let signed = layout.is_signed_int();
        let n = self.len();
        let w = extend_1024(&self, signed);
        let raw = if signed {
            i1024_checked_shl(&w, e)
        } else {
            u1024_checked_shl(&w, e)
        };
        let ghost target = le_val(self@.bytes) * pow2(e as nat);
        let bytes = match raw {
            Some(v) => v,
            None => Number::zero(Layout::unsigned(128)).to_vec(),
        };
        proof {
            let a = self@.bytes;
            lemma_pow256_pos(n as nat);
            let p = pow256(n as nat) as int;
            if e >= 1024 {
                lemma_zeros_128(bytes@);
                lemma_shl_vanish(le_val(a), e as nat, n as nat);
                lemma_cut_le_bytes(0, target as int, 128, n as nat);
            } else {
                let x = le_val(w@);
                lemma_le_val_prefix(w@, n as nat);
                assert(w@.subrange(0, n as int) =~= a);
                lemma_le_val_bound(a);
                vstd::arithmetic::div_mod::lemma_small_mod(le_val(a), pow256(n as nat));
                vstd::arithmetic::div_mod::lemma_mul_mod_noop_left(x as int, pow2(e as nat) as int, p);
                vstd::arithmetic::div_mod::lemma_mul_mod_noop_left(
                    le_val(a) as int,
                    pow2(e as nat) as int,
                    p,
                );
                lemma_cut_le_bytes((x * pow2(e as nat)) as int, target as int, 128, n as nat);
            }
            lemma_reshape_wide(bytes@, signed, layout);
        }
        let mut wide = Number::from_parts(Layout::Integer(IntLayout { signed, bytes: 128 }), bytes);
        wide.reshape(layout);
        wide
    }

    /// Shifts right by `e` bits (see [`spec_shr`]).
    pub fn shift_right(self, e: u32) -> (r: Number)
        requires
            shiftable(self@),
        ensures
            r.wf(),
            r@ == spec_shr(self@, e as nat),
    {
        let layout = self.layout();
        let signed = layout.is_signed_int();
        let n = self.len();
        let w = extend_1024(&self, signed);
        let raw = if signed {
            i1024_checked_shr(&w, e)
        } else {
            u1024_checked_shr(&w, e)
        };
        let bytes = match raw {
            Some(v) => v,
            None => Number::zero(Layout::unsigned(128)).to_vec(),
        };
        proof {
            let t = shr_raw(self@, e as nat) as int;
            if e >= 1024 {
                lemma_zeros_128(bytes@);
            } else if signed {
                assert((w@.last() >= 0x80) == (self@.bytes.last() >= 0x80));
            }
            lemma_cut_le_bytes(t, t, 128, n as nat);
            lemma_reshape_wide(bytes@, signed, layout);
        }
        let mut wide = Number::from_parts(Layout::Integer(IntLayout { signed, bytes: 128 }), bytes);
        wide.reshape(layout);
        wide
    }

    /// Shifts left by the number of bits that `rhs` holds (read as unsigned, below `2^16`).
    pub fn shl(self, rhs: Number) -> (r: Number)
        requires
            shiftable(self@),
            rhs.wf(),
            le_val(rhs@.bytes) < 0x10000,
        ensures
            r.wf(),
            r@ == spec_shl(self@, le_val(rhs@.bytes)),
    {
        let e = rhs.shift_amount();
        self.shift_left(e as u32)
    }

    /// Shifts right by the number of bits that `rhs` holds (read as unsigned, below `2^16`).
    pub fn shr(self, rhs: Number) -> (r: Number)
        requires
            shiftable(self@),
            rhs.wf(),
            le_val(rhs@.bytes) < 0x10000,
        ensures
            r.wf(),
            r@ == spec_shr(self@, le_val(rhs@.bytes)),
    {
        let e = rhs.shift_amount();
        self.shift_right(e as u32)
    }

    /// Cyclic shift left by the number of bits that `shift` holds, modulo the width.
    pub fn scl(self, shift: Number) -> (r: Number)
        requires
            shiftable(self@),
            shift.wf(),
            le_val(shift@.bytes) < 0x10000,
        ensures
            r.wf(),
            r@ == spec_scl(self@, le_val(shift@.bytes)),
    {
        let layout = self.layout();
        let bits = self.len() * 8;
        let amount = shift.shift_amount();
        let excess = amount % bits;
        let lhs = self.into_unsigned();
        let residue = lhs.clone_number().shift_right((bits - excess) as u32);
        let shifted = lhs.shift_left(excess as u32);
        let joined = shifted.bitor(residue);
        proof {
            lemma_reshape_wide(joined@.bytes, false, layout);
        }
        let mut out = joined;
        out.reshape(layout);
        assert(out@.bytes =~= spec_scl(self@, le_val(shift@.bytes)).bytes);
        out
    }

    /// Cyclic shift right by the number of bits that `shift` holds, modulo the width.
    pub fn scr(self, shift: Number) -> (r: Number)
        requires
            shiftable(self@),
            shift.wf(),
            le_val(shift@.bytes) < 0x10000,
        ensures
            r.wf(),
            r@ == spec_scr(self@, le_val(shift@.bytes)),
    {
        let layout = self.layout();
        let bits = self.len() * 8;
        let amount = shift.shift_amount();
        let excess = amount % bits;
        let lhs = self.into_unsigned();
        let residue = lhs.clone_number().shift_left((bits - excess) as u32);
        let shifted = lhs.shift_right(excess as u32);
        let joined = shifted.bitor(residue);
        proof {
            lemma_reshape_wide(joined@.bytes, false, layout);
        }
        let mut out = joined;
        out.reshape(layout);
        assert(out@.bytes =~= spec_scr(self@, le_val(shift@.bytes)).bytes);
        out
    }

    /// Reverses the order of all bits: the least significant bit becomes the most significant
    /// one. The layout is kept.
    pub fn reverse_bits(self) -> (r: Number)
        requires
            self.wf(),
            self@.layout is Integer,
        ensures
            r.wf(),
            r@ == (NumberModel { layout: self@.layout, bytes: rev_bits(self@.bytes) }),
    {
        let layout = self.layout();
        let v = self.to_vec();
        let n = v.len();
        let mut out: Vec<u8> = Vec::new();
        let mut i: usize = 0;
        while i < n
            invariant
                i <= n,
                n == v@.len(),
                out@ == rev_bits(v@).subrange(0, i as int),
            decreases n - i,
        {
            let b = reverse_byte(v[n - 1 - i]);
            out.push(b);
            i = i + 1;
            assert(out@ =~= rev_bits(v@).subrange(0, i as int));
        }
        assert(rev_bits(v@).subrange(0, n as int) =~= rev_bits(v@));
        Number::from_parts(layout, out)
    }
}

} // verus!
