//! Integer arithmetic on numbers, with the flags that control signedness and overflow.

use vstd::prelude::*;

use crate::bigint::{
    euclid_div, i1024_add_outcome, i1024_checked_add, i1024_checked_div,
    i1024_checked_div_euclid, i1024_checked_mul, i1024_checked_sub, i1024_div_refused, i1024_checked_mul_of, i1024_div_outcome, i1024_euclid_outcome,
    i1024_min, i1024_wrapping_neg, in_i1024, trunc_div, u1024_checked_add, u1024_checked_div,
    u1024_checked_mul, u1024_checked_sub, u1024_rem,
};
use crate::flags::IntFlags;
use crate::layout::{IntLayout, Layout};
use crate::num::{
    le_bytes, le_digits, le_val, lemma_le_bytes_val, lemma_le_digits_val, lemma_le_val_bound,
    lemma_le_val_inj, lemma_pow256_add, lemma_pow256_mono, lemma_pow256_pos, pow256, sle_val,
};
use crate::number::{
    seq_ones, sign_bit_bytes, NumberModel, Number, lemma_reshape_keeps_range, opt_model, lemma_sle_val_le_bytes, lemma_sle_val_range,
    lemma_value_resized, model_wf, reshape_keeps, reshaped_model, resized, value_of,
};

verus! {

broadcast use crate::num::lemma_le_bytes_len;

/// Integer layout model of 128 bytes holding a 1024-bit intermediate result.
pub open spec fn wide_model(raw: Seq<u8>, signed: bool) -> NumberModel {
    NumberModel { layout: Layout::Integer(IntLayout { signed, bytes: 128 }), bytes: raw }
}

/// Bytes of `m` zero-extended to 1024 bits.
pub open spec fn u1024_of(m: NumberModel) -> Seq<u8> {
    resized(NumberModel { layout: Layout::Integer(IntLayout { signed: false, bytes: 128 }), ..m }, 128)
}

/// Bytes of `m` extended to 1024 bits repeating its most significant bit.
pub open spec fn i1024_of(m: NumberModel) -> Seq<u8> {
    resized(NumberModel { layout: Layout::Integer(IntLayout { signed: true, bytes: 128 }), ..m }, 128)
}

/// Last step shared by addition, subtraction and multiplication: the 1024-bit result is cut to
/// the operands' width; it is kept when it fits or when wrapping is allowed.
pub open spec fn int_finish(raw: Option<Seq<u8>>, signed: bool, bytes: u16, wrap: bool) -> Option<
    NumberModel,
> {
    match raw {
        None => None,
        Some(w) => {
            let m = wide_model(w, signed);
            let to = Layout::Integer(IntLayout { signed, bytes });
            if wrap || reshape_keeps(m, to) {
                Some(reshaped_model(m, to))
            } else {
                None
            }
        },
    }
}

/// 1024-bit unsigned outcome of an operation: `None` when it leaves `[0, 2^1024)`.
pub open spec fn u1024_outcome(v: int) -> Option<Seq<u8>> {
    if 0 <= v < pow256(128) {
        Some(le_bytes(v, 128))
    } else {
        None
    }
}

/// 1024-bit signed outcome of an operation: `None` when it leaves the signed range.
pub open spec fn i1024_outcome(v: int) -> Option<Seq<u8>> {
    if in_i1024(v) {
        Some(le_bytes(v, 128))
    } else {
        None
    }
}

/// Result of [`Number::int_add`].
pub open spec fn spec_int_add(a: NumberModel, b: NumberModel, f: IntFlags) -> Option<NumberModel> {
    let n = a.layout.spec_bytes();
    if f.signed {
        int_finish(i1024_add_outcome(sle_val(a.bytes), sle_val(b.bytes)), true, n, f.wrap)
    } else {
        int_finish(u1024_outcome(le_val(a.bytes) + le_val(b.bytes) as int), false, n, f.wrap)
    }
}

/// Result of [`Number::int_sub`].
pub open spec fn spec_int_sub(a: NumberModel, b: NumberModel, f: IntFlags) -> Option<NumberModel> {
    let n = a.layout.spec_bytes();
    if f.signed {
        int_finish(
            i1024_add_outcome(sle_val(a.bytes), i1024_wrapping_neg(sle_val(b.bytes))),
            true,
            n,
            f.wrap,
        )
    } else {
        int_finish(u1024_outcome(le_val(a.bytes) - le_val(b.bytes)), false, n, f.wrap)
    }
}

/// Result of [`Number::int_mul`].
pub open spec fn spec_int_mul(a: NumberModel, b: NumberModel, f: IntFlags) -> Option<NumberModel> {
    let n = a.layout.spec_bytes();
    if f.signed && sle_val(a.bytes) == i1024_min() {
        int_finish(i1024_checked_mul_of(i1024_of(a), i1024_of(b)), true, n, f.wrap)
    } else if f.signed {
        int_finish(i1024_outcome(sle_val(a.bytes) * sle_val(b.bytes)), true, n, f.wrap)
    } else {
        int_finish(u1024_outcome((le_val(a.bytes) * le_val(b.bytes)) as int), false, n, f.wrap)
    }
}

/// Result of [`Number::int_div`]: `None` for a zero divisor, zero for a zero dividend;
/// otherwise the quotient (for signed numbers as `i1024::checked_div_euclid` gives it when
/// `wrap` is set, as `i1024::checked_div` gives it else: see [`i1024_div_outcome`]) in the
/// signed layout of the operands' width, when there is one and it fits there.
pub open spec fn spec_int_div(a: NumberModel, b: NumberModel, f: IntFlags) -> Option<NumberModel> {
    let n = a.layout.spec_bytes();
    let to = Layout::Integer(IntLayout { signed: true, bytes: n });
    if le_val(b.bytes) == 0 {
        None
    } else if le_val(a.bytes) == 0 {
        Some(NumberModel { layout: a.layout, bytes: Seq::new(n as nat, |i: int| 0u8) })
    } else {
        let q = if f.signed {
            let x = sle_val(a.bytes);
            let y = sle_val(b.bytes);
            if f.wrap {
                i1024_euclid_outcome(x, y)
            } else {
                i1024_div_outcome(x, y)
            }
        } else {
            Some((le_val(a.bytes) / le_val(b.bytes)) as int)
        };
        match q {
            None => None,
            Some(v) => {
                let m = wide_model(le_bytes(v, 128), f.signed);
                if reshape_keeps(m, to) {
                    Some(reshaped_model(m, to))
                } else {
                    None
                }
            },
        }
    }
}

/// Whether two numbers can be combined by an integer operation: one integer layout of at most
/// 1024 bits.
pub open spec fn int_operands(a: &Number, b: &Number) -> bool {
    &&& a.wf()
    &&& b.wf()
    &&& a@.layout == b@.layout
    &&& a@.layout is Integer
    &&& a@.layout.spec_bytes() <= 128
}

proof fn lemma_u1024_of(m: NumberModel)
    requires
        1 <= m.bytes.len() <= 128,
    ensures
        u1024_of(m).len() == 128,
        le_val(u1024_of(m)) == le_val(m.bytes),
{
    let w = NumberModel { layout: Layout::Integer(IntLayout { signed: false, bytes: 128 }), ..m };
    if m.bytes.len() < 128 {
        lemma_value_resized(w, 128);
        lemma_le_val_bound(m.bytes);
        lemma_pow256_mono(m.bytes.len(), 127);
        lemma_sle_val_range(u1024_of(m));
        crate::number::lemma_le_val_top(u1024_of(m));
        assert(pow256(128) == 256 * pow256(127));
    } else {
        assert(u1024_of(m) =~= m.bytes);
    }
}

proof fn lemma_i1024_of(m: NumberModel)
    requires
        1 <= m.bytes.len() <= 128,
    ensures
        i1024_of(m).len() == 128,
        sle_val(i1024_of(m)) == sle_val(m.bytes),
{
    let w = NumberModel { layout: Layout::Integer(IntLayout { signed: true, bytes: 128 }), ..m };
    if m.bytes.len() < 128 {
        lemma_value_resized(w, 128);
    } else {
        assert(i1024_of(m) =~= m.bytes);
    }
}

/// Little-endian digits of a `u128` in `n <= 16` bytes.
fn le_from_u128(u: u128, n: usize) -> (r: Vec<u8>)
    requires
        n <= 16,
    ensures
        r@ == le_bytes(u as int, n as nat),
{
    let mut out: Vec<u8> = Vec::new();
    let mut cur: u128 = u;
    let mut i: usize = 0;
    assert(pow256(0) == 1);
    assert((u as nat) / 1 == u as nat);
    while i < n
        invariant
            i <= n,
            out@ == le_digits(u as nat, i as nat),
            cur as nat == (u as nat) / pow256(i as nat),
        decreases n - i,
    {
        proof {
            lemma_pow256_pos(i as nat);
            vstd::arithmetic::div_mod::lemma_div_denominator(
                u as int,
                pow256(i as nat) as int,
                256,
            );
        }
        out.push((cur % 256) as u8);
        cur = cur / 256;
        i = i + 1;
        assert(pow256(i as nat) == pow256((i - 1) as nat) * 256);
    }
    proof {
        lemma_pow256_pos(n as nat);
        lemma_le_digits_val(u as nat, n as nat);
        lemma_le_bytes_val(u as int, n as nat);
        lemma_le_val_inj(out@, le_bytes(u as int, n as nat));
    }
    out
}

impl Number {
    /// Unsigned number of `n` bytes holding `v` modulo `256^n`.
    fn from_unsigned(v: u128, n: u16) -> (r: Number)
        requires
            1 <= n <= 16,
        ensures
            r.wf(),
            r@ == (NumberModel {
                layout: Layout::Integer(IntLayout { signed: false, bytes: n }),
                bytes: le_bytes(v as int, n as nat),
            }),
    {
        let bytes = le_from_u128(v, n as usize);
        proof {
            lemma_le_bytes_val(v as int, n as nat);
        }
        Number::from_parts(Layout::unsigned(n), bytes)
    }

    /// Signed number of `n` bytes holding `v`, which lies in its range.
    fn from_signed(v: i128, n: u16) -> (r: Number)
        requires
            1 <= n <= 8,
            -(pow256(n as nat) as int) / 2 <= v < (pow256(n as nat) as int) / 2,
        ensures
            r.wf(),
            r@.layout == Layout::Integer(IntLayout { signed: true, bytes: n }),
            r.value() == v,
    {
        proof {
            lemma_pow256_mono(n as nat, 8);
            lemma_pow256_pos(n as nat);
            crate::num::lemma_pow256_values();
        }
        let p: i128 = pow256_exec(n);
        let u: u128 = if v < 0 {
            (v + p) as u128
        } else {
            v as u128
        };
        let bytes = le_from_u128(u, n as usize);
        proof {
            lemma_le_bytes_val(u as int, n as nat);
            lemma_le_bytes_val(v as int, n as nat);
            if v < 0 {
                vstd::arithmetic::div_mod::lemma_mod_add_multiples_vanish(v as int, p as int);
            }
            assert(le_bytes(u as int, n as nat) =~= le_bytes(v as int, n as nat));
            lemma_sle_val_le_bytes(v as int, n as nat);
        }
        Number::from_parts(Layout::signed(n), bytes)
    }

    /// Unsigned 8-bit number.
    pub fn from_u8(v: u8) -> (r: Number)
        ensures
            r.wf(),
            r@.layout == Layout::Integer(IntLayout { signed: false, bytes: 1 }),
            r.value() == v,
            r@.bytes == le_bytes(v as int, 1),
    {
        let r = Number::from_unsigned(v as u128, 1);
        proof {
            crate::number::lemma_le_val_le_bytes(v as int, 1);
        }
        r
    }

    /// Unsigned 16-bit number.
    pub fn from_u16(v: u16) -> (r: Number)
        ensures
            r.wf(),
            r@.layout == Layout::Integer(IntLayout { signed: false, bytes: 2 }),
            r.value() == v,
            r@.bytes == le_bytes(v as int, 2),
    {
        let r = Number::from_unsigned(v as u128, 2);
        proof {
            crate::num::lemma_pow256_values();
            crate::number::lemma_le_val_le_bytes(v as int, 2);
        }
        r
    }

    /// Unsigned 32-bit number.
    pub fn from_u32(v: u32) -> (r: Number)
        ensures
            r.wf(),
            r@.layout == Layout::Integer(IntLayout { signed: false, bytes: 4 }),
            r.value() == v,
            r@.bytes == le_bytes(v as int, 4),
    {
        let r = Number::from_unsigned(v as u128, 4);
        proof {
            crate::num::lemma_pow256_values();
            crate::number::lemma_le_val_le_bytes(v as int, 4);
        }
        r
    }

    /// Unsigned 64-bit number.
    pub fn from_u64(v: u64) -> (r: Number)
        ensures
            r.wf(),
            r@.layout == Layout::Integer(IntLayout { signed: false, bytes: 8 }),
            r.value() == v,
            r@.bytes == le_bytes(v as int, 8),
    {
        let r = Number::from_unsigned(v as u128, 8);
        proof {
            crate::num::lemma_pow256_values();
            crate::number::lemma_le_val_le_bytes(v as int, 8);
        }
        r
    }

    /// Unsigned 128-bit number.
    pub fn from_u128(v: u128) -> (r: Number)
        ensures
            r.wf(),
            r@.layout == Layout::Integer(IntLayout { signed: false, bytes: 16 }),
            r.value() == v,
            r@.bytes == le_bytes(v as int, 16),
    {
        let r = Number::from_unsigned(v, 16);
        proof {
            crate::num::lemma_pow256_values();
            crate::number::lemma_le_val_le_bytes(v as int, 16);
        }
        r
    }

    /// Signed 8-bit number.
    pub fn from_i8(v: i8) -> (r: Number)
        ensures
            r.wf(),
            r@.layout == Layout::Integer(IntLayout { signed: true, bytes: 1 }),
            r.value() == v,
    {
        proof {
            crate::num::lemma_pow256_values();
        }
        Number::from_signed(v as i128, 1)
    }

    /// Signed 16-bit number.
    pub fn from_i16(v: i16) -> (r: Number)
        ensures
            r.wf(),
            r@.layout == Layout::Integer(IntLayout { signed: true, bytes: 2 }),
            r.value() == v,
    {
        proof {
            crate::num::lemma_pow256_values();
        }
        Number::from_signed(v as i128, 2)
    }

    /// Signed 32-bit number.
    pub fn from_i32(v: i32) -> (r: Number)
        ensures
            r.wf(),
            r@.layout == Layout::Integer(IntLayout { signed: true, bytes: 4 }),
            r.value() == v,
    {
        proof {
            crate::num::lemma_pow256_values();
        }
        Number::from_signed(v as i128, 4)
    }

    /// Signed 64-bit number.
    pub fn from_i64(v: i64) -> (r: Number)
        ensures
            r.wf(),
            r@.layout == Layout::Integer(IntLayout { signed: true, bytes: 8 }),
            r.value() == v,
    {
        proof {
            crate::num::lemma_pow256_values();
        }
        Number::from_signed(v as i128, 8)
    }
}

/// Bytes of `n` extended to 1024 bits (repeating the top bit when `signed`).
pub(crate) fn extend_1024(n: &Number, signed: bool) -> (r: Vec<u8>)
    requires
        n.wf(),
        n@.bytes.len() <= 128,
    ensures
        r@ == (if signed { i1024_of(n@) } else { u1024_of(n@) }),
        r@.len() == 128,
        signed ==> sle_val(r@) == sle_val(n@.bytes),
        !signed ==> le_val(r@) == le_val(n@.bytes),
{
    let src = n.to_vec();
    let len = src.len();
    let top = src[len - 1];
    let e: u8 = if signed && top >= 0x80 {
        0xFF
    } else {
        0
    };
    let ghost target = if signed { i1024_of(n@) } else { u1024_of(n@) };
    let mut out: Vec<u8> = Vec::new();
    let mut i: usize = 0;
    while i < 128
        invariant
            i <= 128,
            len == n@.bytes.len(),
            src@ == n@.bytes,
            1 <= len <= 128,
            target.len() == 128,
            forall|k: int| 0 <= k < 128 ==> #[trigger] target[k] == (if k < len { src@[k] } else { e }),
            out@ == target.subrange(0, i as int),
        decreases 128 - i,
    {
        let b = if i < len {
            src[i]
        } else {
            e
        };
        out.push(b);
        i = i + 1;
        assert(out@ =~= target.subrange(0, i as int));
    }
    assert(target.subrange(0, 128) =~= target);
    proof {
        lemma_i1024_of(n@);
        lemma_u1024_of(n@);
    }
    out
}

/// Reads a 1024-bit result back into the operands' width.
fn int_finish_exec(w: Vec<u8>, signed: bool, bytes: u16, wrap: bool) -> (r: Option<Number>)
    requires
        w@.len() == 128,
        1 <= bytes <= 128,
    ensures
        r matches Some(n) ==> n.wf(),
        opt_model(r) == int_finish(Some(w@), signed, bytes, wrap),
{
    let wide = Number::from_parts(Layout::Integer(IntLayout { signed, bytes: 128 }), w);
    let mut n = wide;
    let kept = n.reshape(Layout::Integer(IntLayout { signed, bytes }));
    if kept || wrap {
        Some(n)
    } else {
        None
    }
}

impl Number {
    /// Addition of two integers with configuration flags for overflow and signedness. When
    /// `signed` disagrees with the layout the bytes are read as `signed` says.
    pub fn int_add(self, rhs: Number, flags: IntFlags) -> (r: Option<Number>)
        requires
            int_operands(&self, &rhs),
        ensures
            r matches Some(n) ==> n.wf(),
            opt_model(r) == spec_int_add(self@, rhs@, flags),
    {
        let bytes = self.layout().bytes();
        let a = extend_1024(&self, flags.signed);
        let b = extend_1024(&rhs, flags.signed);
        let raw = if flags.signed {
            i1024_checked_add(&a, &b)
        } else {
            u1024_checked_add(&a, &b)
        };
        match raw {
            None => None,
            Some(w) => int_finish_exec(w, flags.signed, bytes, flags.wrap),
        }
    }

    /// Subtraction of two integers with configuration flags for overflow and signedness. When
    /// `signed` disagrees with the layout the bytes are read as `signed` says.
    pub fn int_sub(self, rhs: Number, flags: IntFlags) -> (r: Option<Number>)
        requires
            int_operands(&self, &rhs),
        ensures
            r matches Some(n) ==> n.wf(),
            opt_model(r) == spec_int_sub(self@, rhs@, flags),
    {
        let bytes = self.layout().bytes();
        let a = extend_1024(&self, flags.signed);
        let b = extend_1024(&rhs, flags.signed);
        proof {
            lemma_le_val_bound(a@);
        }
        let raw = if flags.signed {
            i1024_checked_sub(&a, &b)
        } else {
            u1024_checked_sub(&a, &b)
        };
        match raw {
            None => None,
            Some(w) => int_finish_exec(w, flags.signed, bytes, flags.wrap),
        }
    }

    /// Multiplication of two integers with configuration flags for overflow and signedness.
    /// When `signed` disagrees with the layout the bytes are read as `signed` says.
    pub fn int_mul(self, rhs: Number, flags: IntFlags) -> (r: Option<Number>)
        requires
            int_operands(&self, &rhs),
        ensures
            r matches Some(n) ==> n.wf(),
            opt_model(r) == spec_int_mul(self@, rhs@, flags),
    {
        let bytes = self.layout().bytes();
        let a = extend_1024(&self, flags.signed);
        let b = extend_1024(&rhs, flags.signed);
        let raw = if flags.signed {
            i1024_checked_mul(&a, &b)
        } else {
            u1024_checked_mul(&a, &b)
        };
        proof {
            crate::num::lemma_pow256_pos(128);
        }
        match raw {
            None => None,
            Some(w) => {
                proof {
                    assert(w.deep_view() =~= w@);
                }
                int_finish_exec(w, flags.signed, bytes, flags.wrap)
            },
        }
    }

    /// Division of two integers; `wrap` selects Euclidean division for signed numbers. The
    /// quotient is given in the signed layout of the operands' width.
    pub fn int_div(self, rhs: Number, flags: IntFlags) -> (r: Option<Number>)
        requires
            int_operands(&self, &rhs),
            flags.signed && le_val(self@.bytes) != 0 && le_val(rhs@.bytes) != 0 ==> !i1024_div_refused(
                sle_val(self@.bytes),
                sle_val(rhs@.bytes),
            ),
        ensures
            r matches Some(n) ==> n.wf(),
            opt_model(r) == spec_int_div(self@, rhs@, flags),
    {
        let layout = self.layout();
        let bytes = layout.bytes();
        proof {
            crate::number::lemma_le_val_zero(rhs@.bytes);
            crate::number::lemma_le_val_zero(self@.bytes);
        }
        if rhs.is_zero() {
            return None;
        }
        if self.is_zero() {
            let z = Number::zero(layout);
            assert(z@.bytes =~= Seq::new(bytes as nat, |i: int| 0u8));
            return Some(z);
        }
        let a = extend_1024(&self, flags.signed);
        let b = extend_1024(&rhs, flags.signed);
        let raw = if flags.signed {
            if flags.wrap {
                i1024_checked_div_euclid(&a, &b)
            } else {
                i1024_checked_div(&a, &b)
            }
        } else {
            u1024_checked_div(&a, &b)
        };
        match raw {
            None => None,
            Some(w) => {
                proof {
                    assert(w.deep_view() =~= w@);
                }
                let wide = Number::from_parts(
                    Layout::Integer(IntLayout { signed: flags.signed, bytes: 128 }),
                    w,
                );
                wide.reshaped(Layout::signed(bytes), false)
            },
        }
    }
}

/// Result of [`Number::rem`]: `None` for a zero divisor. Signed operands give the remainder
/// of their bytes read as unsigned, as an unsigned 1024-bit number; unsigned operands give
/// the remainder as a signed 128-bit number.
pub open spec fn spec_rem(a: NumberModel, b: NumberModel) -> Option<NumberModel> {
    if le_val(b.bytes) == 0 {
        None
    } else if a.layout.spec_is_signed_int() {
        Some(NumberModel {
            layout: Layout::Integer(IntLayout { signed: false, bytes: 128 }),
            bytes: le_bytes((le_val(a.bytes) % le_val(b.bytes)) as int, 128),
        })
    } else {
        Some(NumberModel {
            layout: Layout::Integer(IntLayout { signed: true, bytes: 16 }),
            bytes: le_bytes((le_val(a.bytes) % le_val(b.bytes)) as int, 16),
        })
    }
}

/// What [`Number::rem`] needs of its operands: integers of at most 1024 bits; when the first
/// is unsigned, both unsigned of at most 128 bits with values below `2^127`, as they are
/// divided as 128-bit signed integers.
pub open spec fn rem_operands(a: &Number, b: &Number) -> bool {
    &&& a.wf()
    &&& b.wf()
    &&& a@.layout is Integer
    &&& b@.layout is Integer
    &&& a@.layout.spec_bytes() <= 128
    &&& b@.layout.spec_bytes() <= 128
    &&& !a@.layout.spec_is_signed_int() ==> {
        &&& !b@.layout.spec_is_signed_int()
        &&& a@.layout.spec_bytes() <= 16
        &&& b@.layout.spec_bytes() <= 16
        &&& le_val(a@.bytes) < pow256(16) / 2
        &&& le_val(b@.bytes) < pow256(16) / 2
    }
}

/// The first `n` bytes of `v`.
fn first_bytes(v: &Vec<u8>, n: usize) -> (r: Vec<u8>)
    requires
        n <= v@.len(),
    ensures
        r@ == v@.subrange(0, n as int),
{
    let mut r: Vec<u8> = Vec::new();
    let mut i: usize = 0;
    while i < n
        invariant
            i <= n <= v@.len(),
            r@ == v@.subrange(0, i as int),
        decreases n - i,
    {
        r.push(v[i]);
        i += 1;
        assert(r@ =~= v@.subrange(0, i as int));
    }
    r
}

impl Number {
    /// Remainder of division; `None` for a zero divisor. Signed numbers are divided as the
    /// unsigned 1024-bit numbers of their bytes, giving an unsigned 1024-bit remainder.
    /// Unsigned numbers of up to 128 bits are divided as 128-bit signed integers, giving a
    /// signed 128-bit remainder; their values must be below `2^127`, and wider unsigned numbers
    /// are not divided at all.
    pub fn rem(self, rhs: Number) -> (r: Option<Number>)
        requires
            rem_operands(&self, &rhs),
        ensures
            r matches Some(n) ==> n.wf(),
            opt_model(r) == spec_rem(self@, rhs@),
    {
        proof {
            crate::number::lemma_le_val_zero(rhs@.bytes);
        }
        if rhs.is_zero() {
            return None;
        }
        let signed = self.layout().is_signed_int();
        let a = extend_1024(&self, false);
        let b = extend_1024(&rhs, false);
        let w = u1024_rem(&a, &b);
        proof {
            crate::num::lemma_pow256_pos(128);
            lemma_le_bytes_val((le_val(a@) % le_val(b@)) as int, 128);
        }
        if signed {
            Some(Number::from_parts(Layout::unsigned(128), w))
        } else {
            let low = first_bytes(&w, 16);
            proof {
                let v = (le_val(a@) % le_val(b@)) as int;
                crate::num::lemma_pow256_pos(16);
                crate::num::lemma_pow256_mono(16, 128);
                vstd::arithmetic::div_mod::lemma_small_mod(v as nat, pow256(16));
                vstd::arithmetic::div_mod::lemma_small_mod(v as nat, pow256(128));
                crate::num::lemma_cut_le_bytes(v, v, 128, 16);
                lemma_le_bytes_val(v, 16);
            }
            Some(Number::from_parts(Layout::signed(16), low))
        }
    }
}

impl Number {
    /// Adds or removes the negative sign: negates a signed integer whose sign differs from
    /// `sign`, sets or clears the sign bit of a float. Gives `None` for unsigned integers and
    /// when the minimum value of a signed layout would have to be negated, which has no
    /// negation; the minimum asked to stay negative is given back.
    pub fn applying_sign(self, sign: bool) -> (r: Option<Number>)
        requires
            self.wf(),
            self@.layout is Integer ==> self@.layout.spec_bytes() <= 128,
        ensures
            r matches Some(n) ==> n.wf(),
            self@.layout.spec_is_unsigned_int() ==> r is None,
            self@.layout is Float ==> opt_model(r) == Some(
                NumberModel { layout: self@.layout, bytes: sign_bit_bytes(self@.bytes, sign) },
            ),
            self@.layout.spec_is_signed_int() ==> {
                if !self.spec_is_positive() == sign {
                    opt_model(r) == Some(self@)
                } else if !self.spec_is_positive() && seq_ones(self@.bytes) == 1 {
                    r is None
                } else {
                    r matches Some(n) && n@.layout == self@.layout && n.value() == -self.value()
                }
            },
    {
        let layout = self.layout();
        match layout {
            Layout::Integer(l) => {
                if l.signed {
                    let pos = self.is_positive();
                    if !pos == sign {
                        Some(self)
                    } else if !pos && self.count_ones() == 1 {
                        None
                    } else {
                        let ghost x = self.value();
                        let ghost n = self@.bytes.len();
                        let mut one = Number::from_u8(1);
                        proof {
                            lemma_pow256_pos((n - 1) as nat);
                            assert(pow256(n) == 256 * pow256((n - 1) as nat));
                            lemma_reshape_keeps_range(one@, layout);
                        }
                        one.reshape(layout);
                        let neg = self.not();
                        proof {
                            lemma_sle_val_le_bytes(1, n);
                            crate::number::lemma_sle_val_not(self@.bytes);
                            lemma_sle_val_range(self@.bytes);
                            if x == -(pow256(n) as int) / 2 {
                                crate::number::lemma_min_signed(self@.bytes);
                                let top = self@.bytes.last();
                                assert(top >= 0x80);
                                assert(top & 0x80 != 0) by (bit_vector)
                                    requires
                                        top >= 0x80,
                                ;
                            }
                            lemma_pow256_mono(n, 128);
                            let w = le_bytes(-x, 128);
                            lemma_sle_val_le_bytes(-x, 128);
                            let m = wide_model(w, true);
                            lemma_reshape_keeps_range(m, layout);
                            lemma_sle_val_le_bytes(-x, n);
                        }
                        neg.int_add(one, IntFlags { signed: true, wrap: true })
                    }
                } else {
                    None
                }
            },
            Layout::Float(_) => Some(self.with_sign_bit(sign)),
        }
    }

    /// Removes the negative sign if present (negates a negative number).
    pub fn without_sign(self) -> (r: Option<Number>)
        requires
            self.wf(),
            self@.layout is Integer ==> self@.layout.spec_bytes() <= 128,
        ensures
            r matches Some(n) ==> n.wf(),
            self@.layout.spec_is_unsigned_int() ==> r is None,
            self@.layout is Float ==> opt_model(r) == Some(
                NumberModel { layout: self@.layout, bytes: sign_bit_bytes(self@.bytes, false) },
            ),
            self@.layout.spec_is_signed_int() ==> {
                if !self.spec_is_positive() && seq_ones(self@.bytes) == 1 {
                    r is None
                } else if !self.spec_is_positive() {
                    r matches Some(n) && n@.layout == self@.layout && n.value() == -self.value()
                } else {
                    opt_model(r) == Some(self@)
                }
            },
    {
        self.applying_sign(false)
    }

    /// Absolute value: the number itself when non-negative, its negation otherwise.
    pub fn abs(self) -> (r: Option<Number>)
        requires
            self.wf(),
            self@.layout is Integer ==> self@.layout.spec_bytes() <= 128,
        ensures
            r matches Some(n) ==> n.wf(),
            self.spec_is_positive() ==> opt_model(r) == Some(self@),
            !self.spec_is_positive() && self@.layout is Float ==> opt_model(r) == Some(
                NumberModel { layout: self@.layout, bytes: sign_bit_bytes(self@.bytes, false) },
            ),
            !self.spec_is_positive() && self@.layout.spec_is_signed_int() ==> {
                if seq_ones(self@.bytes) == 1 {
                    r is None
                } else {
                    r matches Some(n) && n@.layout == self@.layout && n.value() == -self.value()
                }
            },
    {
        if self.is_positive() {
            Some(self)
        } else {
            self.applying_sign(false)
        }
    }

    /// Negation: flips the sign of a signed integer or a float.
    pub fn neg(self) -> (r: Option<Number>)
        requires
            self.wf(),
            self@.layout is Integer ==> self@.layout.spec_bytes() <= 128,
        ensures
            r matches Some(n) ==> n.wf(),
            self@.layout.spec_is_unsigned_int() ==> r is None,
            self@.layout is Float ==> opt_model(r) == Some(
                NumberModel {
                    layout: self@.layout,
                    bytes: sign_bit_bytes(self@.bytes, self.spec_is_positive()),
                },
            ),
            self@.layout.spec_is_signed_int() ==> {
                if !self.spec_is_positive() && seq_ones(self@.bytes) == 1 {
                    r is None
                } else {
                    r matches Some(n) && n@.layout == self@.layout && n.value() == -self.value()
                }
            },
    {
        let pos = self.is_positive();
        self.applying_sign(pos)
    }
}

/// `256^n` for `n <= 8`.
fn pow256_exec(n: u16) -> (r: i128)
    requires
        n <= 8,
    ensures
        r == pow256(n as nat),
{
    let mut r: i128 = 1;
    let mut i: u16 = 0;
    while i < n
        invariant
            i <= n,
            n <= 8,
            r == pow256(i as nat),
        decreases n - i,
    {
        proof {
            lemma_pow256_mono((i + 1) as nat, 8);
            crate::num::lemma_pow256_values();
        }
        r = r * 256;
        i = i + 1;
    }
    r
}

} // verus!
