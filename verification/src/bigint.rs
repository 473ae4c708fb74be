//! 1024-bit integer arithmetic of the `amplify` crate, on 128-byte little-endian strings.

use vstd::prelude::*;

use amplify::num::{i1024, u1024};

use vstd::arithmetic::power2::pow2;

use crate::num::{le_bytes, le_val, pow256, sle_val};

verus! {

/// Smallest value of a 1024-bit two's complement integer.
pub open spec fn i1024_min() -> int {
    -(pow256(128) as int) / 2
}

/// Two's complement negation at 1024 bits: the minimum value negates to itself.
pub open spec fn i1024_wrapping_neg(x: int) -> int {
    if x == i1024_min() {
        x
    } else {
        -x
    }
}

/// Outcome of `i1024::checked_add` on two values, following its source: the sum wraps at
/// 1024 bits and overflow is reported when neither operand is the minimum, both have one
/// sign and the wrapped sum has the other.
pub open spec fn i1024_add_outcome(x: int, y: int) -> Option<Seq<u8>> {
    let w = le_bytes(x + y, 128);
    if x != i1024_min() && y != i1024_min() && (x < 0) == (y < 0) && (x < 0) != (sle_val(w)
        < 0) {
        None
    } else {
        Some(w)
    }
}

/// Truncating (towards zero) integer division.
pub open spec fn trunc_div(x: int, y: int) -> int {
    let q = (if x < 0 { -x } else { x }) / (if y < 0 { -y } else { y });
    if (x < 0) == (y < 0) {
        q
    } else {
        -q
    }
}

/// Euclidean quotient: `x == q * y + r` with `0 <= r < |y|`.
pub open spec fn euclid_div(x: int, y: int) -> int {
    if y > 0 {
        x / y
    } else {
        -(x / (-y))
    }
}

/// Number of significant bits of a natural number.
pub open spec fn bit_len(v: nat) -> nat
    decreases v,
{
    if v == 0 {
        0
    } else {
        1 + bit_len(v / 2)
    }
}

/// Magnitude of an integer.
pub open spec fn magnitude(x: int) -> int {
    if x < 0 {
        -x
    } else {
        x
    }
}

/// Inputs on which signed division of the `amplify` crate panics or is not relied upon: a
/// zero divisor; the minimum value divided by a positive number (the remainder's negation
/// panics); the minimum value as divisor of a number of magnitude below `2^1022` other than the
/// minimum, and, away from the minimum, operands of different signs where the dividend is
/// shorter in bits than the divisor (the shift amount underflows in both).
pub open spec fn i1024_div_refused(x: int, y: int) -> bool {
    ||| y == 0
    ||| x == i1024_min() && y > 0
    ||| y == i1024_min() && x != i1024_min() && magnitude(x) < -i1024_min() / 2
    ||| x != i1024_min() && y != i1024_min() && (x < 0) != (y < 0) && bit_len(
        magnitude(x) as nat,
    ) < bit_len(magnitude(y) as nat)
}

/// Quotient `i1024::checked_div` of the `amplify` crate gives on inputs it does not refuse,
/// following its source: rounded towards zero away from the minimum value. The minimum divided
/// by -1 gives nothing; by itself, one; by another negative number, zero (its magnitude wraps
/// to itself and compares below the divisor). The minimum as divisor gives one for a negative
/// dividend and minus one for a non-negative one.
pub open spec fn i1024_div_outcome(x: int, y: int) -> Option<int> {
    if x == i1024_min() {
        if y == -1 {
            None
        } else if y == i1024_min() {
            Some(1)
        } else {
            Some(0)
        }
    } else if y == i1024_min() {
        Some(if x < 0 { 1 } else { -1 })
    } else {
        Some(trunc_div(x, y))
    }
}

/// Quotient `i1024::checked_div_euclid` of the `amplify` crate gives on inputs it does not
/// refuse: the quotient of [`i1024_div_outcome`] moved by one where the remainder that goes
/// with it is negative. It is Euclidean away from the minimum value; the minimum divided by a
/// negative number other than -1 gives one.
pub open spec fn i1024_euclid_outcome(x: int, y: int) -> Option<int> {
    if x == i1024_min() {
        if y == -1 {
            None
        } else {
            Some(1)
        }
    } else if y == i1024_min() {
        Some(if x < 0 { 1 } else { 0 })
    } else {
        Some(euclid_div(x, y))
    }
}

/// 128 bytes of an optional quotient.
pub open spec fn quotient_bytes(q: Option<int>) -> Option<Seq<u8>> {
    match q {
        Some(v) => Some(le_bytes(v, 128)),
        None => None,
    }
}

/// What `i1024::checked_mul` of the `amplify` crate gives for two 128-byte operands.
pub uninterp spec fn i1024_checked_mul_of(a: Seq<u8>, b: Seq<u8>) -> Option<Seq<u8>>;

/// Whether a value fits a 1024-bit two's complement integer.
pub open spec fn in_i1024(x: int) -> bool {
    i1024_min() <= x < -i1024_min()
}

/// `u1024::checked_add` of the `amplify` crate: the exact sum, or `None` when it does not fit
/// in 1024 bits.
#[verifier::external_body]
pub(crate) fn u1024_checked_add(a: &Vec<u8>, b: &Vec<u8>) -> (r: Option<Vec<u8>>)
    requires
        a@.len() == 128,
        b@.len() == 128,
    ensures
        r is None <==> le_val(a@) + le_val(b@) >= pow256(128),
        r matches Some(v) ==> v@ == le_bytes((le_val(a@) + le_val(b@)) as int, 128),
{
    let x = u1024::from_le_slice(a.as_slice()).unwrap();
    let y = u1024::from_le_slice(b.as_slice()).unwrap();
    x.checked_add(y).map(|v| v.to_le_bytes().to_vec())
}

/// `u1024::checked_sub` of the `amplify` crate: the exact difference, or `None` when it would
/// be negative.
#[verifier::external_body]
pub(crate) fn u1024_checked_sub(a: &Vec<u8>, b: &Vec<u8>) -> (r: Option<Vec<u8>>)
    requires
        a@.len() == 128,
        b@.len() == 128,
    ensures
        r is None <==> le_val(a@) < le_val(b@),
        r matches Some(v) ==> v@ == le_bytes(le_val(a@) - le_val(b@), 128),
{
    let x = u1024::from_le_slice(a.as_slice()).unwrap();
    let y = u1024::from_le_slice(b.as_slice()).unwrap();
    x.checked_sub(y).map(|v| v.to_le_bytes().to_vec())
}

/// `u1024::checked_mul` of the `amplify` crate: the exact product, or `None` when it does not
/// fit in 1024 bits.
#[verifier::external_body]
pub(crate) fn u1024_checked_mul(a: &Vec<u8>, b: &Vec<u8>) -> (r: Option<Vec<u8>>)
    requires
        a@.len() == 128,
        b@.len() == 128,
    ensures
        r is None <==> le_val(a@) * le_val(b@) >= pow256(128),
        r matches Some(v) ==> v@ == le_bytes((le_val(a@) * le_val(b@)) as int, 128),
{
    let x = u1024::from_le_slice(a.as_slice()).unwrap();
    let y = u1024::from_le_slice(b.as_slice()).unwrap();
    x.checked_mul(y).map(|v| v.to_le_bytes().to_vec())
}

/// `u1024::checked_div` of the `amplify` crate: the floor quotient, or `None` for a zero
/// divisor.
#[verifier::external_body]
pub(crate) fn u1024_checked_div(a: &Vec<u8>, b: &Vec<u8>) -> (r: Option<Vec<u8>>)
    requires
        a@.len() == 128,
        b@.len() == 128,
    ensures
        r is None <==> le_val(b@) == 0,
        r matches Some(v) ==> v@ == le_bytes((le_val(a@) / le_val(b@)) as int, 128),
{
    let x = u1024::from_le_slice(a.as_slice()).unwrap();
    let y = u1024::from_le_slice(b.as_slice()).unwrap();
    x.checked_div(y).map(|v| v.to_le_bytes().to_vec())
}

/// `u1024 % u1024` of the `amplify` crate: the remainder of floor division by a non-zero
/// divisor (the operator panics on a zero one).
#[verifier::external_body]
pub(crate) fn u1024_rem(a: &Vec<u8>, b: &Vec<u8>) -> (r: Vec<u8>)
    requires
        a@.len() == 128,
        b@.len() == 128,
        le_val(b@) != 0,
    ensures
        r@ == le_bytes((le_val(a@) % le_val(b@)) as int, 128),
{
    let x = u1024::from_le_slice(a.as_slice()).unwrap();
    let y = u1024::from_le_slice(b.as_slice()).unwrap();
    (x % y).to_le_bytes().to_vec()
}

/// `i1024::checked_add` of the `amplify` crate, as its source computes it (see
/// [`i1024_add_outcome`]).
#[verifier::external_body]
pub(crate) fn i1024_checked_add(a: &Vec<u8>, b: &Vec<u8>) -> (r: Option<Vec<u8>>)
    requires
        a@.len() == 128,
        b@.len() == 128,
    ensures
        r is None <==> i1024_add_outcome(sle_val(a@), sle_val(b@)) is None,
        r matches Some(v) ==> Some(v@) == i1024_add_outcome(sle_val(a@), sle_val(b@)),
{
    let x = i1024::from_le_slice(a.as_slice()).unwrap();
    let y = i1024::from_le_slice(b.as_slice()).unwrap();
    x.checked_add(y).map(|v| v.to_le_bytes().to_vec())
}

/// `i1024::checked_sub` of the `amplify` crate: its source adds the wrapped negation of the
/// subtrahend (see [`i1024_add_outcome`]).
#[verifier::external_body]
pub(crate) fn i1024_checked_sub(a: &Vec<u8>, b: &Vec<u8>) -> (r: Option<Vec<u8>>)
    requires
        a@.len() == 128,
        b@.len() == 128,
    ensures
        r is None <==> i1024_add_outcome(sle_val(a@), i1024_wrapping_neg(sle_val(b@))) is None,
        r matches Some(v) ==> Some(v@) == i1024_add_outcome(
            sle_val(a@),
            i1024_wrapping_neg(sle_val(b@)),
        ),
{
    let x = i1024::from_le_slice(a.as_slice()).unwrap();
    let y = i1024::from_le_slice(b.as_slice()).unwrap();
    x.checked_sub(y).map(|v| v.to_le_bytes().to_vec())
}

/// `i1024::checked_mul` of the `amplify` crate. Its result is named by
/// [`i1024_checked_mul_of`] on all inputs: with the minimum value as left operand its Booth
/// multiplication subtracts the minimum itself, and the contract says nothing more there. On
/// other left operands it is the exact product, or `None` when that leaves the 1024-bit range.
#[verifier::external_body]
pub(crate) fn i1024_checked_mul(a: &Vec<u8>, b: &Vec<u8>) -> (r: Option<Vec<u8>>)
    requires
        a@.len() == 128,
        b@.len() == 128,
    ensures
        r.deep_view() == i1024_checked_mul_of(a@, b@),
        r matches Some(v) ==> v@.len() == 128,
        sle_val(a@) != i1024_min() ==> (r is None <==> !in_i1024(sle_val(a@) * sle_val(b@))),
        sle_val(a@) != i1024_min() ==> (r matches Some(v) ==> v@ == le_bytes(
            sle_val(a@) * sle_val(b@),
            128,
        )),
{
    let x = i1024::from_le_slice(a.as_slice()).unwrap();
    let y = i1024::from_le_slice(b.as_slice()).unwrap();
    x.checked_mul(y).map(|v| v.to_le_bytes().to_vec())
}

/// `i1024::checked_div` of the `amplify` crate, on the inputs it does not panic on and is
/// relied upon for (see [`i1024_div_refused`]), as its source computes it (see
/// [`i1024_div_outcome`]).
#[verifier::external_body]
pub(crate) fn i1024_checked_div(a: &Vec<u8>, b: &Vec<u8>) -> (r: Option<Vec<u8>>)
    requires
        a@.len() == 128,
        b@.len() == 128,
        !i1024_div_refused(sle_val(a@), sle_val(b@)),
    ensures
        r.deep_view() == quotient_bytes(i1024_div_outcome(sle_val(a@), sle_val(b@))),
{
    let x = i1024::from_le_slice(a.as_slice()).unwrap();
    let y = i1024::from_le_slice(b.as_slice()).unwrap();
    x.checked_div(y).map(|v| v.to_le_bytes().to_vec())
}

/// `i1024::checked_div_euclid` of the `amplify` crate, on the inputs it does not panic on and
/// is relied upon for (see [`i1024_div_refused`]), as its source computes it (see
/// [`i1024_euclid_outcome`]).
#[verifier::external_body]
pub(crate) fn i1024_checked_div_euclid(a: &Vec<u8>, b: &Vec<u8>) -> (r: Option<Vec<u8>>)
    requires
        a@.len() == 128,
        b@.len() == 128,
        !i1024_div_refused(sle_val(a@), sle_val(b@)),
    ensures
        r.deep_view() == quotient_bytes(i1024_euclid_outcome(sle_val(a@), sle_val(b@))),
{
    let x = i1024::from_le_slice(a.as_slice()).unwrap();
    let y = i1024::from_le_slice(b.as_slice()).unwrap();
    x.checked_div_euclid(y).map(|v| v.to_le_bytes().to_vec())
}

/// Value of a logical right shift at 1024 bits with the top bit then set again for negative
/// numbers, as the signed shift of the `amplify` crate computes it.
pub open spec fn top_fill(l: nat, negative: bool) -> nat {
    if negative && l < pow2(1023) {
        l + pow2(1023)
    } else {
        l
    }
}

/// `u1024::checked_shl` of the `amplify` crate: `None` for a shift of 1024 bits or more, else
/// the value shifted left with the bits beyond 1024 dropped.
#[verifier::external_body]
pub(crate) fn u1024_checked_shl(a: &Vec<u8>, shift: u32) -> (r: Option<Vec<u8>>)
    requires
        a@.len() == 128,
    ensures
        r is None <==> shift >= 1024,
        r matches Some(v) ==> v@ == le_bytes((le_val(a@) * pow2(shift as nat)) as int, 128),
{
    let x = u1024::from_le_slice(a.as_slice()).unwrap();
    x.checked_shl(shift).map(|v| v.to_le_bytes().to_vec())
}

/// `i1024::checked_shl` of the `amplify` crate: its source shifts the two's complement bit
/// pattern as the unsigned shift does.
#[verifier::external_body]
pub(crate) fn i1024_checked_shl(a: &Vec<u8>, shift: u32) -> (r: Option<Vec<u8>>)
    requires
        a@.len() == 128,
    ensures
        r is None <==> shift >= 1024,
        r matches Some(v) ==> v@ == le_bytes((le_val(a@) * pow2(shift as nat)) as int, 128),
{
    let x = i1024::from_le_slice(a.as_slice()).unwrap();
    x.checked_shl(shift).map(|v| v.to_le_bytes().to_vec())
}

/// `u1024::checked_shr` of the `amplify` crate: `None` for a shift of 1024 bits or more, else
/// the floor quotient by `2^shift`.
#[verifier::external_body]
pub(crate) fn u1024_checked_shr(a: &Vec<u8>, shift: u32) -> (r: Option<Vec<u8>>)
    requires
        a@.len() == 128,
    ensures
        r is None <==> shift >= 1024,
        r matches Some(v) ==> v@ == le_bytes((le_val(a@) / pow2(shift as nat)) as int, 128),
{
    let x = u1024::from_le_slice(a.as_slice()).unwrap();
    x.checked_shr(shift).map(|v| v.to_le_bytes().to_vec())
}

/// `i1024::checked_shr` of the `amplify` crate: its source shifts the bit pattern right, filling
/// with zeros, and then sets the top bit when the number was negative (see [`top_fill`]).
#[verifier::external_body]
pub(crate) fn i1024_checked_shr(a: &Vec<u8>, shift: u32) -> (r: Option<Vec<u8>>)
    requires
        a@.len() == 128,
    ensures
        r is None <==> shift >= 1024,
        r matches Some(v) ==> v@ == le_bytes(
            top_fill(le_val(a@) / pow2(shift as nat), a@.last() >= 0x80) as int,
            128,
        ),
{
    let x = i1024::from_le_slice(a.as_slice()).unwrap();
    x.checked_shr(shift).map(|v| v.to_le_bytes().to_vec())
}

/// `i1024::abs` of the `amplify` crate: the magnitude, as its source computes it for a
/// negative value by inverting the bits and adding one; not relied upon for the minimum value.
#[verifier::external_body]
fn i1024_abs(a: &Vec<u8>) -> (r: Vec<u8>)
    requires
        a@.len() == 128,
        sle_val(a@) != i1024_min(),
    ensures
        r@ == le_bytes(magnitude(sle_val(a@)), 128),
{
    let x = i1024::from_le_slice(a.as_slice()).unwrap();
    x.abs().to_le_bytes().to_vec()
}

/// `i1024::bits_required` of the `amplify` crate on a non-negative value: its source counts
/// the significant bits and one for the sign.
#[verifier::external_body]
fn i1024_bits_required(a: &Vec<u8>) -> (r: usize)
    requires
        a@.len() == 128,
        sle_val(a@) >= 0,
    ensures
        r == bit_len(le_val(a@)) + 1,
{
    let x = i1024::from_le_slice(a.as_slice()).unwrap();
    x.bits_required()
}

/// Whether 128 bytes are the smallest 1024-bit value.
fn is_i1024_min(a: &Vec<u8>) -> (r: bool)
    requires
        a@.len() == 128,
    ensures
        r == (sle_val(a@) == i1024_min()),
{
    let mut zero = true;
    let mut i: usize = 0;
    while i < 127
        invariant
            i <= 127,
            a@.len() == 128,
            zero <==> (forall|j: int| 0 <= j < i ==> a@[j] == 0),
        decreases 127 - i,
    {
        if a[i] != 0 {
            zero = false;
        }
        i += 1;
    }
    let r = zero && a[127] == 0x80;
    proof {
        let p = a@.drop_last();
        assert(forall|j: int| 0 <= j < 127 ==> p[j] == a@[j]);
        crate::number::lemma_le_val_zero(p);
        crate::num::lemma_le_val_top(a@, 128);
        crate::num::lemma_le_val_bound(p);
        crate::num::lemma_le_val_bound(a@);
        let q = pow256(127);
        assert(pow256(128) == 256 * q);
        assert(i1024_min() == -128 * q);
        crate::num::lemma_pow256_pos(127);
        let lp = le_val(p);
        let t = a@.last() as int;
        assert(le_val(a@) == lp + t * q);
        assert(p.len() == 127);
        assert((forall|j: int| 0 <= j < 127 ==> a@[j] == 0) <==> (forall|j: int|
            0 <= j < p.len() ==> #[trigger] p[j] == 0)) by {
            if forall|j: int| 0 <= j < 127 ==> a@[j] == 0 {
                assert forall|j: int| 0 <= j < p.len() implies #[trigger] p[j] == 0 by {
                    assert(p[j] == a@[j]);
                }
            }
            if forall|j: int| 0 <= j < p.len() ==> #[trigger] p[j] == 0 {
                assert forall|j: int| 0 <= j < 127 implies a@[j] == 0 by {
                    assert(p[j] == a@[j]);
                }
            }
        }
        assert(zero <==> lp == 0);
        if t >= 128 {
            assert(sle_val(a@) == lp + t * q - 256 * q);
            assert((lp + t * q - 256 * q == -128 * q) <==> (lp == 0 && t == 128)) by (nonlinear_arith)
                requires
                    0 <= lp < q,
                    128 <= t < 256,
                    q > 0,
            ;
        } else {
            assert(sle_val(a@) == le_val(a@));
        }
    }
    r
}

/// Whether the top byte of 128 bytes has its sign bit set: whether they are negative.
proof fn lemma_sign_byte(a: Seq<u8>)
    requires
        a.len() == 128,
    ensures
        (sle_val(a) < 0) == (a.last() >= 0x80),
        sle_val(a) != i1024_min() ==> magnitude(sle_val(a)) < -i1024_min(),
        le_val(a) != 0 ==> sle_val(a) != 0,
        i1024_min() <= sle_val(a),
{
    crate::num::lemma_le_val_bound(a);
    crate::num::lemma_le_val_top(a, 128);
    crate::num::lemma_le_val_bound(a.drop_last());
    let q = pow256(127);
    assert(pow256(128) == 256 * q);
    assert(i1024_min() == -128 * q);
}

/// Magnitude bytes of a value other than the minimum: their value is the magnitude, their top
/// bit is clear.
proof fn lemma_magnitude_bytes(x: int)
    requires
        i1024_min() < x < -i1024_min(),
    ensures
        le_val(le_bytes(magnitude(x), 128)) == magnitude(x),
        sle_val(le_bytes(magnitude(x), 128)) == magnitude(x),
        le_bytes(magnitude(x), 128).len() == 128,
        (le_bytes(magnitude(x), 128).last() < 64) == (magnitude(x) < -i1024_min() / 2),
{
    let m = magnitude(x);
    let q = pow256(127);
    assert(pow256(128) == 256 * q);
    assert(i1024_min() == -128 * q);
    crate::num::lemma_pow256_pos(127);
    crate::num::lemma_le_bytes_val(m, 128);
    vstd::arithmetic::div_mod::lemma_small_mod(m as nat, pow256(128));
    let b = le_bytes(m, 128);
    crate::num::lemma_le_val_top(b, 128);
    crate::num::lemma_le_val_top(b, 64);
}

/// Whether signed division of the `amplify` crate is refused on two non-zero numbers (see
/// [`i1024_div_refused`]), given their bytes extended to 1024 bits.
pub(crate) fn div_refused_exec(a: &Vec<u8>, b: &Vec<u8>) -> (r: bool)
    requires
        a@.len() == 128,
        b@.len() == 128,
        le_val(a@) != 0,
        le_val(b@) != 0,
    ensures
        r == i1024_div_refused(sle_val(a@), sle_val(b@)),
{
    proof {
        lemma_sign_byte(a@);
        lemma_sign_byte(b@);
    }
    let x_min = is_i1024_min(a);
    let y_min = is_i1024_min(b);
    let x_neg = a[127] >= 0x80;
    let y_neg = b[127] >= 0x80;
    if x_min {
        return !y_neg;
    }
    let ma = i1024_abs(a);
    proof {
        lemma_magnitude_bytes(sle_val(a@));
    }
    if y_min {
        return ma[127] < 64;
    }
    if x_neg == y_neg {
        return false;
    }
    let mb = i1024_abs(b);
    proof {
        lemma_magnitude_bytes(sle_val(b@));
    }
    i1024_bits_required(&ma) < i1024_bits_required(&mb)
}

} // verus!
