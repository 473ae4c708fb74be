//! Logical shifts of little-endian byte strings of any length, as the general-purpose registers
//! use them.

use vstd::prelude::*;

use vstd::arithmetic::power2::pow2;

use crate::num::{
    le_bytes, le_val, lemma_le_bytes_val, lemma_le_val_bound, lemma_le_val_inj,
    lemma_le_val_prefix, lemma_le_val_push, lemma_pow256_add, lemma_pow256_mono,
    lemma_pow256_pos, lemma_pow2_pow256, pow256,
};
use crate::number::lemma_le_val_zero;

verus! {

broadcast use crate::num::lemma_le_bytes_len;

/// `2^s` for a shift below 8, as a 16-bit mask.
proof fn lemma_pow2_small(s: u8)
    requires
        s < 8,
    ensures
        pow2(s as nat) == (1u16 << s) as nat,
        (1u16 << s) as nat == (1u8 << s) as nat,
{
    vstd::arithmetic::power2::lemma2_to64();
    assert((1u16 << 0u8) == 1u16 && (1u16 << 1u8) == 2u16 && (1u16 << 2u8) == 4u16 && (1u16 << 3u8)
        == 8u16 && (1u16 << 4u8) == 16u16 && (1u16 << 5u8) == 32u16 && (1u16 << 6u8) == 64u16 && (
    1u16 << 7u8) == 128u16) by (bit_vector);
    assert((1u8 << 0u8) == 1u8 && (1u8 << 1u8) == 2u8 && (1u8 << 2u8) == 4u8 && (1u8 << 3u8) == 8u8
        && (1u8 << 4u8) == 16u8 && (1u8 << 5u8) == 32u8 && (1u8 << 6u8) == 64u8 && (1u8 << 7u8)
        == 128u8) by (bit_vector);
}

/// One byte of a left shift by `s` bits: the shifted byte with the carry `c` from below, and the
/// carry it passes up.
proof fn lemma_byte_up(x: u8, c: u8, s: u8)
    requires
        1 <= s <= 7,
        c < (1u8 << s),
    ensures
        ((x << s) | c) as nat + 256 * ((x >> ((8 - s) as u8)) as nat) == (x as nat) * ((1u16 << s) as nat)
            + c as nat,
        (x >> ((8 - s) as u8)) < (1u8 << s),
{
    assert(((((x << s) | c) as u16) + 256u16 * ((x >> ((8 - s) as u8)) as u16)) == (x as u16) * (
    1u16 << s) + (c as u16)) by (bit_vector)
        requires
            1 <= s <= 7,
            c < (1u8 << s),
    ;
    assert((x >> ((8 - s) as u8)) < (1u8 << s)) by (bit_vector)
        requires
            1 <= s <= 7,
    ;
}

/// One byte of a right shift by `s` bits: the byte shifted down with the low bits of the next
/// byte brought in.
proof fn lemma_byte_down(x: u8, y: u8, s: u8)
    requires
        1 <= s <= 7,
    ensures
        (((x >> s) | (y << ((8 - s) as u8))) as nat) * ((1u16 << s) as nat) == x as nat - (x & (((1u8
            << s) - 1) as u8)) as nat + 256 * ((y & (((1u8 << s) - 1) as u8)) as nat),
        (x & (((1u8 << s) - 1) as u8)) < (1u8 << s),
        (x & (((1u8 << s) - 1) as u8)) <= x,
{
    assert((((x >> s) | (y << ((8 - s) as u8))) as u16) * (1u16 << s) + ((x & (((1u8 << s) - 1) as u8))
        as u16) == (x as u16) + 256u16 * ((y & (((1u8 << s) - 1) as u8)) as u16)) by (bit_vector)
        requires
            1 <= s <= 7,
    ;
    assert((x & (((1u8 << s) - 1) as u8)) < (1u8 << s)) by (bit_vector)
        requires
            1 <= s <= 7,
    ;
    assert((x & (((1u8 << s) - 1) as u8)) <= x) by (bit_vector);
}

/// Moves the bytes `k` positions up, filling with zeros and keeping the length.
fn move_up(b: &Vec<u8>, k: usize) -> (r: Vec<u8>)
    ensures
        r@ == le_bytes((le_val(b@) * pow256(k as nat)) as int, b@.len()),
{
    let n = b.len();
    let ghost target = Seq::new(n as nat, |j: int| if j >= k { b@[j - k] } else { 0u8 });
    let mut out: Vec<u8> = Vec::new();
    let mut j: usize = 0;
    while j < n
        invariant
            j <= n,
            n == b@.len(),
            target == Seq::new(n as nat, |j: int| if j >= k { b@[j - k] } else { 0u8 }),
            out@ == target.subrange(0, j as int),
        decreases n - j,
    {
        let v = if j >= k {
            b[j - k]
        } else {
            0u8
        };
        out.push(v);
        j = j + 1;
        assert(out@ =~= target.subrange(0, j as int));
    }
    assert(target.subrange(0, n as int) =~= target);
    proof {
        let x = le_val(b@);
        let nn = n as nat;
        let kk = k as nat;
        lemma_pow256_pos(nn);
        lemma_pow256_pos(kk);
        lemma_le_bytes_val((x * pow256(kk)) as int, nn);
        if kk >= nn {
            lemma_le_val_zero(out@);
            lemma_pow256_add(nn, (kk - nn) as nat);
            assert(kk == nn + (kk - nn) as nat);
            let q = (x * pow256((kk - nn) as nat)) as int;
            assert((x * pow256(kk)) as int == q * (pow256(nn) as int)) by (nonlinear_arith)
                requires
                    pow256(kk) == pow256(nn) * pow256((kk - nn) as nat),
                    q == (x * pow256((kk - nn) as nat)) as int,
            ;
            vstd::arithmetic::div_mod::lemma_mod_multiples_basic(q, pow256(nn) as int);
        } else {
            let m = (nn - kk) as nat;
            lemma_le_val_prefix(out@, kk);
            assert(out@.subrange(0, kk as int) =~= Seq::new(kk, |i: int| 0u8));
            lemma_le_val_zero(out@.subrange(0, kk as int));
            assert(out@.subrange(kk as int, nn as int) =~= b@.subrange(0, m as int));
            lemma_le_val_prefix(b@, m);
            lemma_pow256_add(kk, m);
            assert(kk + m == nn);
            lemma_pow256_pos(m);
            vstd::arithmetic::div_mod::lemma_mod_breakdown(
                (x * pow256(kk)) as int,
                pow256(kk) as int,
                pow256(m) as int,
            );
            vstd::arithmetic::div_mod::lemma_mod_multiples_basic(x as int, pow256(kk) as int);
            vstd::arithmetic::div_mod::lemma_div_multiples_vanish(x as int, pow256(kk) as int);
            assert((x * pow256(kk)) as int == (x as int) * (pow256(kk) as int));
            assert(((x as int) * (pow256(kk) as int)) / (pow256(kk) as int) == x) by (nonlinear_arith)
                requires
                    pow256(kk) > 0,
            ;
        }
        lemma_le_val_inj(out@, le_bytes((x * pow256(kk)) as int, nn));
    }
    out
}

/// Moves the bytes `k` positions down, filling with zeros and keeping the length.
fn move_down(b: &Vec<u8>, k: usize) -> (r: Vec<u8>)
    ensures
        r@ == le_bytes((le_val(b@) / pow256(k as nat)) as int, b@.len()),
{
    let n = b.len();
    let ghost target = Seq::new(n as nat, |j: int| if j + k < n { b@[j + k] } else { 0u8 });
    let mut out: Vec<u8> = Vec::new();
    let mut j: usize = 0;
    while j < n
        invariant
            j <= n,
            n == b@.len(),
            target == Seq::new(n as nat, |j: int| if j + k < n { b@[j + k] } else { 0u8 }),
            out@ == target.subrange(0, j as int),
        decreases n - j,
    {
        let v = if k < n - j {
            b[j + k]
        } else {
            0u8
        };
        out.push(v);
        j = j + 1;
        assert(out@ =~= target.subrange(0, j as int));
    }
    assert(target.subrange(0, n as int) =~= target);
    proof {
        let x = le_val(b@);
        let nn = n as nat;
        let kk = k as nat;
        lemma_pow256_pos(nn);
        lemma_pow256_pos(kk);
        lemma_le_val_bound(b@);
        if kk >= nn {
            lemma_le_val_zero(out@);
            lemma_pow256_mono(nn, kk);
            vstd::arithmetic::div_mod::lemma_basic_div(x as int, pow256(kk) as int);
        } else {
            let m = (nn - kk) as nat;
            lemma_le_val_prefix(b@, kk);
            lemma_le_val_bound(b@.subrange(0, kk as int));
            lemma_le_val_prefix(out@, m);
            assert(out@.subrange(0, m as int) =~= b@.subrange(kk as int, nn as int));
            assert(out@.subrange(m as int, nn as int) =~= Seq::new(kk, |i: int| 0u8));
            lemma_le_val_zero(out@.subrange(m as int, nn as int));
            assert(pow256(m) * le_val(out@.subrange(m as int, nn as int)) == 0) by (nonlinear_arith)
                requires
                    le_val(out@.subrange(m as int, nn as int)) == 0,
            ;
            let q = le_val(b@.subrange(kk as int, nn as int)) as int;
            let rr = le_val(b@.subrange(0, kk as int)) as int;
            assert(x as int == q * (pow256(kk) as int) + rr) by (nonlinear_arith)
                requires
                    rr + pow256(kk) * q == x,
            ;
            vstd::arithmetic::div_mod::lemma_fundamental_div_mod_converse(
                x as int,
                pow256(kk) as int,
                q,
                rr,
            );
            lemma_le_val_bound(out@);
            vstd::arithmetic::div_mod::lemma_small_mod(le_val(out@), pow256(nn));
        }
        lemma_le_bytes_val((x / pow256(kk)) as int, nn);
        if kk >= nn {
            vstd::arithmetic::div_mod::lemma_small_mod(0, pow256(nn));
        }
        lemma_le_val_inj(out@, le_bytes((x / pow256(kk)) as int, nn));
    }
    out
}

/// Shifts the bytes up by `s < 8` bits, dropping the bits beyond the length.
fn bits_up(b: &Vec<u8>, s: u8) -> (r: Vec<u8>)
    requires
        s < 8,
    ensures
        r@ == le_bytes((le_val(b@) * pow2(s as nat)) as int, b@.len()),
{
    let n = b.len();
    proof {
        lemma_pow2_small(s);
    }
    if s == 0 {
        proof {
            vstd::arithmetic::power2::lemma2_to64();
            crate::num::lemma_le_bytes_of_val(b@);
            assert(pow2(0) == 1);
            assert(le_val(b@) * pow2(0) == le_val(b@)) by (nonlinear_arith)
                requires
                    pow2(0) == 1,
            ;
        }
        return crate::number::slice_to_vec(b.as_slice());
    }
    proof {
        assert(1 <= s <= 7 ==> (1u8 << s) > 0u8) by (bit_vector);
        assert(b@.subrange(0, 0) =~= Seq::<u8>::empty());
        assert(le_val(b@.subrange(0, 0)) == 0);
        assert(le_val(Seq::<u8>::empty()) == 0);
        assert(pow256(0) == 1);
        assert(le_val(b@.subrange(0, 0)) * pow2(s as nat) == 0);
    }
    let mut out: Vec<u8> = Vec::new();
    let mut carry: u8 = 0;
    let mut j: usize = 0;
    let ghost p = pow2(s as nat);
    while j < n
        invariant
            j <= n,
            n == b@.len(),
            1 <= s <= 7,
            p == pow2(s as nat),
            p == (1u16 << s) as nat,
            (1u16 << s) as nat == (1u8 << s) as nat,
            out@.len() == j,
            carry < (1u8 << s),
            le_val(out@) + pow256(j as nat) * carry == le_val(b@.subrange(0, j as int)) * p,
        decreases n - j,
    {
        let x = b[j];
        let v = (x << s) | carry;
        let c = x >> (8 - s);
        proof {
            lemma_byte_up(x, carry, s);
            lemma_le_val_push(out@, v);
            let t = b@.subrange(0, j as int + 1);
            assert(t.drop_last() =~= b@.subrange(0, j as int));
            assert(t.last() == x);
            let pj = pow256(j as nat);
            assert(pow256(j as nat + 1) == 256 * pj);
            let lo = le_val(out@);
            let lb = le_val(b@.subrange(0, j as int));
            assert(lo + pj * (v as nat) + (256 * pj) * (c as nat) == (lb + (x as nat) * pj) * p) by (nonlinear_arith)
                requires
                    lo + pj * carry == lb * p,
                    (v as nat) + 256 * (c as nat) == (x as nat) * p + carry as nat,
            ;
        }
        out.push(v);
        carry = c;
        j = j + 1;
    }
    proof {
        assert(b@.subrange(0, n as int) =~= b@);
        let x = le_val(b@);
        let nn = n as nat;
        lemma_pow256_pos(nn);
        lemma_le_val_bound(out@);
        assert((x * p) as int == (carry as int) * (pow256(nn) as int) + le_val(out@) as int) by (nonlinear_arith)
            requires
                le_val(out@) + pow256(nn) * carry == x * p,
        ;
        vstd::arithmetic::div_mod::lemma_fundamental_div_mod_converse(
            (x * p) as int,
            pow256(nn) as int,
            carry as int,
            le_val(out@) as int,
        );
        lemma_le_bytes_val((x * p) as int, nn);
        lemma_le_val_inj(out@, le_bytes((x * p) as int, nn));
    }
    out
}

/// Shifts the bytes down by `s < 8` bits.
fn bits_down(b: &Vec<u8>, s: u8) -> (r: Vec<u8>)
    requires
        s < 8,
    ensures
        r@ == le_bytes((le_val(b@) / pow2(s as nat)) as int, b@.len()),
{
    let n = b.len();
    proof {
        lemma_pow2_small(s);
    }
    if s == 0 {
        proof {
            vstd::arithmetic::power2::lemma2_to64();
            crate::num::lemma_le_bytes_of_val(b@);
            assert(le_val(b@) / 1 == le_val(b@));
        }
        return crate::number::slice_to_vec(b.as_slice());
    }
    proof {
        assert(1 <= s <= 7 ==> (1u8 << s) > 0u8) by (bit_vector);
        assert(b@.subrange(0, 0) =~= Seq::<u8>::empty());
        assert(le_val(b@.subrange(0, 0)) == 0);
        assert(le_val(Seq::<u8>::empty()) == 0);
        assert(pow256(0) == 1);
        assert(le_val(b@.subrange(0, 0)) * pow2(s as nat) == 0);
    }
    let ghost p = pow2(s as nat);
    let mask: u8 = (1u8 << s) - 1;
    let ghost low0: nat = if n > 0 { (b@[0] & mask) as nat } else { 0 };
    let mut out: Vec<u8> = Vec::new();
    let mut j: usize = 0;
    while j < n
        invariant
            j <= n,
            n == b@.len(),
            1 <= s <= 7,
            p == pow2(s as nat),
            p == (1u16 << s) as nat,
            (1u16 << s) as nat == (1u8 << s) as nat,
            mask == ((1u8 << s) - 1) as u8,
            low0 == (if n > 0 { (b@[0] & mask) as nat } else { 0 }),
            out@.len() == j,
            le_val(out@) * p + low0 == le_val(b@.subrange(0, j as int)) + (if j < n {
                (b@[j as int] & mask) as nat
            } else {
                0
            }) * pow256(j as nat),
        decreases n - j,
    {
        let x = b[j];
        let y = if j + 1 < n {
            b[j + 1]
        } else {
            0u8
        };
        let v = (x >> s) | (y << (8 - s));
        proof {
            lemma_byte_down(x, y, s);
            lemma_le_val_push(out@, v);
            let t = b@.subrange(0, j as int + 1);
            assert(t.drop_last() =~= b@.subrange(0, j as int));
            assert(t.last() == x);
            let pj = pow256(j as nat);
            assert(pow256(j as nat + 1) == 256 * pj);
            let lo = le_val(out@);
            let lb = le_val(b@.subrange(0, j as int));
            let lx = (x & mask) as nat;
            let ly = (y & mask) as nat;
            assert(y == 0u8 ==> (y & mask) == 0u8) by (bit_vector);
            assert((lo + (v as nat) * pj) * p + low0 == lb + (x as nat) * pj + ly * (256 * pj)) by (nonlinear_arith)
                requires
                    lo * p + low0 == lb + lx * pj,
                    (v as nat) * p == (x as nat) - lx + 256 * ly,
                    lx <= x,
            ;
        }
        out.push(v);
        j = j + 1;
    }
    proof {
        assert(b@.subrange(0, n as int) =~= b@);
        let x = le_val(b@);
        if n > 0 {
            lemma_byte_down(b@[0], 0, s);
            assert(low0 < p);
        }
        vstd::arithmetic::div_mod::lemma_fundamental_div_mod_converse(
            x as int,
            p as int,
            le_val(out@) as int,
            low0 as int,
        );
        let nn = n as nat;
        lemma_pow256_pos(nn);
        lemma_le_val_bound(out@);
        vstd::arithmetic::div_mod::lemma_small_mod(le_val(out@), pow256(nn));
        lemma_le_bytes_val((x / p) as int, nn);
        lemma_le_val_inj(out@, le_bytes((x / p) as int, nn));
    }
    out
}

/// Shifts a byte string left by `shift` bits within its length: the value times `2^shift`,
/// with the bits beyond the length dropped.
pub fn shl_bytes(b: &Vec<u8>, shift: usize) -> (r: Vec<u8>)
    ensures
        r@ == le_bytes((le_val(b@) * pow2(shift as nat)) as int, b@.len()),
{
    let t = move_up(b, shift / 8);
    let r = bits_up(&t, (shift % 8) as u8);
    proof {
        let x = le_val(b@);
        let nn = b@.len();
        let ws = (shift / 8) as nat;
        let bs = (shift % 8) as nat;
        lemma_pow256_pos(nn);
        lemma_le_bytes_val((x * pow256(ws)) as int, nn);
        lemma_pow2_pow256(ws);
        vstd::arithmetic::power2::lemma_pow2_adds(8 * ws, bs);
        assert(8 * ws + bs == shift as nat);
        vstd::arithmetic::div_mod::lemma_mul_mod_noop_left(
            (x * pow256(ws)) as int,
            pow2(bs) as int,
            pow256(nn) as int,
        );
        assert(((x * pow256(ws)) * pow2(bs)) as int == (x * pow2(shift as nat)) as int) by (nonlinear_arith)
            requires
                pow2(shift as nat) == pow2(8 * ws) * pow2(bs),
                pow2(8 * ws) == pow256(ws),
        ;
        crate::num::lemma_cut_le_bytes(
            (le_val(t@) * pow2(bs)) as int,
            (x * pow2(shift as nat)) as int,
            nn,
            nn,
        );
        assert(r@.subrange(0, nn as int) =~= r@);
    }
    r
}

/// Shifts a byte string right by `shift` bits: the value divided by `2^shift`.
pub fn shr_bytes(b: &Vec<u8>, shift: usize) -> (r: Vec<u8>)
    ensures
        r@ == le_bytes((le_val(b@) / pow2(shift as nat)) as int, b@.len()),
{
    let t = move_down(b, shift / 8);
    let r = bits_down(&t, (shift % 8) as u8);
    proof {
        let x = le_val(b@);
        let nn = b@.len();
        let ws = (shift / 8) as nat;
        let bs = (shift % 8) as nat;
        lemma_pow256_pos(nn);
        lemma_pow256_pos(ws);
        lemma_le_val_bound(b@);
        lemma_le_bytes_val((x / pow256(ws)) as int, nn);
        vstd::arithmetic::div_mod::lemma_div_pos_is_pos(x as int, pow256(ws) as int);
        vstd::arithmetic::div_mod::lemma_div_is_ordered_by_denominator(x as int, 1, pow256(ws) as int);
        vstd::arithmetic::div_mod::lemma_small_mod((x / pow256(ws)) as nat, pow256(nn));
        lemma_pow2_pow256(ws);
        vstd::arithmetic::power2::lemma_pow2_adds(8 * ws, bs);
        vstd::arithmetic::power2::lemma_pow2_pos(bs);
        assert(8 * ws + bs == shift as nat);
        vstd::arithmetic::div_mod::lemma_div_denominator(x as int, pow256(ws) as int, pow2(bs) as int);
    }
    r
}

} // verus!
