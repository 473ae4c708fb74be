//! Mathematical reading of little-endian byte strings.

use vstd::prelude::*;

use vstd::arithmetic::power2::pow2;

verus! {

/// `256^n`.
pub open spec fn pow256(n: nat) -> nat
    decreases n,
{
    if n == 0 {
        1
    } else {
        256 * pow256((n - 1) as nat)
    }
}

/// Unsigned value of a little-endian byte string.
pub open spec fn le_val(s: Seq<u8>) -> nat
    decreases s.len(),
{
    if s.len() == 0 {
        0
    } else {
        le_val(s.drop_last()) + (s.last() as nat) * pow256((s.len() - 1) as nat)
    }
}

/// Two's complement value of a little-endian byte string.
pub open spec fn sle_val(s: Seq<u8>) -> int {
    if s.len() > 0 && s.last() >= 0x80 {
        le_val(s) - pow256(s.len())
    } else {
        le_val(s) as int
    }
}

/// Little-endian digits of a natural number, `n` of them.
pub open spec fn le_digits(x: nat, n: nat) -> Seq<u8>
    decreases n,
{
    if n == 0 {
        Seq::empty()
    } else {
        le_digits(x, (n - 1) as nat).push(((x / pow256((n - 1) as nat)) % 256) as u8)
    }
}

/// Little-endian encoding of `x` (taken modulo `256^n`) in exactly `n` bytes.
pub open spec fn le_bytes(x: int, n: nat) -> Seq<u8> {
    le_digits((x % (pow256(n) as int)) as nat, n)
}

pub proof fn lemma_pow256_pos(n: nat)
    ensures
        pow256(n) >= 1,
    decreases n,
{
    if n > 0 {
        lemma_pow256_pos((n - 1) as nat);
    }
}

pub proof fn lemma_pow256_mono(a: nat, b: nat)
    requires
        a <= b,
    ensures
        pow256(a) <= pow256(b),
    decreases b,
{
    if a < b {
        lemma_pow256_mono(a, (b - 1) as nat);
        lemma_pow256_pos((b - 1) as nat);
    }
}

pub proof fn lemma_pow256_add(a: nat, b: nat)
    ensures
        pow256(a + b) == pow256(a) * pow256(b),
    decreases b,
{
    if b == 0 {
        assert(a + b == a);
        assert(pow256(b) == 1);
    } else {
        lemma_pow256_add(a, (b - 1) as nat);
        let pa = pow256(a);
        let pb1 = pow256((b - 1) as nat);
        assert((a + b - 1) as nat == a + (b - 1) as nat);
        assert(pow256(a + b) == 256 * pow256((a + b - 1) as nat));
        assert(pow256((a + b - 1) as nat) == pa * pb1);
        assert(pow256(b) == 256 * pb1);
        assert(256 * (pa * pb1) == pa * (256 * pb1)) by (nonlinear_arith);
    }
}

/// Powers of 256 used for machine integer widths.
pub proof fn lemma_pow256_values()
    ensures
        pow256(1) == 0x100,
        pow256(2) == 0x1_0000,
        pow256(4) == 0x1_0000_0000,
        pow256(8) == 0x1_0000_0000_0000_0000,
        pow256(16) == 0x1_0000_0000_0000_0000_0000_0000_0000_0000,
{
    reveal_with_fuel(pow256, 3);
    assert(pow256(2) == 0x1_0000);
    lemma_pow256_add(2, 2);
    assert(pow256(4) == 0x1_0000 * 0x1_0000);
    lemma_pow256_add(4, 4);
    assert(pow256(8) == 0x1_0000_0000 * 0x1_0000_0000);
    lemma_pow256_add(8, 8);
    assert(pow256(16) == 0x1_0000_0000_0000_0000 * 0x1_0000_0000_0000_0000);
}

/// The value of `n` bytes is below `256^n`.
pub proof fn lemma_le_val_bound(s: Seq<u8>)
    ensures
        le_val(s) < pow256(s.len()),
    decreases s.len(),
{
    if s.len() > 0 {
        let n = (s.len() - 1) as nat;
        lemma_le_val_bound(s.drop_last());
        lemma_pow256_pos(n);
        let p = pow256(n);
        let l = s.last() as nat;
        assert(le_val(s.drop_last()) + l * p < 256 * p) by (nonlinear_arith)
            requires
                le_val(s.drop_last()) < p,
                l <= 255,
        ;
    }
}

/// Appending a byte adds it at the next significance.
pub proof fn lemma_le_val_push(s: Seq<u8>, b: u8)
    ensures
        le_val(s.push(b)) == le_val(s) + (b as nat) * pow256(s.len()),
{
    assert(s.push(b).drop_last() =~= s);
}

/// The value of a prefix is the value of the whole taken modulo the prefix range.
pub proof fn lemma_le_val_prefix(s: Seq<u8>, k: nat)
    requires
        k <= s.len(),
    ensures
        le_val(s.subrange(0, k as int)) == le_val(s) % pow256(k),
        le_val(s.subrange(0, k as int)) + pow256(k) * le_val(s.subrange(k as int, s.len() as int))
            == le_val(s),
    decreases s.len(),
{
    lemma_pow256_pos(k);
    if k == s.len() {
        assert(s.subrange(0, k as int) =~= s);
        assert(s.subrange(k as int, s.len() as int) =~= Seq::<u8>::empty());
        assert(le_val(s.subrange(k as int, s.len() as int)) == 0);
        lemma_le_val_bound(s);
        vstd::arithmetic::div_mod::lemma_small_mod(le_val(s), pow256(k));
    } else {
        let t = s.drop_last();
        lemma_le_val_prefix(t, k);
        assert(t.subrange(0, k as int) =~= s.subrange(0, k as int));
        let hi = s.subrange(k as int, s.len() as int);
        assert(hi.drop_last() =~= t.subrange(k as int, t.len() as int));
        assert(hi.last() == s.last());
        let m = (s.len() - 1) as nat;
        lemma_pow256_add(k, (m - k) as nat);
        let p = pow256(k);
        let q = pow256((m - k) as nat);
        let a = le_val(t.subrange(k as int, t.len() as int));
        let l = s.last() as nat;
        assert(le_val(hi) == a + l * q);
        assert(p * (a + l * q) == p * a + l * (p * q)) by (nonlinear_arith);
        let lo = le_val(s.subrange(0, k as int));
        lemma_le_val_bound(s.subrange(0, k as int));
        assert(le_val(s) == lo + p * le_val(hi));
        assert(p * le_val(hi) == le_val(hi) * p) by (nonlinear_arith);
        vstd::arithmetic::div_mod::lemma_fundamental_div_mod_converse(
            le_val(s) as int,
            p as int,
            le_val(hi) as int,
            lo as int,
        );
    }
}

pub proof fn lemma_le_digits_val(x: nat, n: nat)
    ensures
        le_digits(x, n).len() == n,
        le_val(le_digits(x, n)) == x % pow256(n),
    decreases n,
{
    lemma_pow256_pos(n);
    if n > 0 {
        let m = (n - 1) as nat;
        lemma_le_digits_val(x, m);
        lemma_pow256_pos(m);
        let p = pow256(m) as int;
        let d = (x as int / p) % 256;
        lemma_le_val_push(le_digits(x, m), d as u8);
        vstd::arithmetic::div_mod::lemma_mod_breakdown(x as int, p, 256);
        assert(p * 256 == pow256(n)) by (nonlinear_arith)
            requires
                pow256(n) == 256 * p,
        ;
        assert((x as int) % (p * 256) == p * d + (x as int) % p);
        assert(0 <= d < 256);
        assert((d as u8) as int == d);
        assert(le_digits(x, n) == le_digits(x, m).push(d as u8));
        assert(le_val(le_digits(x, n)) == (x as int) % p + (d as u8 as nat) * pow256(m));
        assert((d as u8 as nat) * pow256(m) == p * d) by (nonlinear_arith)
            requires
                d as u8 as nat == d,
                p == pow256(m),
        ;
    } else {
        assert(x % 1 == 0);
    }
}

/// Encoding then reading back gives the value modulo `256^n`.
pub proof fn lemma_le_bytes_val(x: int, n: nat)
    ensures
        le_bytes(x, n).len() == n,
        le_val(le_bytes(x, n)) == x % (pow256(n) as int),
{
    lemma_pow256_pos(n);
    let r = x % (pow256(n) as int);
    lemma_le_digits_val(r as nat, n);
    vstd::arithmetic::div_mod::lemma_mod_twice(x, pow256(n) as int);
}

/// Encodings have the requested length.
pub broadcast proof fn lemma_le_bytes_len(x: int, n: nat)
    ensures
        #[trigger] le_bytes(x, n).len() == n,
{
    lemma_le_bytes_val(x, n);
}

/// Bytes are determined by their value and length.
pub proof fn lemma_le_val_inj(s: Seq<u8>, t: Seq<u8>)
    requires
        s.len() == t.len(),
        le_val(s) == le_val(t),
    ensures
        s == t,
    decreases s.len(),
{
    if s.len() > 0 {
        let n = (s.len() - 1) as nat;
        let p = pow256(n);
        lemma_le_val_bound(s.drop_last());
        lemma_le_val_bound(t.drop_last());
        lemma_pow256_pos(n);
        let a = le_val(s.drop_last());
        let b = le_val(t.drop_last());
        let x = s.last() as int;
        let y = t.last() as int;
        vstd::arithmetic::div_mod::lemma_fundamental_div_mod_converse(
            le_val(s) as int,
            p as int,
            x,
            a as int,
        );
        vstd::arithmetic::div_mod::lemma_fundamental_div_mod_converse(
            le_val(t) as int,
            p as int,
            y,
            b as int,
        );
        lemma_le_val_inj(s.drop_last(), t.drop_last());
        assert(s =~= s.drop_last().push(s.last()));
        assert(t =~= t.drop_last().push(t.last()));
    }
}

/// Reading `n` bytes and encoding back gives the same bytes.
pub proof fn lemma_le_bytes_of_val(s: Seq<u8>)
    ensures
        le_bytes(le_val(s) as int, s.len()) == s,
{
    lemma_le_bytes_val(le_val(s) as int, s.len());
    lemma_le_val_bound(s);
    vstd::arithmetic::div_mod::lemma_small_mod(le_val(s), pow256(s.len()));
    lemma_le_val_inj(le_bytes(le_val(s) as int, s.len()), s);
}

/// `2^(8n) == 256^n`.
pub proof fn lemma_pow2_pow256(n: nat)
    ensures
        pow2(8 * n) == pow256(n),
    decreases n,
{
    if n == 0 {
        vstd::arithmetic::power2::lemma2_to64();
    } else {
        lemma_pow2_pow256((n - 1) as nat);
        vstd::arithmetic::power2::lemma_pow2_adds(8 * ((n - 1) as nat), 8);
        vstd::arithmetic::power2::lemma2_to64();
        assert(8 * ((n - 1) as nat) + 8 == 8 * n);
    }
}

/// The first `n` bytes of an `m`-byte encoding are the `n`-byte encoding of any value that
/// agrees modulo `256^n`.
pub proof fn lemma_cut_le_bytes(x: int, y: int, m: nat, n: nat)
    requires
        n <= m,
        x % (pow256(n) as int) == y % (pow256(n) as int),
    ensures
        le_bytes(x, m).subrange(0, n as int) == le_bytes(y, n),
{
    lemma_pow256_pos(n);
    lemma_pow256_pos((m - n) as nat);
    lemma_pow256_add(n, (m - n) as nat);
    lemma_le_bytes_val(x, m);
    lemma_le_bytes_val(y, n);
    let w = le_bytes(x, m);
    lemma_le_val_prefix(w, n);
    vstd::arithmetic::div_mod::lemma_mod_mod(x, pow256(n) as int, pow256((m - n) as nat) as int);
    assert(pow256(m) == pow256(n) * pow256((m - n) as nat));
    lemma_le_val_inj(w.subrange(0, n as int), le_bytes(y, n));
}

/// A value is below `k` times the weight of its top byte exactly when the top byte is below `k`.
pub proof fn lemma_le_val_top(s: Seq<u8>, k: nat)
    requires
        s.len() > 0,
    ensures
        le_val(s) < k * pow256((s.len() - 1) as nat) <==> s.last() < k,
        le_val(s) == le_val(s.drop_last()) + (s.last() as nat) * pow256((s.len() - 1) as nat),
{
    let p = pow256((s.len() - 1) as nat);
    let l = le_val(s.drop_last());
    lemma_le_val_bound(s.drop_last());
    lemma_pow256_pos((s.len() - 1) as nat);
    let t = s.last() as nat;
    assert(le_val(s) == l + t * p);
    if t < k {
        assert(l + t * p < k * p) by (nonlinear_arith)
            requires
                l < p,
                t + 1 <= k,
        ;
    } else {
        assert(l + t * p >= k * p) by (nonlinear_arith)
            requires
                t >= k,
                l >= 0,
                p > 0,
        ;
    }
}

} // verus!
