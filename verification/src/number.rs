//! Numeric register values: a byte string read according to a layout.

use vstd::prelude::*;

use crate::layout::{IntLayout, Layout};
use crate::num::{
    le_bytes, le_val, lemma_le_bytes_of_val, lemma_le_bytes_val, lemma_le_val_bound,
    lemma_le_val_inj, lemma_le_val_prefix, lemma_le_val_push, lemma_pow256_add, lemma_pow256_pos,
    pow256, sle_val,
};

verus! {

/// Abstract content of a [`Number`]: its layout and its little-endian bytes.
pub struct NumberModel {
    /// Layout of the value.
    pub layout: Layout,
    /// Little-endian bytes, as many as the layout occupies.
    pub bytes: Seq<u8>,
}

/// Value of a numeric register: little-endian bytes together with their layout.
#[derive(Clone, Debug, Hash)]
pub struct Number {
    layout: Layout,
    bytes: Vec<u8>,
}

impl View for Number {
    type V = NumberModel;

    closed spec fn view(&self) -> NumberModel {
        NumberModel { layout: self.layout, bytes: self.bytes@ }
    }
}

/// Byte that extends a value to more significant positions without changing it: `0xFF` for
/// negative signed integers, zero otherwise.
pub open spec fn ext_byte(m: NumberModel) -> u8 {
    if m.layout.spec_is_signed_int() && m.bytes.len() > 0 && m.bytes.last() >= 0x80 {
        0xFF
    } else {
        0
    }
}

/// Bytes of `m` cut or extended (with [`ext_byte`]) to `n` bytes.
pub open spec fn resized(m: NumberModel, n: nat) -> Seq<u8> {
    Seq::new(n, |i: int| if i < m.bytes.len() { m.bytes[i] } else { ext_byte(m) })
}

/// Integer value denoted by a model: two's complement for signed layouts, plain otherwise.
pub open spec fn value_of(m: NumberModel) -> int {
    if m.layout.spec_is_signed_int() {
        sle_val(m.bytes)
    } else {
        le_val(m.bytes) as int
    }
}

/// Whether a model is well formed: a valid layout and exactly as many bytes as it occupies.
pub open spec fn model_wf(m: NumberModel) -> bool {
    m.layout.valid() && m.bytes.len() == m.layout.spec_bytes()
}

/// Model of an integer layout change: the bytes are cut or extended and the layout replaced.
pub open spec fn reshaped_model(m: NumberModel, to: Layout) -> NumberModel {
    if m.layout == to {
        m
    } else {
        NumberModel { layout: to, bytes: resized(m, to.spec_bytes() as nat) }
    }
}

/// Whether changing the layout of `m` to `to` keeps its value.
pub open spec fn reshape_keeps(m: NumberModel, to: Layout) -> bool {
    m.layout == to || value_of(reshaped_model(m, to)) == value_of(m)
}

/// Number of one bits in a byte.
pub open spec fn byte_ones(b: u8) -> nat {
    (if b & 1 != 0 { 1nat } else { 0 }) + (if b & 2 != 0 { 1nat } else { 0 }) + (if b & 4 != 0 {
        1nat
    } else {
        0
    }) + (if b & 8 != 0 { 1nat } else { 0 }) + (if b & 16 != 0 { 1nat } else { 0 }) + (if b & 32
        != 0 {
        1nat
    } else {
        0
    }) + (if b & 64 != 0 { 1nat } else { 0 }) + (if b & 128 != 0 { 1nat } else { 0 })
}

/// Number of one bits in a byte string.
pub open spec fn seq_ones(s: Seq<u8>) -> nat
    decreases s.len(),
{
    if s.len() == 0 {
        0
    } else {
        seq_ones(s.drop_last()) + byte_ones(s.last())
    }
}

/// Number of bits in a byte.
pub fn byte_count_ones(b: u8) -> (r: u8)
    ensures
        r as nat == byte_ones(b),
        r <= 8,
{
    let mut c: u8 = 0;
    if b & 1 != 0 {
        c = c + 1;
    }
    if b & 2 != 0 {
        c = c + 1;
    }
    if b & 4 != 0 {
        c = c + 1;
    }
    if b & 8 != 0 {
        c = c + 1;
    }
    if b & 16 != 0 {
        c = c + 1;
    }
    if b & 32 != 0 {
        c = c + 1;
    }
    if b & 64 != 0 {
        c = c + 1;
    }
    if b & 128 != 0 {
        c = c + 1;
    }
    c
}

/// A model read as a signed number after extension to `n > len` bytes keeps its value.
pub proof fn lemma_value_resized(m: NumberModel, n: nat)
    requires
        m.bytes.len() >= 1,
        n > m.bytes.len(),
        m.layout is Integer,
    ensures
        sle_val(resized(m, n)) == value_of(m),
    decreases n,
{
    let len = m.bytes.len();
    let e = ext_byte(m);
    let r = resized(m, n);
    let p = pow256(len);
    lemma_le_val_top(m.bytes);
    if n == len + 1 {
        assert(r =~= m.bytes.push(e));
        lemma_le_val_push(m.bytes, e);
        lemma_le_val_bound(m.bytes);
        if e == 0xFF {
            assert(pow256(n) == 256 * p);
        } else {
            assert(r.last() == 0u8);
        }
    } else {
        let n1 = (n - 1) as nat;
        lemma_value_resized(m, n1);
        let r1 = resized(m, n1);
        assert(r =~= r1.push(e));
        lemma_le_val_push(r1, e);
        lemma_pow256_pos(n1);
        assert(r1.last() == e);
        assert(pow256(n) == 256 * pow256(n1));
        if e == 0xFF {
            assert(r.last() == 0xFFu8);
        } else {
            assert(r.last() == 0u8);
        }
    }
}

/// The most significant byte decides whether the value reaches the upper half of the range.
pub proof fn lemma_le_val_top(s: Seq<u8>)
    requires
        s.len() >= 1,
    ensures
        s.last() >= 0x80 <==> le_val(s) >= 128 * pow256((s.len() - 1) as nat),
        le_val(s) >= (s.last() as nat) * pow256((s.len() - 1) as nat),
        le_val(s) < ((s.last() as nat) + 1) * pow256((s.len() - 1) as nat),
{
    let p = pow256((s.len() - 1) as nat);
    lemma_le_val_bound(s.drop_last());
    lemma_pow256_pos((s.len() - 1) as nat);
    let l = s.last() as nat;
    let a = le_val(s.drop_last());
    assert(a + l * p < (l + 1) * p) by (nonlinear_arith)
        requires
            a < p,
    ;
    if l >= 128 {
        assert(l * p >= 128 * p) by (nonlinear_arith)
            requires
                l >= 128,
                p >= 1,
        ;
    } else {
        assert((l + 1) * p <= 128 * p) by (nonlinear_arith)
            requires
                l < 128,
                p >= 1,
        ;
    }
}

/// Two byte strings of one length with the same two's complement value are equal.
pub proof fn lemma_sle_val_inj(s: Seq<u8>, t: Seq<u8>)
    requires
        s.len() == t.len(),
        s.len() >= 1,
        sle_val(s) == sle_val(t),
    ensures
        s == t,
{
    lemma_le_val_top(s);
    lemma_le_val_top(t);
    lemma_le_val_bound(s);
    lemma_le_val_bound(t);
    let p = pow256((s.len() - 1) as nat);
    assert(pow256(s.len()) == 256 * p);
    lemma_le_val_inj(s, t);
}

/// Range of values a layout holds: `[-256^n/2, 256^n/2)` for signed integers of `n` bytes,
/// `[0, 256^n)` otherwise.
pub open spec fn in_range(v: int, to: Layout) -> bool {
    let p = pow256(to.spec_bytes() as nat) as int;
    if to.spec_is_signed_int() {
        -p / 2 <= v < p / 2
    } else {
        0 <= v < p
    }
}

/// The two's complement value of `n >= 1` bytes lies in the signed range.
pub proof fn lemma_sle_val_range(s: Seq<u8>)
    requires
        s.len() >= 1,
    ensures
        -(pow256(s.len()) as int) / 2 <= sle_val(s) < (pow256(s.len()) as int) / 2,
        sle_val(s) < 0 <==> s.last() >= 0x80,
{
    lemma_le_val_top(s);
    lemma_le_val_bound(s);
    let q = pow256((s.len() - 1) as nat);
    assert(pow256(s.len()) == 256 * q);
}

/// Reading the low `n` bytes of `v` in two's complement gives `v` back when it is in range.
pub proof fn lemma_sle_val_le_bytes(v: int, n: nat)
    requires
        n >= 1,
        -(pow256(n) as int) / 2 <= v < (pow256(n) as int) / 2,
    ensures
        sle_val(le_bytes(v, n)) == v,
{
    let p = pow256(n) as int;
    lemma_le_bytes_val(v, n);
    let s = le_bytes(v, n);
    lemma_le_val_top(s);
    let q = pow256((n - 1) as nat);
    assert(pow256(n) == 256 * q);
    if v >= 0 {
        vstd::arithmetic::div_mod::lemma_small_mod(v as nat, p as nat);
    } else {
        vstd::arithmetic::div_mod::lemma_mod_add_multiples_vanish(v, p);
        vstd::arithmetic::div_mod::lemma_small_mod((v + p) as nat, p as nat);
    }
}

/// Reading the low `n` bytes of a value in `[0, 256^n)` gives it back.
pub proof fn lemma_le_val_le_bytes(v: int, n: nat)
    requires
        0 <= v < pow256(n),
    ensures
        le_val(le_bytes(v, n)) == v,
{
    lemma_le_bytes_val(v, n);
    vstd::arithmetic::div_mod::lemma_small_mod(v as nat, pow256(n));
}

/// Cutting or extending an integer to `n` bytes gives the low `n` bytes of its value.
pub proof fn lemma_resized_le_bytes(m: NumberModel, n: nat)
    requires
        m.bytes.len() >= 1,
        m.layout is Integer,
    ensures
        resized(m, n) == le_bytes(value_of(m), n),
{
    let len = m.bytes.len();
    let l = if len > n { len + 1 } else { n + 1 };
    lemma_value_resized(m, l);
    let full = resized(m, l);
    let v = value_of(m);
    // le_val(full) == v mod 256^l
    lemma_le_val_top(full);
    lemma_le_val_bound(full);
    lemma_pow256_pos(l);
    let pl = pow256(l) as int;
    let lf = le_val(full) as int;
    assert(lf % pl == v % pl) by {
        if full.last() >= 0x80 {
            assert(v == lf - pl);
            vstd::arithmetic::div_mod::lemma_mod_add_multiples_vanish(v, pl);
        } else {
            assert(v == lf);
        }
    }
    vstd::arithmetic::div_mod::lemma_small_mod(lf as nat, pl as nat);
    // the prefix of n bytes
    lemma_le_val_prefix(full, n);
    assert(full.subrange(0, n as int) =~= resized(m, n));
    lemma_pow256_add(n, (l - n) as nat);
    lemma_pow256_pos(n);
    lemma_pow256_pos((l - n) as nat);
    let pn = pow256(n) as int;
    vstd::arithmetic::div_mod::lemma_mod_mod(v, pn, pow256((l - n) as nat) as int);
    assert(pn * pow256((l - n) as nat) == pl);
    lemma_le_bytes_val(v, n);
    lemma_le_val_inj(resized(m, n), le_bytes(v, n));
}

/// Changing an integer layout keeps the value exactly when it lies in the range of the target.
pub proof fn lemma_reshape_keeps_range(m: NumberModel, to: Layout)
    requires
        model_wf(m),
        to.valid(),
        m.layout is Integer,
        to is Integer,
    ensures
        reshape_keeps(m, to) <==> in_range(value_of(m), to),
        reshaped_model(m, to).bytes == le_bytes(value_of(m), to.spec_bytes() as nat),
{
    let n = to.spec_bytes() as nat;
    let v = value_of(m);
    if m.layout == to {
        lemma_le_bytes_of_val(m.bytes);
        if m.layout.spec_is_signed_int() {
            lemma_sle_val_range(m.bytes);
            lemma_sle_val_le_bytes(v, n);
            lemma_le_bytes_val(v, n);
            lemma_le_val_bound(m.bytes);
            lemma_le_val_inj(m.bytes, le_bytes(v, n));
        } else {
            lemma_le_val_bound(m.bytes);
        }
    } else {
        lemma_resized_le_bytes(m, n);
        let r = reshaped_model(m, to);
        lemma_le_bytes_val(v, n);
        if to.spec_is_signed_int() {
            lemma_sle_val_range(r.bytes);
            if in_range(v, to) {
                lemma_sle_val_le_bytes(v, n);
            }
        } else {
            lemma_le_val_bound(r.bytes);
            if in_range(v, to) {
                lemma_le_val_le_bytes(v, n);
            }
        }
    }
}

/// Model of an optional number.
pub open spec fn opt_model(r: Option<Number>) -> Option<NumberModel> {
    match r {
        Some(n) => Some(n@),
        None => None,
    }
}

/// Bytes with the sign bit of the most significant byte set (`sign`) or cleared.
pub open spec fn sign_bit_bytes(s: Seq<u8>, sign: bool) -> Seq<u8> {
    s.update(s.len() - 1, if sign { s.last() | 0x80 } else { s.last() & 0x7F })
}

/// Bytes of the minimum signed value of `n` bytes: zeros below a top byte of `0x80`.
pub open spec fn min_signed_bytes(n: nat) -> Seq<u8> {
    Seq::new(n, |i: int| if i == n - 1 { 0x80u8 } else { 0u8 })
}

proof fn lemma_seq_ones_zeros(s: Seq<u8>)
    requires
        forall|i: int| 0 <= i < s.len() ==> #[trigger] s[i] == 0,
    ensures
        seq_ones(s) == 0,
    decreases s.len(),
{
    if s.len() > 0 {
        assert forall|i: int| 0 <= i < s.drop_last().len() implies #[trigger] s.drop_last()[i]
            == 0 by {
            assert(s[i] == 0);
        }
        lemma_seq_ones_zeros(s.drop_last());
        assert(s.last() == 0);
        assert((0u8 & 1) == 0 && (0u8 & 2) == 0 && (0u8 & 4) == 0 && (0u8 & 8) == 0 && (0u8 & 16)
            == 0 && (0u8 & 32) == 0 && (0u8 & 64) == 0 && (0u8 & 128) == 0) by (bit_vector);
    }
}

/// The minimum signed value of `n` bytes is the one with the single sign bit set.
pub proof fn lemma_min_signed(s: Seq<u8>)
    requires
        s.len() >= 1,
        sle_val(s) == -(pow256(s.len()) as int) / 2,
    ensures
        s == min_signed_bytes(s.len()),
        seq_ones(s) == 1,
{
    let n = s.len();
    let t = min_signed_bytes(n);
    let z = t.drop_last();
    assert forall|i: int| 0 <= i < z.len() implies #[trigger] z[i] == 0 by {}
    lemma_le_val_zero(z);
    lemma_seq_ones_zeros(z);
    let p = pow256((n - 1) as nat);
    assert(pow256(n) == 256 * p);
    assert(t.last() == 0x80u8);
    assert(le_val(t) == 128 * p);
    lemma_sle_val_range(s);
    lemma_le_val_bound(s);
    assert(le_val(s) == 128 * p);
    lemma_le_val_inj(s, t);
    assert(((0x80u8 & 1) == 0 && (0x80u8 & 2) == 0 && (0x80u8 & 4) == 0 && (0x80u8 & 8) == 0 && (
    0x80u8 & 16) == 0 && (0x80u8 & 32) == 0 && (0x80u8 & 64) == 0 && (0x80u8 & 128) != 0))
        by (bit_vector);
}

/// Bytes with every bit inverted.
pub open spec fn not_bytes(s: Seq<u8>) -> Seq<u8> {
    Seq::new(s.len(), |i: int| !s[i])
}

/// A value is zero exactly when all its bytes are.
pub proof fn lemma_le_val_zero(s: Seq<u8>)
    ensures
        le_val(s) == 0 <==> (forall|i: int| 0 <= i < s.len() ==> #[trigger] s[i] == 0),
    decreases s.len(),
{
    if s.len() > 0 {
        lemma_le_val_zero(s.drop_last());
        let p = pow256((s.len() - 1) as nat);
        lemma_pow256_pos((s.len() - 1) as nat);
        let l = s.last() as nat;
        if l > 0 {
            assert(l * p >= 1) by (nonlinear_arith)
                requires
                    l >= 1,
                    p >= 1,
            ;
        }
        if le_val(s) == 0 {
            assert forall|i: int| 0 <= i < s.len() implies #[trigger] s[i] == 0 by {
                if i < s.len() - 1 {
                    assert(s.drop_last()[i] == s[i]);
                }
            }
        }
        if forall|i: int| 0 <= i < s.len() ==> #[trigger] s[i] == 0 {
            assert forall|i: int| 0 <= i < s.drop_last().len() implies #[trigger] s.drop_last()[i]
                == 0 by {
                assert(s[i] == 0);
            }
            assert(s[s.len() - 1] == 0);
        }
    }
}

/// Inverting every bit maps `x` to `256^n - 1 - x`.
pub proof fn lemma_le_val_not(s: Seq<u8>)
    ensures
        le_val(not_bytes(s)) == pow256(s.len()) - 1 - le_val(s),
    decreases s.len(),
{
    if s.len() > 0 {
        let t = not_bytes(s);
        lemma_le_val_not(s.drop_last());
        assert(t.drop_last() =~= not_bytes(s.drop_last()));
        let b = s.last();
        assert(!b == 255 - b) by (bit_vector);
        let p = pow256((s.len() - 1) as nat);
        assert(pow256(s.len()) == 256 * p);
        assert(((255 - b) as nat) * p == 255 * p - (b as nat) * p) by (nonlinear_arith);
    }
}

/// Inverting every bit maps a two's complement value `x` to `-x - 1`.
pub proof fn lemma_sle_val_not(s: Seq<u8>)
    requires
        s.len() >= 1,
    ensures
        sle_val(not_bytes(s)) == -sle_val(s) - 1,
{
    lemma_le_val_not(s);
    let b = s.last();
    assert(!b >= 0x80 <==> b < 0x80) by (bit_vector);
    assert(not_bytes(s).last() == !b);
}

impl Number {
    /// Whether the number is well formed.
    pub open spec fn wf(&self) -> bool {
        model_wf(self@)
    }

    /// Integer value of the number (two's complement for signed layouts).
    pub open spec fn value(&self) -> int {
        value_of(self@)
    }

    /// Zero value with a given layout.
    pub fn zero(layout: Layout) -> (r: Number)
        requires
            layout.valid(),
        ensures
            r.wf(),
            r@.layout == layout,
            r@.bytes == Seq::new(layout.spec_bytes() as nat, |i: int| 0u8),
    {
        let n = layout.bytes();
        let mut bytes: Vec<u8> = Vec::new();
        let mut i: u16 = 0;
        while i < n
            invariant
                i <= n,
                bytes@ == Seq::new(i as nat, |k: int| 0u8),
            decreases n - i,
        {
            bytes.push(0u8);
            i = i + 1;
            assert(bytes@ =~= Seq::new(i as nat, |k: int| 0u8));
        }
        Number { layout, bytes }
    }

    /// Constructs a number from little-endian bytes of the exact length the layout takes.
    pub fn with(slice: &[u8], layout: Layout) -> (r: Option<Number>)
        requires
            layout.valid(),
        ensures
            slice@.len() == layout.spec_bytes() <==> r is Some,
            r matches Some(n) ==> n.wf() && n@ == (NumberModel { layout, bytes: slice@ }),
    {
        if slice.len() != layout.bytes() as usize {
            return None;
        }
        let bytes = slice_to_vec(slice);
        Some(Number { layout, bytes })
    }

    /// Constructs an unsigned number from little-endian bytes.
    pub fn from_slice(slice: &[u8]) -> (r: Number)
        requires
            1 <= slice@.len() <= 1024,
        ensures
            r.wf(),
            r@ == (NumberModel {
                layout: Layout::Integer(IntLayout { signed: false, bytes: slice@.len() as u16 }),
                bytes: slice@,
            }),
    {
        let bytes = slice_to_vec(slice);
        Number { layout: Layout::unsigned(slice.len() as u16), bytes }
    }

    /// Builds a number from its parts.
    pub fn from_parts(layout: Layout, bytes: Vec<u8>) -> (r: Number)
        requires
            model_wf(NumberModel { layout, bytes: bytes@ }),
        ensures
            r.wf(),
            r@ == (NumberModel { layout, bytes: bytes@ }),
    {
        Number { layout, bytes }
    }

    /// Value with a single bit set.
    pub fn masked_bit(bit_no: u16, layout: Layout) -> (r: Number)
        requires
            layout.valid(),
            bit_no < layout.spec_bytes() * 8,
        ensures
            r.wf(),
            r@.layout == layout,
            r@.bytes == Seq::new(
                layout.spec_bytes() as nat,
                |i: int| if i == bit_no / 8 { 1u8 << (bit_no % 8) } else { 0u8 },
            ),
    {
        let mut n = Number::zero(layout);
        let pos = (bit_no / 8) as usize;
        let b: u8 = 1u8 << ((bit_no % 8) as u8);
        n.bytes.set(pos, b);
        assert(n.bytes@ =~= Seq::new(
            layout.spec_bytes() as nat,
            |i: int| if i == bit_no / 8 { 1u8 << (bit_no % 8) } else { 0u8 },
        ));
        n
    }

    /// Whether the number is well formed, checked at run time.
    pub fn wf_exec(&self) -> (r: bool)
        ensures
            r == self.wf(),
    {
        let n = self.layout.bytes();
        1 <= n && n <= 1024 && self.bytes.len() == n as usize
    }

    /// Copy of the number.
    pub fn clone_number(&self) -> (r: Number)
        ensures
            r@ == self@,
    {
        Number { layout: self.layout, bytes: self.bytes.clone() }
    }

    /// Layout of the number.
    pub fn layout(&self) -> (r: Layout)
        ensures
            r == self@.layout,
    {
        self.layout
    }

    /// Number of bytes the value occupies.
    pub fn len(&self) -> (r: u16)
        requires
            self.wf(),
        ensures
            r == self@.bytes.len(),
    {
        self.bytes.len() as u16
    }

    /// Byte at position `i` (little-endian).
    pub fn byte(&self, i: u16) -> (r: u8)
        requires
            self.wf(),
            i < self@.bytes.len(),
        ensures
            r == self@.bytes[i as int],
    {
        self.bytes[i as usize]
    }

    /// Copy of the little-endian bytes.
    pub fn to_vec(&self) -> (r: Vec<u8>)
        ensures
            r@ == self@.bytes,
    {
        self.bytes.clone()
    }

    /// Number of one bits in the value.
    pub fn count_ones(&self) -> (r: u16)
        requires
            self.wf(),
        ensures
            r as nat == seq_ones(self@.bytes),
    {
        let mut c: u16 = 0;
        let mut i: usize = 0;
        let n = self.bytes.len();
        while i < n
            invariant
                i <= n,
                n == self@.bytes.len(),
                n <= 1024,
                c as nat == seq_ones(self@.bytes.subrange(0, i as int)),
                c <= 8 * i,
            decreases n - i,
        {
            let b = self.bytes[i];
            let k = byte_count_ones(b);
            assert(self@.bytes.subrange(0, i + 1).drop_last() =~= self@.bytes.subrange(
                0,
                i as int,
            ));
            c = c + k as u16;
            i = i + 1;
        }
        assert(self@.bytes.subrange(0, n as int) =~= self@.bytes);
        c
    }

    /// Whether the value is zero (for floats, either sign of zero).
    pub fn is_zero(&self) -> (r: bool)
        requires
            self.wf(),
        ensures
            r == (forall|i: int|
                0 <= i < self@.bytes.len() ==> #[trigger] self@.bytes[i] == 0 || (
                !self@.layout.spec_is_integer() && i == self@.bytes.len() - 1 && self@.bytes[i]
                    == 0x80)),
    {
        let n = self.bytes.len();
        let is_int = self.layout.is_integer();
        let mut i: usize = 0;
        while i < n
            invariant
                i <= n,
                n == self@.bytes.len(),
                is_int == self@.layout.spec_is_integer(),
                forall|k: int|
                    0 <= k < i ==> #[trigger] self@.bytes[k] == 0 || (!is_int && k == n - 1
                        && self@.bytes[k] == 0x80),
            decreases n - i,
        {
            let b = self.bytes[i];
            if !(b == 0 || (!is_int && i == n - 1 && b == 0x80)) {
                return false;
            }
            i = i + 1;
        }
        true
    }

    /// Whether the value is non-negative: unsigned integers always are; otherwise the sign bit
    /// is clear.
    pub open spec fn spec_is_positive(&self) -> bool {
        self@.layout.spec_is_unsigned_int() || self@.bytes.last() & 0x80 == 0
    }

    /// Whether the value is non-negative: unsigned integers always are; otherwise the sign bit
    /// is clear.
    #[verifier::when_used_as_spec(spec_is_positive)]
    pub fn is_positive(&self) -> (r: bool)
        requires
            self.wf(),
        ensures
            r == self.spec_is_positive(),
    {
        self.layout.is_unsigned_int() || self.bytes[self.bytes.len() - 1] & 0x80 == 0
    }

    /// Bitwise inversion of all bytes (the layout is kept).
    pub fn not(self) -> (r: Number)
        requires
            self.wf(),
        ensures
            r.wf(),
            r@ == (NumberModel { layout: self@.layout, bytes: not_bytes(self@.bytes) }),
    {
        let mut bytes = self.bytes;
        let ghost orig = bytes@;
        let n = bytes.len();
        let mut i: usize = 0;
        while i < n
            invariant
                i <= n,
                n == orig.len(),
                bytes@.len() == n,
                forall|k: int| 0 <= k < i ==> #[trigger] bytes@[k] == !orig[k],
                forall|k: int| i <= k < n ==> #[trigger] bytes@[k] == orig[k],
            decreases n - i,
        {
            let b = bytes[i];
            bytes.set(i, !b);
            i = i + 1;
        }
        assert(bytes@ =~= not_bytes(orig));
        Number { layout: self.layout, bytes }
    }

    /// Sets (`sign`) or clears the most significant bit of the most significant byte.
    pub fn with_sign_bit(self, sign: bool) -> (r: Number)
        requires
            self.wf(),
        ensures
            r.wf(),
            r@ == (NumberModel { layout: self@.layout, bytes: sign_bit_bytes(self@.bytes, sign) }),
    {
        let mut bytes = self.bytes;
        let last = bytes.len() - 1;
        let b = bytes[last];
        if sign {
            bytes.set(last, b | 0x80);
        } else {
            bytes.set(last, b & 0x7F);
        }
        Number { layout: self.layout, bytes }
    }

    /// Same bytes read as signed.
    pub fn into_signed(self) -> (r: Number)
        requires
            self.wf(),
        ensures
            r.wf(),
            r@ == (NumberModel { layout: self@.layout.spec_into_signed(), bytes: self@.bytes }),
    {
        Number { layout: self.layout.into_signed(), bytes: self.bytes }
    }

    /// Same bytes read as unsigned.
    pub fn into_unsigned(self) -> (r: Number)
        requires
            self.wf(),
        ensures
            r.wf(),
            r@ == (NumberModel { layout: self@.layout.spec_into_unsigned(), bytes: self@.bytes }),
    {
        Number { layout: self.layout.into_unsigned(), bytes: self.bytes }
    }

    /// Byte that extends the value to more significant positions.
    fn ext(&self) -> (r: u8)
        requires
            self.wf(),
        ensures
            r == ext_byte(self@),
    {
        if self.layout.is_signed_int() && self.bytes[self.bytes.len() - 1] >= 0x80 {
            0xFF
        } else {
            0
        }
    }

    /// Changes the layout, cutting or extending the bytes (extension repeats the sign for
    /// negative signed values and adds zeros otherwise). Returns whether the value was kept.
    /// Only integer layouts can be converted into one another.
    pub fn reshape(&mut self, to: Layout) -> (r: bool)
        requires
            old(self).wf(),
            to.valid(),
            old(self)@.layout == to || (old(self)@.layout is Integer && to is Integer),
        ensures
            final(self).wf(),
            final(self)@ == reshaped_model(old(self)@, to),
            r == reshape_keeps(old(self)@, to),
    {
        if self.layout == to {
            return true;
        }
        let ghost m = self@;
        let e = self.ext();
        let fb = self.bytes.len();
        let tb = to.bytes() as usize;
        let mut nb: Vec<u8> = Vec::new();
        let mut i: usize = 0;
        while i < tb
            invariant
                i <= tb,
                tb == to.spec_bytes(),
                fb == m.bytes.len(),
                self@ == m,
                e == ext_byte(m),
                nb@ == resized(m, i as nat),
            decreases tb - i,
        {
            let b = if i < fb {
                self.bytes[i]
            } else {
                e
            };
            nb.push(b);
            i = i + 1;
            assert(nb@ =~= resized(m, i as nat));
        }
        let new = Number { layout: to, bytes: nb };
        // Compare both values extended to a common length beyond either width.
        let en = new.ext();
        let l = if fb > tb {
            fb + 1
        } else {
            tb + 1
        };
        let mut same = true;
        let mut j: usize = 0;
        while j < l
            invariant
                j <= l,
                l == (if fb > tb { fb + 1 } else { tb + 1 }),
                tb == to.spec_bytes(),
                fb == m.bytes.len(),
                self@ == m,
                e == ext_byte(m),
                en == ext_byte(new@),
                new@.bytes == resized(m, tb as nat),
                new@.layout == to,
                same == (forall|k: int|
                    0 <= k < j ==> #[trigger] resized(m, l as nat)[k] == resized(new@, l as nat)[k]),
            decreases l - j,
        {
            let a = if j < fb {
                self.bytes[j]
            } else {
                e
            };
            let b = if j < tb {
                new.bytes[j]
            } else {
                en
            };
            assert(a == resized(m, l as nat)[j as int]);
            assert(b == resized(new@, l as nat)[j as int]);
            let ghost prev = same;
            same = same && a == b;
            proof {
                if same {
                    assert forall|k: int| 0 <= k < j + 1 implies #[trigger] resized(m, l as nat)[k]
                        == resized(new@, l as nat)[k] by {
                        if k < j {
                            assert(prev);
                        }
                    }
                } else if prev {
                    assert(resized(m, l as nat)[j as int] != resized(new@, l as nat)[j as int]);
                }
            }
            j = j + 1;
        }
        proof {
            lemma_value_resized(m, l as nat);
            lemma_value_resized(new@, l as nat);
            if same {
                assert(resized(m, l as nat) =~= resized(new@, l as nat));
            } else if value_of(new@) == value_of(m) {
                lemma_sle_val_inj(resized(m, l as nat), resized(new@, l as nat));
            }
        }
        *self = new;
        same
    }

    /// Changes the layout as [`Number::reshape`] does; returns `None` when the value was not kept
    /// and `wrap` is not set.
    pub fn reshaped(self, to: Layout, wrap: bool) -> (r: Option<Number>)
        requires
            self.wf(),
            to.valid(),
            self@.layout == to || (self@.layout is Integer && to is Integer),
        ensures
            r is Some <==> (wrap || reshape_keeps(self@, to)),
            r matches Some(n) ==> n.wf() && n@ == reshaped_model(self@, to),
    {
        let mut n = self;
        let kept = n.reshape(to);
        if kept || wrap {
            Some(n)
        } else {
            None
        }
    }
}

/// Whether two numbers are equal: same bytes, and either the same layout or integer layouts
/// that differ only in signedness.
pub open spec fn number_eq(a: NumberModel, b: NumberModel) -> bool {
    (a.layout == b.layout || (a.layout.spec_is_signed_int() && b.layout.spec_is_unsigned_int()) || (
    a.layout.spec_is_unsigned_int() && b.layout.spec_is_signed_int())) && a.bytes == b.bytes
}

impl vstd::std_specs::cmp::PartialEqSpecImpl for Number {
    open spec fn obeys_eq_spec() -> bool {
        true
    }

    open spec fn eq_spec(&self, other: &Self) -> bool {
        number_eq(self@, other@)
    }
}

impl PartialEq for Number {
    fn eq(&self, other: &Self) -> (r: bool) {
        let lay = self.layout == other.layout || (self.layout.is_signed_int()
            && other.layout.is_unsigned_int()) || (self.layout.is_unsigned_int()
            && other.layout.is_signed_int());
        let same_bytes = bytes_eq(&self.bytes, &other.bytes);
        proof {
            assert(self@.bytes == self.bytes@);
            assert(other@.bytes == other.bytes@);
        }
        lay && same_bytes
    }
}

/// Whether two byte vectors are equal.
pub fn bytes_eq(a: &Vec<u8>, b: &Vec<u8>) -> (r: bool)
    ensures
        r == (a@ == b@),
{
    if a.len() != b.len() {
        return false;
    }
    let mut i: usize = 0;
    while i < a.len()
        invariant
            i <= a@.len(),
            a@.len() == b@.len(),
            forall|k: int| 0 <= k < i ==> #[trigger] a@[k] == b@[k],
        decreases a@.len() - i,
    {
        if a[i] != b[i] {
            return false;
        }
        i = i + 1;
    }
    assert(a@ =~= b@);
    true
}

/// Sign of `a - b`: -1, 0 or 1.
pub open spec fn diff_sign(a: nat, b: nat) -> i8 {
    if a < b {
        -1i8
    } else if a > b {
        1i8
    } else {
        0i8
    }
}

/// Compares two byte strings of one length as little-endian unsigned values, giving the sign
/// of their difference.
pub fn le_compare(a: &Vec<u8>, b: &Vec<u8>) -> (r: i8)
    requires
        a@.len() == b@.len(),
    ensures
        r == diff_sign(le_val(a@), le_val(b@)),
{
    let mut i: usize = a.len();
    while i > 0
        invariant
            i <= a@.len(),
            a@.len() == b@.len(),
            a@.subrange(i as int, a@.len() as int) == b@.subrange(i as int, b@.len() as int),
        decreases i,
    {
        let k = i - 1;
        if a[k] != b[k] {
            proof {
                let s = a@.subrange(0, i as int);
                let t = b@.subrange(0, i as int);
                lemma_le_val_top(s);
                lemma_le_val_top(t);
                lemma_le_val_prefix(a@, i as nat);
                lemma_le_val_prefix(b@, i as nat);
                let p = pow256(k as nat);
                let sa = a[k as int] as nat;
                let sb = b[k as int] as nat;
                if sa < sb {
                    assert((sa + 1) * p <= sb * p) by (nonlinear_arith)
                        requires
                            sa + 1 <= sb,
                    ;
                } else {
                    assert((sb + 1) * p <= sa * p) by (nonlinear_arith)
                        requires
                            sb + 1 <= sa,
                    ;
                }
            }
            if a[k] < b[k] {
                return -1;
            } else {
                return 1;
            }
        }
        assert(a@.subrange(k as int, a@.len() as int) =~= a@.subrange(i as int, a@.len() as int).insert(
            0,
            a@[k as int],
        ));
        assert(b@.subrange(k as int, b@.len() as int) =~= b@.subrange(i as int, b@.len() as int).insert(
            0,
            b@[k as int],
        ));
        i = k;
    }
    proof {
        assert(a@.subrange(0, a@.len() as int) =~= a@);
        assert(b@.subrange(0, b@.len() as int) =~= b@);
        lemma_le_val_inj(a@, b@);
    }
    0
}

/// Copies a byte slice into a vector.
pub fn slice_to_vec(slice: &[u8]) -> (r: Vec<u8>)
    ensures
        r@ == slice@,
{
    let mut v: Vec<u8> = Vec::new();
    let mut i: usize = 0;
    while i < slice.len()
        invariant
            i <= slice@.len(),
            v@ == slice@.subrange(0, i as int),
        decreases slice@.len() - i,
    {
        v.push(slice[i]);
        i = i + 1;
        assert(v@ =~= slice@.subrange(0, i as int));
    }
    assert(slice@.subrange(0, slice@.len() as int) =~= slice@);
    v
}

} // verus!
