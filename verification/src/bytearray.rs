//! Byte arrays of up to 1024 bytes held in a fixed buffer, with a length.

use vstd::prelude::*;

use crate::layout::{IntLayout, Layout};
use crate::number::{byte_count_ones, reshaped_model, seq_ones, Number, NumberModel};
use crate::hex::{hex_decode, hex_digit_val, hex_pairs, vec_from_hex, HexError};
use crate::text::{str_chars, string_push};
use vstd::string::{StrSliceExecFns, StringSliceAdditionalSpecFns};

verus! {

/// Text without its leading `0x` prefixes, however many there are.
pub open spec fn strip_0x(c: Seq<char>) -> Seq<char>
    decreases c.len(),
{
    if c.len() >= 2 && c[0] == '0' && c[1] == 'x' {
        strip_0x(c.subrange(2, c.len() as int))
    } else {
        c
    }
}

/// Size of the buffer behind every byte array.
pub const ARRAY_CAP: usize = 1024;

/// Abstract content of a [`ByteArray`]: its length and the whole buffer.
pub struct ByteArrayModel {
    /// Length of the value.
    pub length: nat,
    /// Buffer of [`ARRAY_CAP`] bytes.
    pub bytes: Seq<u8>,
}

/// Bytes of the value: the first `length` bytes of the buffer.
pub open spec fn array_content(m: ByteArrayModel) -> Seq<u8> {
    m.bytes.subrange(0, m.length as int)
}

/// Buffer holding `s` followed by zeros.
pub open spec fn array_padded(s: Seq<u8>) -> Seq<u8> {
    Seq::new(ARRAY_CAP as nat, |i: int| if i < s.len() { s[i] } else { 0u8 })
}

/// The buffer with the bytes from `length` on set to zero.
pub open spec fn cleaned(m: ByteArrayModel) -> ByteArrayModel {
    ByteArrayModel {
        length: m.length,
        bytes: Seq::new(ARRAY_CAP as nat, |i: int| if i < m.length { m.bytes[i] } else { 0u8 }),
    }
}

/// Whether setting the length to `to` keeps every bit of the value: the length grows, or the
/// bytes cut off (those of the buffer) are all zero.
pub open spec fn keeps_bits(m: ByteArrayModel, to: nat) -> bool {
    m.length <= to || forall|i: int| to <= i < m.length && i < ARRAY_CAP ==> m.bytes[i] == 0
}

/// Bit length of a byte: eight minus its leading zeros.
pub open spec fn byte_bits(b: u8) -> nat {
    if b >= 128 {
        8
    } else if b >= 64 {
        7
    } else if b >= 32 {
        6
    } else if b >= 16 {
        5
    } else if b >= 8 {
        4
    } else if b >= 4 {
        3
    } else if b >= 2 {
        2
    } else if b >= 1 {
        1
    } else {
        0
    }
}

/// Position of the highest non-zero byte among the first `n` bytes, or 0 when all are zero.
pub open spec fn top_index(s: Seq<u8>, n: nat) -> nat
    decreases n,
{
    if n <= 1 {
        0
    } else if s[n - 1] != 0 {
        (n - 1) as nat
    } else {
        top_index(s, (n - 1) as nat)
    }
}

/// Number of bits needed to hold the value: eight per byte below the highest non-zero byte,
/// plus the bit length of that byte.
pub open spec fn min_bits(m: ByteArrayModel) -> nat {
    if m.length == 0 {
        0
    } else {
        let i = top_index(m.bytes, m.length);
        8 * i + byte_bits(m.bytes[i as int])
    }
}

/// A hexadecimal digit of a value below 16, in lower case.
pub open spec fn hex_digit(v: u8) -> char {
    if v < 10 {
        ((v + 48) as u8) as char
    } else {
        ((v + 87) as u8) as char
    }
}

/// `0x` followed by two lower-case hexadecimal digits for each byte.
pub open spec fn hex_of(s: Seq<u8>) -> Seq<char>
    decreases s.len(),
{
    if s.len() == 0 {
        seq!['0', 'x']
    } else {
        hex_of(s.drop_last()) + seq![hex_digit(s.last() / 16), hex_digit(s.last() % 16)]
    }
}

/// The hexadecimal text of `s` has two characters for `0x` and two for each byte.
pub proof fn lemma_hex_of_len(s: Seq<u8>)
    ensures
        hex_of(s).len() == 2 + 2 * s.len(),
    decreases s.len(),
{
    if s.len() > 0 {
        lemma_hex_of_len(s.drop_last());
    }
}

/// A hexadecimal digit of a value below 16, in lower case.
fn hex_char(v: u8) -> (r: char)
    requires
        v < 16,
    ensures
        r == hex_digit(v),
{
    if v < 10 {
        (v + 48) as char
    } else {
        (v + 87) as char
    }
}

/// A byte array that may be unset.
pub struct MaybeByteArray {
    /// The value, if set.
    pub value: Option<ByteArray>,
}

/// Value of a byte array: a buffer of 1024 bytes of which the first `length` are used.
#[derive(Clone, Copy, Debug)]
pub struct ByteArray {
    bytes: [u8; 1024],
    length: u16,
}

impl View for ByteArray {
    type V = ByteArrayModel;

    closed spec fn view(&self) -> ByteArrayModel {
        ByteArrayModel { length: self.length as nat, bytes: self.bytes@ }
    }
}

impl ByteArray {
    /// Whether the buffer has its fixed size; it always has.
    pub proof fn lemma_buffer(&self)
        ensures
            self@.bytes.len() == ARRAY_CAP,
    {
    }

    /// Zero value of `length` bytes, which is at most 1024.
    pub fn zero(length: u16) -> (r: ByteArray)
        requires
            length <= ARRAY_CAP,
        ensures
            r@ == (ByteArrayModel { length: length as nat, bytes: array_padded(Seq::empty()) }),
    {
        let r = ByteArray { length, bytes: [0u8; 1024] };
        assert(r@.bytes =~= array_padded(Seq::empty()));
        r
    }

    /// Zero value of `length` bytes with bit `bit_no` set; the bit lies in the buffer.
    pub fn masked_bit(bit_no: u16, length: u16) -> (r: ByteArray)
        requires
            bit_no < 8 * ARRAY_CAP,
        ensures
            r@ == (ByteArrayModel {
                length: length as nat,
                bytes: array_padded(Seq::empty()).update((bit_no / 8) as int, 1u8 << ((bit_no % 8) as u8)),
            }),
    {
        let mut bytes = [0u8; 1024];
        bytes[(bit_no / 8) as usize] = 1u8 << ((bit_no % 8) as u8);
        let r = ByteArray { length, bytes };
        assert(r@.bytes =~= array_padded(Seq::empty()).update((bit_no / 8) as int, 1u8 << ((bit_no % 8) as u8)));
        r
    }

    /// Value holding a copy of `slice`, of at most 1024 bytes.
    pub fn from_slice(slice: &[u8]) -> (r: ByteArray)
        requires
            slice@.len() <= ARRAY_CAP,
        ensures
            r@ == (ByteArrayModel { length: slice@.len(), bytes: array_padded(slice@) }),
    {
        let mut bytes = [0u8; 1024];
        let mut i: usize = 0;
        while i < slice.len()
            invariant
                i <= slice@.len(),
                slice@.len() <= ARRAY_CAP,
                bytes@.len() == ARRAY_CAP,
                forall|k: int| 0 <= k < i ==> #[trigger] bytes@[k] == slice@[k],
                forall|k: int| i <= k < ARRAY_CAP ==> #[trigger] bytes@[k] == 0u8,
            decreases slice@.len() - i,
        {
            bytes[i] = slice[i];
            i = i + 1;
        }
        let r = ByteArray { length: slice.len() as u16, bytes };
        assert(r@.bytes =~= array_padded(slice@));
        r
    }

    /// Value of hexadecimal text, after any leading `0x` prefixes; fails when the text
    /// encodes more than 1024 bytes or is not hexadecimal.
    pub fn from_hex(s: &str) -> (r: Result<ByteArray, HexError>)
        ensures
            ({
                let b = vstd::utf8::encode_utf8(strip_0x(s@));
                let len = b.len() / 2;
                &&& len > ARRAY_CAP ==> r == Err::<ByteArray, HexError>(
                    HexError::InvalidLength(ARRAY_CAP, len as usize),
                )
                &&& len <= ARRAY_CAP ==> match hex_decode(b) {
                    Ok(v) => r matches Ok(a) && a@ == (ByteArrayModel {
                        length: v.len(),
                        bytes: array_padded(v),
                    }),
                    Err(e) => r == Err::<ByteArray, HexError>(e),
                }
            }),
    {
        let chars = str_chars(s);
        let n = chars.len();
        let mut k: usize = 0;
        assert(s@.subrange(0, n as int) =~= s@);
        while k < n && n - k >= 2 && chars[k] == '0' && chars[k + 1] == 'x'
            invariant
                k <= n,
                n == s@.len(),
                chars@ == s@,
                strip_0x(s@) == strip_0x(s@.subrange(k as int, n as int)),
            decreases n - k,
        {
            proof {
                let c = s@.subrange(k as int, n as int);
                assert(c.subrange(2, c.len() as int) =~= s@.subrange(k + 2, n as int));
            }
            k += 2;
        }
        proof {
            let c = s@.subrange(k as int, n as int);
            assert(strip_0x(c) == c);
        }
        let t = s.substring_char(k, n);
        assert(t@ == strip_0x(s@));
        assert(t.spec_bytes() == vstd::utf8::encode_utf8(t@));
        let len = t.as_bytes().len() / 2;
        if len > ARRAY_CAP {
            return Err(HexError::InvalidLength(ARRAY_CAP, len));
        }
        match vec_from_hex(t) {
            Ok(hex) => {
                proof {
                    crate::hex::lemma_hex_pairs_len(vstd::utf8::encode_utf8(t@));
                }
                Ok(ByteArray::from_slice(hex.as_slice()))
            },
            Err(e) => Err(e),
        }
    }

    /// Value holding a copy of `slice` when it has exactly `length` bytes; `None` otherwise.
    pub fn with(slice: &[u8], length: u16) -> (r: Option<ByteArray>)
        requires
            slice@.len() == length ==> length <= ARRAY_CAP,
        ensures
            r is Some <==> slice@.len() == length,
            r matches Some(a) ==> a@ == (ByteArrayModel { length: length as nat, bytes: array_padded(slice@) }),
    {
        if slice.len() != length as usize {
            return None;
        }
        Some(ByteArray::from_slice(slice))
    }

    /// `0x` followed by two lowercase hexadecimal digits for each byte of the value.
    pub fn to_hex(self) -> (r: String)
        requires
            self@.length <= ARRAY_CAP,
        ensures
            r@ == hex_of(self@.bytes.subrange(0, self@.length as int)),
            r@.len() == 2 + 2 * self@.length,
    {
        let mut s = String::new();
        string_push(&mut s, '0');
        string_push(&mut s, 'x');
        let n = self.length as usize;
        let mut i: usize = 0;
        while i < n
            invariant
                i <= n,
                n == self@.length,
                n <= ARRAY_CAP,
                self@.bytes.len() == ARRAY_CAP,
                s@ == hex_of(self@.bytes.subrange(0, i as int)),
            decreases n - i,
        {
            let b = self.bytes[i];
            string_push(&mut s, hex_char(b / 16));
            string_push(&mut s, hex_char(b % 16));
            proof {
                let t = self@.bytes.subrange(0, i + 1);
                assert(t.drop_last() =~= self@.bytes.subrange(0, i as int));
            }
            i = i + 1;
        }
        proof {
            lemma_hex_of_len(self@.bytes.subrange(0, n as int));
        }
        s
    }

    /// Length of the value.
    pub fn len(&self) -> (r: u16)
        ensures
            r == self@.length,
    {
        self.length
    }

    /// Number of one bits in the value.
    pub fn count_ones(&self) -> (r: u16)
        requires
            self@.length <= ARRAY_CAP,
        ensures
            r == seq_ones(array_content(self@)),
            r <= 8 * self@.length,
    {
        let n = self.length as usize;
        let mut c: u16 = 0;
        let mut i: usize = 0;
        while i < n
            invariant
                i <= n,
                n == self@.length,
                n <= ARRAY_CAP,
                self@.bytes.len() == ARRAY_CAP,
                c as nat == seq_ones(self@.bytes.subrange(0, i as int)),
                c <= 8 * i,
            decreases n - i,
        {
            let k = byte_count_ones(self.bytes[i]);
            assert(self@.bytes.subrange(0, i + 1).drop_last() =~= self@.bytes.subrange(0, i as int));
            c = c + k as u16;
            i = i + 1;
        }
        c
    }

    /// Number of zero bits among the `8 * length` bits of the value.
    pub fn count_zeros(&self) -> (r: u16)
        requires
            self@.length <= ARRAY_CAP,
        ensures
            r == 8 * self@.length - seq_ones(array_content(self@)),
    {
        let ones = self.count_ones();
        8 * self.len() - ones
    }

    /// Number of bits needed to hold the value (see [`min_bits`]).
    pub fn min_bit_len(&self) -> (r: u16)
        requires
            self@.length <= ARRAY_CAP,
        ensures
            r == min_bits(self@),
    {
        let n = self.length as usize;
        if n == 0 {
            return 0;
        }
        let mut i: usize = n - 1;
        while i > 0 && self.bytes[i] == 0
            invariant
                i < n,
                n == self@.length,
                n <= ARRAY_CAP,
                self@.bytes.len() == ARRAY_CAP,
                top_index(self@.bytes, n as nat) == top_index(self@.bytes, (i + 1) as nat),
            decreases i,
        {
            i = i - 1;
        }
        let b = self.bytes[i];
        let bits: u16 = if b >= 128 {
            8
        } else if b >= 64 {
            7
        } else if b >= 32 {
            6
        } else if b >= 16 {
            5
        } else if b >= 8 {
            4
        } else if b >= 4 {
            3
        } else if b >= 2 {
            2
        } else if b >= 1 {
            1
        } else {
            0
        };
        (i as u16) * 8 + bits
    }

    /// Whether the used bytes are all zero.
    pub fn is_zero(self) -> (r: bool)
        requires
            self@.length <= ARRAY_CAP,
        ensures
            r == (forall|i: int| 0 <= i < self@.length ==> #[trigger] self@.bytes[i] == 0),
    {
        let clean = self.to_clean();
        let mut i: usize = 0;
        while i < 1024
            invariant
                i <= 1024,
                clean@ == cleaned(self@),
                self@.length <= ARRAY_CAP,
                self@.bytes.len() == ARRAY_CAP,
                forall|k: int| 0 <= k < i ==> #[trigger] clean@.bytes[k] == 0,
            decreases 1024 - i,
        {
            if clean.bytes[i] != 0 {
                assert(clean@.bytes[i as int] != 0);
                return false;
            }
            i = i + 1;
        }
        assert forall|k: int| 0 <= k < self@.length implies #[trigger] self@.bytes[k] == 0 by {
            assert(clean@.bytes[k] == 0);
        }
        true
    }

    /// Sets the bytes beyond the length to zero.
    pub fn clean(&mut self)
        requires
            old(self)@.length <= ARRAY_CAP,
        ensures
            final(self)@ == cleaned(old(self)@),
    {
        let ghost orig = self@;
        let mut i: usize = self.length as usize;
        while i < 1024
            invariant
                orig.length <= i <= 1024,
                self.length == orig.length,
                self@.bytes.len() == ARRAY_CAP,
                forall|k: int| 0 <= k < ARRAY_CAP ==> #[trigger] self@.bytes[k] == (if k < orig.length {
                    orig.bytes[k]
                } else if k < i {
                    0u8
                } else {
                    orig.bytes[k]
                }),
            decreases 1024 - i,
        {
            self.bytes[i] = 0;
            i = i + 1;
        }
        assert(self@.bytes =~= cleaned(orig).bytes);
    }

    /// Copy with the bytes beyond the length set to zero.
    pub fn to_clean(self) -> (r: ByteArray)
        requires
            self@.length <= ARRAY_CAP,
        ensures
            r@ == cleaned(self@),
    {
        let mut r = self;
        r.clean();
        r
    }

    /// Sets the length to `to`, telling whether no bit of the value was lost (see
    /// [`keeps_bits`]). A longer length keeps the buffer; a shorter one also sets the bytes
    /// beyond it to zero.
    pub fn reshape(&mut self, to: u16) -> (r: bool)
        requires
            to <= ARRAY_CAP,
        ensures
            r == keeps_bits(old(self)@, to as nat),
            old(self)@.length <= to ==> final(self)@ == (ByteArrayModel {
                length: to as nat,
                bytes: old(self)@.bytes,
            }),
            old(self)@.length > to ==> final(self)@ == cleaned(
                ByteArrayModel { length: to as nat, bytes: old(self)@.bytes },
            ),
    {
        if self.length <= to {
            self.length = to;
            true
        } else {
            proof {
                self.lemma_buffer();
            }
            let n: usize = if (self.length as usize) < ARRAY_CAP {
                self.length as usize
            } else {
                ARRAY_CAP
            };
            let mut kept = true;
            let mut i: usize = to as usize;
            while i < n
                invariant
                    to <= i <= n,
                    n == if self@.length < ARRAY_CAP { self@.length } else { ARRAY_CAP as nat },
                    self@.bytes.len() == ARRAY_CAP,
                    self@ == old(self)@,
                    kept == forall|k: int| to <= k < i ==> self@.bytes[k] == 0,
                decreases n - i,
            {
                if self.bytes[i] != 0 {
                    kept = false;
                }
                i = i + 1;
            }
            self.length = to;
            self.clean();
            kept
        }
    }

    /// Copy with the length set to `to` (see [`ByteArray::reshape`]); `None` when bits were lost
    /// and `wrap` is not set.
    pub fn reshaped(self, to: u16, wrap: bool) -> (r: Option<ByteArray>)
        requires
            to <= ARRAY_CAP,
        ensures
            r is Some <==> (keeps_bits(self@, to as nat) || wrap),
            r matches Some(a) ==> (if self@.length <= to {
                a@ == (ByteArrayModel { length: to as nat, bytes: self@.bytes })
            } else {
                a@ == cleaned(ByteArrayModel { length: to as nat, bytes: self@.bytes })
            }),
    {
        let mut a = self;
        if a.reshape(to) || wrap {
            Some(a)
        } else {
            None
        }
    }

    /// The whole buffer as an unsigned 1024-byte number cut to `layout`, and whether `layout`
    /// has as many bits as the value needs.
    pub fn into_number(self, layout: Layout) -> (r: (Number, bool))
        requires
            self@.length <= ARRAY_CAP,
            layout is Integer,
            layout.valid(),
        ensures
            r.0.wf(),
            r.0@ == reshaped_model(
                NumberModel { layout: Layout::Integer(IntLayout { signed: false, bytes: 1024 }), bytes: self@.bytes },
                layout,
            ),
            r.1 == (layout.spec_bytes() * 8 >= min_bits(self@)),
    {
        let v = crate::number::slice_to_vec(self.bytes.as_slice());
        let mut n = Number::from_parts(Layout::unsigned(1024), v);
        n.reshape(layout);
        let bits = self.min_bit_len();
        (n, layout.bits() >= bits as u32)
    }
}

impl MaybeByteArray {
    /// Unset value.
    pub fn none() -> (r: MaybeByteArray)
        ensures
            r.value is None,
    {
        MaybeByteArray { value: None }
    }

    /// Set value.
    pub fn some(val: ByteArray) -> (r: MaybeByteArray)
        ensures
            r.value == Some(val),
    {
        MaybeByteArray { value: Some(val) }
    }

    /// Changes the length of a set value (see [`ByteArray::reshape`]); an unset value stays
    /// unset and gives `true`.
    pub fn reshape(&mut self, to: u16) -> (r: bool)
        requires
            to <= ARRAY_CAP,
        ensures
            old(self).value is None ==> final(self).value is None && r,
            old(self).value matches Some(a) ==> final(self).value matches Some(b) && r == keeps_bits(
                a@,
                to as nat,
            ) && (if a@.length <= to {
                b@ == (ByteArrayModel { length: to as nat, bytes: a@.bytes })
            } else {
                b@ == cleaned(ByteArrayModel { length: to as nat, bytes: a@.bytes })
            }),
    {
        match self.value {
            Some(a) => {
                let mut a = a;
                let k = a.reshape(to);
                self.value = Some(a);
                k
            },
            None => true,
        }
    }
}

/// Byte of the lower-case hexadecimal digit of a value below 16.
pub open spec fn digit_byte(v: u8) -> u8 {
    if v < 10 {
        (v + 48) as u8
    } else {
        (v + 87) as u8
    }
}

/// The digits of the hexadecimal text of `s`, after its `0x`: two for each byte, high digit
/// first.
proof fn lemma_hex_of_digits(s: Seq<u8>)
    ensures
        hex_of(s).len() == 2 + 2 * s.len(),
        hex_of(s)[0] == '0',
        hex_of(s)[1] == 'x',
        forall|j: int|
            0 <= j < s.len() ==> #[trigger] hex_of(s)[2 + 2 * j] == hex_digit(s[j] / 16) && hex_of(
                s,
            )[3 + 2 * j] == hex_digit(s[j] % 16),
    decreases s.len(),
{
    if s.len() > 0 {
        let p = s.drop_last();
        lemma_hex_of_digits(p);
        assert forall|j: int| 0 <= j < s.len() implies #[trigger] hex_of(s)[2 + 2 * j] == hex_digit(
            s[j] / 16,
        ) && hex_of(s)[3 + 2 * j] == hex_digit(s[j] % 16) by {
            if j < p.len() {
                assert(hex_of(p)[2 + 2 * j] == hex_digit(p[j] / 16));
                assert(p[j] == s[j]);
            }
        }
    }
}

/// A digit character read as a byte is its digit byte.
proof fn lemma_digit_char(v: u8)
    requires
        v < 16,
    ensures
        hex_digit(v) as u8 == digit_byte(v),
        '\0' <= hex_digit(v) <= '\u{7f}',
        hex_digit_val(digit_byte(v)) == Some(v),
        hex_digit(v) != 'x',
{
}

/// Digit pairs of the bytes of `s` decode to `s`.
proof fn lemma_pairs_decode(e: Seq<u8>, s: Seq<u8>)
    requires
        e.len() == 2 * s.len(),
        forall|j: int|
            0 <= j < s.len() ==> #[trigger] e[2 * j] == digit_byte(s[j] / 16) && e[2 * j + 1]
                == digit_byte(s[j] % 16),
    ensures
        hex_pairs(e) == Ok::<Seq<u8>, HexError>(s),
    decreases s.len(),
{
    if s.len() > 0 {
        let e2 = e.subrange(2, e.len() as int);
        let s2 = s.subrange(1, s.len() as int);
        assert forall|j: int| 0 <= j < s2.len() implies #[trigger] e2[2 * j] == digit_byte(
            s2[j] / 16,
        ) && e2[2 * j + 1] == digit_byte(s2[j] % 16) by {
            assert(e[2 * (j + 1)] == digit_byte(s[j + 1] / 16));
        }
        lemma_pairs_decode(e2, s2);
        assert(e[2 * 0int] == digit_byte(s[0] / 16) && e[2 * 0int + 1] == digit_byte(s[0] % 16));
        lemma_digit_char(s[0] / 16);
        lemma_digit_char(s[0] % 16);
        let b = s[0];
        assert(hex_digit_val(e[0]) == Some(b / 16));
        assert(hex_digit_val(e[1]) == Some(b % 16));
        assert(((b / 16) * 16 + b % 16) as u8 == b);
        assert(seq![b] + s2 =~= s);
        assert(hex_pairs(e) == Ok::<Seq<u8>, HexError>(seq![((b / 16) * 16 + b % 16) as u8] + s2));
    } else {
        assert(s =~= Seq::<u8>::empty());
    }
}

/// Reading back the hexadecimal text of bytes gives the bytes: for every content of at most
/// [`ARRAY_CAP`] bytes, the text [`ByteArray::to_hex`] writes, given to
/// [`ByteArray::from_hex`], has its `0x` stripped, holds as many digit pairs as there are bytes,
/// and decodes to the same bytes.
pub proof fn law_hex_round_trip(s: Seq<u8>)
    requires
        s.len() <= ARRAY_CAP,
    ensures
        vstd::utf8::encode_utf8(strip_0x(hex_of(s))).len() / 2 == s.len(),
        hex_decode(vstd::utf8::encode_utf8(strip_0x(hex_of(s)))) == Ok::<Seq<u8>, HexError>(s),
{
    lemma_hex_of_digits(s);
    let h = hex_of(s);
    let d = h.subrange(2, h.len() as int);
    assert(strip_0x(h) == strip_0x(d)) by {
        assert(h.subrange(2, h.len() as int) == d);
    }
    assert forall|i: int| 0 <= i < d.len() implies '\0' <= #[trigger] d[i] <= '\u{7f}' && d[i]
        as u8 == digit_byte(if i % 2 == 0 { s[i / 2] / 16 } else { s[i / 2] % 16 }) by {
        let j = i / 2;
        if i % 2 == 0 {
            assert(h[2 + 2 * j] == hex_digit(s[j] / 16));
            lemma_digit_char(s[j] / 16);
        } else {
            assert(h[2 + 2 * j] == hex_digit(s[j] / 16));
            lemma_digit_char(s[j] % 16);
        }
    }
    if d.len() >= 2 {
        lemma_digit_char(s[0] % 16);
        assert(h[2 + 2 * 0int] == hex_digit(s[0] / 16));
        assert(d[1] == hex_digit(s[0] % 16));
    }
    assert(strip_0x(d) == d);
    assert(vstd::utf8::is_ascii_chars(d));
    vstd::utf8::is_ascii_chars_encode_utf8(d);
    let e = vstd::utf8::encode_utf8(d);
    assert forall|j: int| 0 <= j < s.len() implies #[trigger] e[2 * j] == digit_byte(s[j] / 16)
        && e[2 * j + 1] == digit_byte(s[j] % 16) by {
        assert(d[2 * j] as u8 == e[2 * j]);
        assert(d[2 * j + 1] as u8 == e[2 * j + 1]);
        assert((2 * j) / 2 == j && (2 * j) % 2 == 0);
        assert((2 * j + 1) / 2 == j && (2 * j + 1) % 2 == 1);
    }
    lemma_pairs_decode(e, s);
}

} // verus!
