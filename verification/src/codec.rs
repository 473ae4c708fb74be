//! Binary encoding of the data model: flags, 16-bit words, layouts, numbers, byte strings,
//! library identifiers and sites. Encoders append to a byte vector; decoders read from a byte
//! slice at a position and give the value with the position after it.

use vstd::prelude::*;

use crate::bytestr::{content, ByteStr, STR_CAP};
use crate::layout::{FloatLayout, IntLayout, Layout};
use crate::library::{LibId, LibSite};
use crate::num::pow256;
use crate::number::{Number, NumberModel};

verus! {

/// Errors of decoding.
#[derive(Clone, PartialEq, Eq, Debug)]
pub enum DecodeError {
    /// The data ended before the value did.
    UnexpectedEnd,
    /// A flag byte is neither 0 nor 1.
    InvalidBool(u8),
    /// Number data that do not fit the layout read before them: the layout and the data.
    NumberLayout(Layout, Vec<u8>),
    /// Unknown float layout code.
    FloatLayout(u8),
}

/// Error of reading or writing outside of a code segment (at a position beyond `0xFFFF`).
#[derive(Clone, Copy, PartialEq, Eq, Structural, Debug, Hash)]
pub struct CodeEofError;

/// Errors of cursor operations on data of at most `u16::MAX` bytes.
#[derive(Clone, Copy, PartialEq, Eq, Structural, Debug, Hash)]
pub enum CursorError {
    /// Reading or writing after the end of the data.
    Eof,
    /// Reading or writing at a position outside of the data.
    OutOfBoundaries(usize),
}

/// A collection of at most `u8::MAX` items, as it is encoded: with a one-byte count.
#[derive(Clone, Debug)]
pub struct MaxLenByte<I>(pub I);

impl<I> MaxLenByte<I> {
    /// Wraps a collection.
    pub fn new(iter: I) -> (r: MaxLenByte<I>)
        ensures
            r.0 == iter,
    {
        MaxLenByte(iter)
    }

    /// The collection.
    pub fn release(self) -> (r: I)
        ensures
            r == self.0,
    {
        self.0
    }
}

/// A collection of at most `u16::MAX` items, as it is encoded: with a two-byte count.
#[derive(Clone, Debug)]
pub struct MaxLenWord<I>(pub I);

impl<I> MaxLenWord<I> {
    /// Wraps a collection.
    pub fn new(iter: I) -> (r: MaxLenWord<I>)
        ensures
            r.0 == iter,
    {
        MaxLenWord(iter)
    }

    /// The collection.
    pub fn release(self) -> (r: I)
        ensures
            r == self.0,
    {
        self.0
    }
}

/// Abstract content of a [`DecodeError`].
pub enum DecodeFailure {
    /// The data ended before the value did.
    UnexpectedEnd,
    /// A flag byte is neither 0 nor 1.
    InvalidBool(u8),
    /// Number data that do not fit the layout read before them.
    NumberLayout(Layout, Seq<u8>),
    /// Unknown float layout code.
    FloatLayout(u8),
}

impl View for DecodeError {
    type V = DecodeFailure;

    open spec fn view(&self) -> DecodeFailure {
        match self {
            DecodeError::UnexpectedEnd => DecodeFailure::UnexpectedEnd,
            DecodeError::InvalidBool(b) => DecodeFailure::InvalidBool(*b),
            DecodeError::NumberLayout(l, v) => DecodeFailure::NumberLayout(*l, v@),
            DecodeError::FloatLayout(c) => DecodeFailure::FloatLayout(*c),
        }
    }
}

/// Outcome of decoding: the value and the position after it, or the failure.
pub enum Decoded<T> {
    /// A value, and the position of the first byte after it.
    Value(T, nat),
    /// The failure.
    Fail(DecodeFailure),
}

/// Outcome of a decoder that gives a plain value.
pub open spec fn decoded<T>(r: Result<(T, usize), DecodeError>) -> Decoded<T> {
    match r {
        Ok((v, p)) => Decoded::Value(v, p as nat),
        Err(e) => Decoded::Fail(e@),
    }
}

/// Byte at position `p`.
pub open spec fn dec_u8(d: Seq<u8>, p: nat) -> Decoded<u8> {
    if p < d.len() {
        Decoded::Value(d[p as int], p + 1)
    } else {
        Decoded::Fail(DecodeFailure::UnexpectedEnd)
    }
}

/// Little-endian 16-bit word at position `p`.
pub open spec fn dec_u16(d: Seq<u8>, p: nat) -> Decoded<u16> {
    if p + 2 <= d.len() {
        Decoded::Value((d[p as int] + 256 * d[p + 1 as int]) as u16, p + 2)
    } else {
        Decoded::Fail(DecodeFailure::UnexpectedEnd)
    }
}

/// Flag byte at position `p`: 0 or 1.
pub open spec fn dec_bool(d: Seq<u8>, p: nat) -> Decoded<bool> {
    match dec_u8(d, p) {
        Decoded::Value(b, q) => if b == 0 {
            Decoded::Value(false, q)
        } else if b == 1 {
            Decoded::Value(true, q)
        } else {
            Decoded::Fail(DecodeFailure::InvalidBool(b))
        },
        Decoded::Fail(e) => Decoded::Fail(e),
    }
}

/// Encoding of a 16-bit word: two bytes, little-endian.
pub open spec fn enc_u16(v: u16) -> Seq<u8> {
    seq![(v % 256) as u8, (v / 256) as u8]
}

/// Encoding of a flag: one byte, 0 or 1.
pub open spec fn enc_bool(b: bool) -> Seq<u8> {
    seq![if b { 1u8 } else { 0u8 }]
}

/// Appends a byte, giving the number of bytes written.
pub fn encode_u8(v: u8, out: &mut Vec<u8>) -> (r: usize)
    ensures
        final(out)@ == old(out)@.push(v),
        r == 1,
{
    out.push(v);
    1
}

/// Appends a 16-bit word, little-endian, giving the number of bytes written.
pub fn encode_u16(v: u16, out: &mut Vec<u8>) -> (r: usize)
    ensures
        final(out)@ == old(out)@ + enc_u16(v),
        r == 2,
{
    out.push((v % 256) as u8);
    out.push((v / 256) as u8);
    assert(out@ =~= old(out)@ + enc_u16(v));
    2
}

/// Appends a flag byte, giving the number of bytes written.
pub fn encode_bool(b: bool, out: &mut Vec<u8>) -> (r: usize)
    ensures
        final(out)@ == old(out)@ + enc_bool(b),
        r == 1,
{
    out.push(if b { 1u8 } else { 0u8 });
    assert(out@ =~= old(out)@ + enc_bool(b));
    1
}

/// Reads a byte at `pos`.
pub fn decode_u8(data: &[u8], pos: usize) -> (r: Result<(u8, usize), DecodeError>)
    ensures
        decoded(r) == dec_u8(data@, pos as nat),
{
    if pos < data.len() {
        Ok((data[pos], pos + 1))
    } else {
        Err(DecodeError::UnexpectedEnd)
    }
}

/// Reads a little-endian 16-bit word at `pos`.
pub fn decode_u16(data: &[u8], pos: usize) -> (r: Result<(u16, usize), DecodeError>)
    ensures
        decoded(r) == dec_u16(data@, pos as nat),
{
    if pos < data.len() && data.len() - pos >= 2 {
        let v = data[pos] as u16 + 256 * (data[pos + 1] as u16);
        Ok((v, pos + 2))
    } else {
        Err(DecodeError::UnexpectedEnd)
    }
}

/// Reads a flag byte at `pos`: 0 or 1, any other value is an error.
pub fn decode_bool(data: &[u8], pos: usize) -> (r: Result<(bool, usize), DecodeError>)
    ensures
        decoded(r) == dec_bool(data@, pos as nat),
{
    let (b, q) = decode_u8(data, pos)?;
    if b == 0 {
        Ok((false, q))
    } else if b == 1 {
        Ok((true, q))
    } else {
        Err(DecodeError::InvalidBool(b))
    }
}

/// Code of a float layout.
pub open spec fn float_code(f: FloatLayout) -> u8 {
    match f {
        FloatLayout::BFloat16 => 2,
        FloatLayout::IeeeHalf => 3,
        FloatLayout::IeeeSingle => 4,
        FloatLayout::IeeeDouble => 5,
        FloatLayout::X87DoubleExt => 6,
        FloatLayout::IeeeQuad => 7,
        FloatLayout::IeeeOct => 8,
        FloatLayout::FloatTapered => 9,
    }
}

/// Float layout with a code, if there is one.
pub open spec fn float_of_code(c: u8) -> Option<FloatLayout> {
    if c == 2 {
        Some(FloatLayout::BFloat16)
    } else if c == 3 {
        Some(FloatLayout::IeeeHalf)
    } else if c == 4 {
        Some(FloatLayout::IeeeSingle)
    } else if c == 5 {
        Some(FloatLayout::IeeeDouble)
    } else if c == 6 {
        Some(FloatLayout::X87DoubleExt)
    } else if c == 7 {
        Some(FloatLayout::IeeeQuad)
    } else if c == 8 {
        Some(FloatLayout::IeeeOct)
    } else if c == 9 {
        Some(FloatLayout::FloatTapered)
    } else {
        None
    }
}

/// Encoding of a layout: an integer layout is its sign flag and its byte width; a float layout
/// is its code.
pub open spec fn enc_layout(l: Layout) -> Seq<u8> {
    match l {
        Layout::Integer(i) => enc_bool(i.signed) + enc_u16(i.bytes),
        Layout::Float(f) => seq![float_code(f)],
    }
}

/// Layout at position `p`: a first byte of 0 or 1 starts an integer layout (unsigned or
/// signed) followed by its byte width; any other byte is a float layout code.
pub open spec fn dec_layout(d: Seq<u8>, p: nat) -> Decoded<Layout> {
    match dec_u8(d, p) {
        Decoded::Value(c, q) => if c <= 1 {
            match dec_u16(d, q) {
                Decoded::Value(bytes, q2) => Decoded::Value(
                    Layout::Integer(IntLayout { signed: c == 1, bytes }),
                    q2,
                ),
                Decoded::Fail(e) => Decoded::Fail(e),
            }
        } else {
            match float_of_code(c) {
                Some(f) => Decoded::Value(Layout::Float(f), q),
                None => Decoded::Fail(DecodeFailure::FloatLayout(c)),
            }
        },
        Decoded::Fail(e) => Decoded::Fail(e),
    }
}

/// Code of a float layout.
pub fn float_layout_code(f: FloatLayout) -> (r: u8)
    ensures
        r == float_code(f),
{
    match f {
        FloatLayout::BFloat16 => 2,
        FloatLayout::IeeeHalf => 3,
        FloatLayout::IeeeSingle => 4,
        FloatLayout::IeeeDouble => 5,
        FloatLayout::X87DoubleExt => 6,
        FloatLayout::IeeeQuad => 7,
        FloatLayout::IeeeOct => 8,
        FloatLayout::FloatTapered => 9,
    }
}

/// Float layout with a code, if there is one.
pub fn float_layout_with(c: u8) -> (r: Option<FloatLayout>)
    ensures
        r == float_of_code(c),
{
    match c {
        2 => Some(FloatLayout::BFloat16),
        3 => Some(FloatLayout::IeeeHalf),
        4 => Some(FloatLayout::IeeeSingle),
        5 => Some(FloatLayout::IeeeDouble),
        6 => Some(FloatLayout::X87DoubleExt),
        7 => Some(FloatLayout::IeeeQuad),
        8 => Some(FloatLayout::IeeeOct),
        9 => Some(FloatLayout::FloatTapered),
        _ => None,
    }
}

/// Appends the encoding of a layout, giving the number of bytes written.
pub fn encode_layout(l: Layout, out: &mut Vec<u8>) -> (r: usize)
    ensures
        final(out)@ == old(out)@ + enc_layout(l),
        r == enc_layout(l).len(),
{
    match l {
        Layout::Integer(i) => {
            let a = encode_bool(i.signed, out);
            let b = encode_u16(i.bytes, out);
            assert(out@ =~= old(out)@ + enc_layout(l));
            a + b
        },
        Layout::Float(f) => {
            let r = encode_u8(float_layout_code(f), out);
            assert(out@ =~= old(out)@ + enc_layout(l));
            r
        },
    }
}

/// Reads a layout at `pos` (see [`dec_layout`]).
pub fn decode_layout(data: &[u8], pos: usize) -> (r: Result<(Layout, usize), DecodeError>)
    ensures
        decoded(r) == dec_layout(data@, pos as nat),
{
    let (c, q) = decode_u8(data, pos)?;
    if c <= 1 {
        let (bytes, q2) = decode_u16(data, q)?;
        Ok((Layout::Integer(IntLayout { signed: c == 1, bytes }), q2))
    } else {
        match float_layout_with(c) {
            Some(f) => Ok((Layout::Float(f), q)),
            None => Err(DecodeError::FloatLayout(c)),
        }
    }
}

/// Encoding of a number: its layout, then its bytes.
pub open spec fn enc_number(n: NumberModel) -> Seq<u8> {
    enc_layout(n.layout) + n.bytes
}

/// Number at position `p`: a layout, then as many bytes as it occupies; a layout that holds
/// no value (no bytes, or more than 1024) is an error carrying the data read.
pub open spec fn dec_number(d: Seq<u8>, p: nat) -> Decoded<NumberModel> {
    match dec_layout(d, p) {
        Decoded::Value(l, q) => if q + l.spec_bytes() <= d.len() {
            let v = d.subrange(q as int, q + l.spec_bytes());
            if l.valid() {
                Decoded::Value(NumberModel { layout: l, bytes: v }, q + (l.spec_bytes() as nat))
            } else {
                Decoded::Fail(DecodeFailure::NumberLayout(l, v))
            }
        } else {
            Decoded::Fail(DecodeFailure::UnexpectedEnd)
        },
        Decoded::Fail(e) => Decoded::Fail(e),
    }
}

/// Outcome of a number decoder.
pub open spec fn decoded_number(r: Result<(Number, usize), DecodeError>) -> Decoded<NumberModel> {
    match r {
        Ok((n, p)) => Decoded::Value(n@, p as nat),
        Err(e) => Decoded::Fail(e@),
    }
}

/// Copy of the bytes of `data` in `from..to`.
fn copy_range(data: &[u8], from: usize, to: usize) -> (r: Vec<u8>)
    requires
        from <= to <= data@.len(),
    ensures
        r@ == data@.subrange(from as int, to as int),
{
    let mut v: Vec<u8> = Vec::new();
    let mut i: usize = from;
    while i < to
        invariant
            from <= i <= to <= data@.len(),
            v@ == data@.subrange(from as int, i as int),
        decreases to - i,
    {
        v.push(data[i]);
        i += 1;
        assert(v@ =~= data@.subrange(from as int, i as int));
    }
    v
}

/// Appends the encoding of a number, giving the number of bytes written.
pub fn encode_number(n: &Number, out: &mut Vec<u8>) -> (r: usize)
    requires
        n.wf(),
    ensures
        final(out)@ == old(out)@ + enc_number(n@),
        r == enc_number(n@).len(),
{
    let c = encode_layout(n.layout(), out);
    let bytes = n.to_vec();
    let mut i: usize = 0;
    let ghost mid = out@;
    while i < bytes.len()
        invariant
            i <= bytes@.len(),
            out@ == mid + bytes@.subrange(0, i as int),
        decreases bytes.len() - i,
    {
        out.push(bytes[i]);
        i += 1;
        assert(out@ =~= mid + bytes@.subrange(0, i as int));
    }
    assert(bytes@.subrange(0, bytes@.len() as int) =~= bytes@);
    assert(out@ =~= old(out)@ + enc_number(n@));
    c + bytes.len()
}

/// Reads a number at `pos` (see [`dec_number`]).
pub fn decode_number(data: &[u8], pos: usize) -> (r: Result<(Number, usize), DecodeError>)
    ensures
        decoded_number(r) == dec_number(data@, pos as nat),
        r matches Ok((n, _)) ==> n.wf(),
{
    let (l, q) = decode_layout(data, pos)?;
    let len = l.bytes() as usize;
    if q > data.len() || data.len() - q < len {
        return Err(DecodeError::UnexpectedEnd);
    }
    let v = copy_range(data, q, q + len);
    if l.bytes() < 1 || l.bytes() > 1024 {
        return Err(DecodeError::NumberLayout(l, v));
    }
    match Number::with(v.as_slice(), l) {
        Some(n) => Ok((n, q + len)),
        None => Err(DecodeError::NumberLayout(l, v)),
    }
}

/// Encoding of an optional number: the word 1 and the number, or the word 0.
pub open spec fn enc_opt_number(o: Option<NumberModel>) -> Seq<u8> {
    match o {
        Some(n) => enc_u16(1) + enc_number(n),
        None => enc_u16(0),
    }
}

/// Optional number at position `p`: a flag byte, then the number when it is 1.
pub open spec fn dec_opt_number(d: Seq<u8>, p: nat) -> Decoded<Option<NumberModel>> {
    match dec_u8(d, p) {
        Decoded::Value(b, q) => if b == 0 {
            Decoded::Value(None, q)
        } else if b == 1 {
            match dec_number(d, q) {
                Decoded::Value(n, q2) => Decoded::Value(Some(n), q2),
                Decoded::Fail(e) => Decoded::Fail(e),
            }
        } else {
            Decoded::Fail(DecodeFailure::InvalidBool(b))
        },
        Decoded::Fail(e) => Decoded::Fail(e),
    }
}

/// Outcome of an optional number decoder.
pub open spec fn decoded_opt_number(r: Result<(Option<Number>, usize), DecodeError>) -> Decoded<
    Option<NumberModel>,
> {
    match r {
        Ok((Some(n), p)) => Decoded::Value(Some(n@), p as nat),
        Ok((None, p)) => Decoded::Value(None, p as nat),
        Err(e) => Decoded::Fail(e@),
    }
}

/// Appends the encoding of an optional number, giving the number of bytes written.
pub fn encode_opt_number(o: &Option<Number>, out: &mut Vec<u8>) -> (r: usize)
    requires
        o matches Some(n) ==> n.wf(),
    ensures
        final(out)@ == old(out)@ + enc_opt_number(crate::number::opt_model(*o)),
        r == enc_opt_number(crate::number::opt_model(*o)).len(),
{
    match o {
        Some(n) => {
            let a = encode_u16(1, out);
            let b = encode_number(n, out);
            assert(out@ =~= old(out)@ + enc_opt_number(crate::number::opt_model(*o)));
            a + b
        },
        None => encode_u16(0, out),
    }
}

/// Reads an optional number at `pos` (see [`dec_opt_number`]).
pub fn decode_opt_number(data: &[u8], pos: usize) -> (r: Result<(Option<Number>, usize), DecodeError>)
    ensures
        decoded_opt_number(r) == dec_opt_number(data@, pos as nat),
        r matches Ok((Some(n), _)) ==> n.wf(),
{
    let (b, q) = decode_u8(data, pos)?;
    if b == 0 {
        Ok((None, q))
    } else if b == 1 {
        let (n, q2) = decode_number(data, q)?;
        Ok((Some(n), q2))
    } else {
        Err(DecodeError::InvalidBool(b))
    }
}

/// Encoding of a byte string: its length as a word, then its bytes.
pub open spec fn enc_bytestr(s: Seq<u8>) -> Seq<u8> {
    enc_u16(s.len() as u16) + s
}

/// Byte string at position `p`: a length word, then as many bytes.
pub open spec fn dec_bytestr(d: Seq<u8>, p: nat) -> Decoded<Seq<u8>> {
    match dec_u16(d, p) {
        Decoded::Value(len, q) => if q + len <= d.len() {
            Decoded::Value(d.subrange(q as int, q + len), q + (len as nat))
        } else {
            Decoded::Fail(DecodeFailure::UnexpectedEnd)
        },
        Decoded::Fail(e) => Decoded::Fail(e),
    }
}

/// Encoding of an optional byte string: the string, or a single zero byte.
pub open spec fn enc_opt_bytestr(o: Option<Seq<u8>>) -> Seq<u8> {
    match o {
        Some(s) => enc_bytestr(s),
        None => seq![0u8],
    }
}

/// Optional byte string at position `p`: a length byte, nothing when it is zero, else as many
/// bytes.
pub open spec fn dec_opt_bytestr(d: Seq<u8>, p: nat) -> Decoded<Option<Seq<u8>>> {
    match dec_u8(d, p) {
        Decoded::Value(len, q) => if len == 0 {
            Decoded::Value(None, q)
        } else if q + len <= d.len() {
            Decoded::Value(Some(d.subrange(q as int, q + len)), q + (len as nat))
        } else {
            Decoded::Fail(DecodeFailure::UnexpectedEnd)
        },
        Decoded::Fail(e) => Decoded::Fail(e),
    }
}

/// Outcome of a byte string decoder: the bytes of the string.
pub open spec fn decoded_bytestr(r: Result<(ByteStr, usize), DecodeError>) -> Decoded<Seq<u8>> {
    match r {
        Ok((s, p)) => Decoded::Value(content(s@), p as nat),
        Err(e) => Decoded::Fail(e@),
    }
}

/// Outcome of an optional byte string decoder.
pub open spec fn decoded_opt_bytestr(r: Result<(Option<ByteStr>, usize), DecodeError>) -> Decoded<
    Option<Seq<u8>>,
> {
    match r {
        Ok((Some(s), p)) => Decoded::Value(Some(content(s@)), p as nat),
        Ok((None, p)) => Decoded::Value(None, p as nat),
        Err(e) => Decoded::Fail(e@),
    }
}

/// Appends the bytes of a slice.
fn append_all(src: &[u8], out: &mut Vec<u8>)
    ensures
        final(out)@ == old(out)@ + src@,
{
    let mut i: usize = 0;
    while i < src.len()
        invariant
            i <= src@.len(),
            out@ == old(out)@ + src@.subrange(0, i as int),
        decreases src.len() - i,
    {
        out.push(src[i]);
        i += 1;
        assert(out@ =~= old(out)@ + src@.subrange(0, i as int));
    }
    assert(src@.subrange(0, src@.len() as int) =~= src@);
}

/// Appends the encoding of a byte string, giving the number of bytes written.
pub fn encode_bytestr(s: &ByteStr, out: &mut Vec<u8>) -> (r: usize)
    requires
        s.wf(),
    ensures
        final(out)@ == old(out)@ + enc_bytestr(content(s@)),
        r == enc_bytestr(content(s@)).len(),
{
    let len = s.len();
    let a = encode_u16(len, out);
    let bytes = s.to_vec();
    append_all(bytes.as_slice(), out);
    assert(out@ =~= old(out)@ + enc_bytestr(content(s@)));
    a + bytes.len()
}

/// Reads a byte string at `pos` (see [`dec_bytestr`]).
pub fn decode_bytestr(data: &[u8], pos: usize) -> (r: Result<(ByteStr, usize), DecodeError>)
    ensures
        decoded_bytestr(r) == dec_bytestr(data@, pos as nat),
        r matches Ok((s, _)) ==> s.wf(),
{
    let (len, q) = decode_u16(data, pos)?;
    let n = len as usize;
    if q > data.len() || data.len() - q < n {
        return Err(DecodeError::UnexpectedEnd);
    }
    let v = copy_range(data, q, q + n);
    let s = ByteStr::with(v.as_slice());
    assert(content(s@) =~= v@);
    Ok((s, q + n))
}

/// Appends the encoding of an optional byte string, giving the number of bytes written.
pub fn encode_opt_bytestr(o: &Option<ByteStr>, out: &mut Vec<u8>) -> (r: usize)
    requires
        o matches Some(s) ==> s.wf(),
    ensures
        final(out)@ == old(out)@ + enc_opt_bytestr(
            match o {
                Some(s) => Some(content(s@)),
                None => None,
            },
        ),
        r == enc_opt_bytestr(
            match o {
                Some(s) => Some(content(s@)),
                None => None,
            },
        ).len(),
{
    match o {
        Some(s) => encode_bytestr(s, out),
        None => {
            let r = encode_u8(0, out);
            assert(out@ =~= old(out)@ + seq![0u8]);
            r
        },
    }
}

/// Reads an optional byte string at `pos` (see [`dec_opt_bytestr`]).
pub fn decode_opt_bytestr(data: &[u8], pos: usize) -> (r: Result<(Option<ByteStr>, usize), DecodeError>)
    ensures
        decoded_opt_bytestr(r) == dec_opt_bytestr(data@, pos as nat),
        r matches Ok((Some(s), _)) ==> s.wf(),
{
    let (len, q) = decode_u8(data, pos)?;
    if len == 0 {
        return Ok((None, q));
    }
    let n = len as usize;
    if q > data.len() || data.len() - q < n {
        return Err(DecodeError::UnexpectedEnd);
    }
    let v = copy_range(data, q, q + n);
    let s = ByteStr::with(v.as_slice());
    assert(content(s@) =~= v@);
    Ok((Some(s), q + n))
}

/// Unsigned value of a big-endian byte string.
pub open spec fn be_val(s: Seq<u8>) -> nat
    decreases s.len(),
{
    if s.len() == 0 {
        0
    } else {
        be_val(s.drop_last()) * 256 + (s.last() as nat)
    }
}

/// Big-endian encoding of `x` (taken modulo `256^n`) in exactly `n` bytes.
pub open spec fn be_bytes(x: nat, n: nat) -> Seq<u8>
    decreases n,
{
    if n == 0 {
        Seq::empty()
    } else {
        be_bytes(x / 256, (n - 1) as nat).push((x % 256) as u8)
    }
}

/// A big-endian value is below `256^n` for `n` bytes.
pub proof fn lemma_be_val_bound(s: Seq<u8>)
    ensures
        be_val(s) < pow256(s.len()),
    decreases s.len(),
{
    if s.len() > 0 {
        lemma_be_val_bound(s.drop_last());
        assert(be_val(s.drop_last()) * 256 + s.last() < pow256(s.len())) by (nonlinear_arith)
            requires
                be_val(s.drop_last()) < pow256(s.drop_last().len()),
                pow256(s.len()) == 256 * pow256(s.drop_last().len()),
                s.last() < 256,
        ;
    }
}

/// Encoding in `n` big-endian bytes and reading back gives the value modulo `256^n`.
pub proof fn lemma_be_bytes_val(x: nat, n: nat)
    ensures
        be_bytes(x, n).len() == n,
        be_val(be_bytes(x, n)) == x % pow256(n),
    decreases n,
{
    if n == 0 {
        assert(x % 1 == 0);
    } else {
        let m = (n - 1) as nat;
        lemma_be_bytes_val(x / 256, m);
        crate::num::lemma_pow256_pos(m);
        let s = be_bytes(x, n);
        assert(s.drop_last() =~= be_bytes(x / 256, m));
        vstd::arithmetic::div_mod::lemma_mod_breakdown(x as int, 256, pow256(m) as int);
        assert(256 * pow256(m) == pow256(n));
        assert(((x % 256) as u8) as nat == x % 256);
        assert(be_val(s) == ((x / 256) % pow256(m)) * 256 + x % 256);
        assert(((x / 256) % pow256(m)) * 256 == 256 * ((x / 256) % pow256(m))) by (nonlinear_arith);
    }
}

/// Appends `x` (taken modulo `256^n`) as `n` big-endian bytes.
fn encode_be(x: u128, n: usize, out: &mut Vec<u8>)
    ensures
        final(out)@ == old(out)@ + be_bytes(x as nat, n as nat),
    decreases n,
{
    if n == 0 {
        assert(old(out)@ + be_bytes(x as nat, 0) =~= old(out)@);
    } else {
        encode_be(x / 256, n - 1, out);
        out.push((x % 256) as u8);
        assert(out@ =~= old(out)@ + be_bytes(x as nat, n as nat));
    }
}

/// Reads 16 big-endian bytes at `pos` as a 128-bit value.
fn decode_be16(data: &[u8], pos: usize) -> (r: u128)
    requires
        pos + 16 <= data@.len(),
    ensures
        r == be_val(data@.subrange(pos as int, pos + 16)),
{
    let len = data.len();
    let mut v: u128 = 0;
    let mut i: usize = 0;
    while i < 16
        invariant
            i <= 16,
            len == data@.len(),
            pos + 16 <= len,
            v == be_val(data@.subrange(pos as int, pos + i)),
        decreases 16 - i,
    {
        let ghost t = data@.subrange(pos as int, pos + i + 1);
        proof {
            assert(t.drop_last() =~= data@.subrange(pos as int, pos + i));
            lemma_be_val_bound(t);
            crate::num::lemma_pow256_values();
            crate::num::lemma_pow256_mono((i + 1) as nat, 16);
        }
        v = v * 256 + data[pos + i] as u128;
        i += 1;
    }
    v
}

/// Encoding of a library identifier: its 32 bytes, first half first.
pub open spec fn enc_lib_id(id: LibId) -> Seq<u8> {
    be_bytes(id.hi as nat, 16) + be_bytes(id.lo as nat, 16)
}

/// Library identifier at position `p`: 32 bytes.
pub open spec fn dec_lib_id(d: Seq<u8>, p: nat) -> Decoded<LibId> {
    if p + 32 <= d.len() {
        Decoded::Value(
            LibId {
                hi: be_val(d.subrange(p as int, p + 16int)) as u128,
                lo: be_val(d.subrange(p + 16int, p + 32int)) as u128,
            },
            p + 32,
        )
    } else {
        Decoded::Fail(DecodeFailure::UnexpectedEnd)
    }
}

/// Encoding of a library site: the library identifier, then the offset as a word.
pub open spec fn enc_lib_site(s: LibSite) -> Seq<u8> {
    enc_lib_id(s.lib) + enc_u16(s.pos)
}

/// Library site at position `p`.
pub open spec fn dec_lib_site(d: Seq<u8>, p: nat) -> Decoded<LibSite> {
    match dec_lib_id(d, p) {
        Decoded::Value(lib, q) => match dec_u16(d, q) {
            Decoded::Value(pos, q2) => Decoded::Value(LibSite { lib, pos }, q2),
            Decoded::Fail(e) => Decoded::Fail(e),
        },
        Decoded::Fail(e) => Decoded::Fail(e),
    }
}

/// Appends the encoding of a library identifier, giving the number of bytes written.
pub fn encode_lib_id(id: LibId, out: &mut Vec<u8>) -> (r: usize)
    ensures
        final(out)@ == old(out)@ + enc_lib_id(id),
        r == 32,
{
    encode_be(id.hi, 16, out);
    encode_be(id.lo, 16, out);
    proof {
        lemma_be_bytes_val(id.hi as nat, 16);
        lemma_be_bytes_val(id.lo as nat, 16);
    }
    assert(out@ =~= old(out)@ + enc_lib_id(id));
    32
}

/// Reads a library identifier at `pos`.
pub fn decode_lib_id(data: &[u8], pos: usize) -> (r: Result<(LibId, usize), DecodeError>)
    ensures
        decoded(r) == dec_lib_id(data@, pos as nat),
{
    if pos > data.len() || data.len() - pos < 32 {
        return Err(DecodeError::UnexpectedEnd);
    }
    let hi = decode_be16(data, pos);
    let lo = decode_be16(data, pos + 16);
    Ok((LibId { hi, lo }, pos + 32))
}

/// Appends the encoding of a library site, giving the number of bytes written.
pub fn encode_lib_site(s: LibSite, out: &mut Vec<u8>) -> (r: usize)
    ensures
        final(out)@ == old(out)@ + enc_lib_site(s),
        r == 34,
{
    let a = encode_lib_id(s.lib, out);
    let b = encode_u16(s.pos, out);
    assert(out@ =~= old(out)@ + enc_lib_site(s));
    a + b
}

/// Reads a library site at `pos`.
pub fn decode_lib_site(data: &[u8], pos: usize) -> (r: Result<(LibSite, usize), DecodeError>)
    ensures
        decoded(r) == dec_lib_site(data@, pos as nat),
{
    let (lib, q) = decode_lib_id(data, pos)?;
    let (p, q2) = decode_u16(data, q)?;
    Ok((LibSite::with(p, lib), q2))
}

} // verus!
