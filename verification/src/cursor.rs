//! Cursor over bytecode: reading and writing bit fields, bytes, words and slices at a position
//! of at most `u16::MAX`.

use vstd::prelude::*;

use crate::codec::CursorError;

verus! {

/// Abstract content of a [`Cursor`].
pub struct CursorModel {
    /// The bytecode.
    pub bytes: Seq<u8>,
    /// Byte offset.
    pub byte_pos: u16,
    /// Bit offset within the byte, below 8.
    pub bit_pos: u8,
    /// Whether the cursor went past the largest offset.
    pub eof: bool,
}

/// Outcome of a cursor operation: the cursor after it and the result.
pub type Step<T> = (CursorModel, Result<T, CursorError>);

/// Mask of the `n` low bits of a byte.
pub open spec fn low_mask(n: u8) -> u8 {
    if n == 0 {
        0
    } else if n == 1 {
        1
    } else if n == 2 {
        3
    } else if n == 3 {
        7
    } else if n == 4 {
        15
    } else if n == 5 {
        31
    } else if n == 6 {
        63
    } else if n == 7 {
        127
    } else {
        255
    }
}

/// The `n` bits of `byte` from bit `at` on (bits beyond the byte are lost).
pub open spec fn bits_at(byte: u8, at: u8, n: u8) -> u8 {
    (byte & (low_mask(n) << at)) >> at
}

/// Moving the byte offset on by `k`: past the largest offset by one the cursor reaches its end;
/// further is an error.
pub open spec fn advance_inner(m: CursorModel, k: u16) -> Step<()> {
    if k == 1 && m.byte_pos == u16::MAX {
        (CursorModel { eof: true, ..m }, Ok(()))
    } else if m.byte_pos + k > u16::MAX {
        (m, Err(CursorError::OutOfBoundaries((m.byte_pos + k) as usize)))
    } else {
        (CursorModel { byte_pos: (m.byte_pos + k) as u16, ..m }, Ok(()))
    }
}

/// Moving the position on by `n` bits.
pub open spec fn advance_bits(m: CursorModel, n: u8) -> Step<()> {
    if m.eof {
        (m, Err(CursorError::Eof))
    } else {
        let pos = m.bit_pos + n;
        advance_inner(CursorModel { bit_pos: (pos % 8) as u8, ..m }, (pos / 8) as u16)
    }
}

/// Moving the position on by `k` bytes.
pub open spec fn advance_bytes(m: CursorModel, k: u16) -> Step<()> {
    if m.eof {
        (m, Err(CursorError::Eof))
    } else {
        advance_inner(m, k)
    }
}

/// Result `v` after a step, or the step's error.
pub open spec fn then_value<T>(s: Step<()>, v: T) -> Step<T> {
    match s.1 {
        Ok(_) => (s.0, Ok(v)),
        Err(e) => (s.0, Err(e)),
    }
}

/// Reading `n` bits (between 1 and 7).
pub open spec fn read_bits_step(m: CursorModel, n: u8) -> Step<u8> {
    if m.eof {
        (m, Err(CursorError::Eof))
    } else {
        then_value(advance_bits(m, n), bits_at(m.bytes[m.byte_pos as int], m.bit_pos, n))
    }
}

/// Reading a byte.
pub open spec fn read_u8_step(m: CursorModel) -> Step<u8> {
    if m.eof {
        (m, Err(CursorError::Eof))
    } else {
        then_value(advance_bytes(m, 1), m.bytes[m.byte_pos as int])
    }
}

/// Reading a little-endian word.
pub open spec fn read_u16_step(m: CursorModel) -> Step<u16> {
    if m.eof {
        (m, Err(CursorError::Eof))
    } else {
        then_value(
            advance_bytes(m, 2),
            (m.bytes[m.byte_pos as int] + 256 * m.bytes[m.byte_pos + 1]) as u16,
        )
    }
}

/// Reading 32 bytes.
pub open spec fn read_bytes32_step(m: CursorModel) -> Step<Seq<u8>> {
    if m.eof {
        (m, Err(CursorError::Eof))
    } else {
        then_value(
            advance_bytes(m, 32),
            m.bytes.subrange(m.byte_pos as int, m.byte_pos + 32),
        )
    }
}

/// Writing the low `n` bits of `data` into the current byte at the bit offset (by OR).
pub open spec fn write_bits_step(m: CursorModel, data: u8, n: u8) -> Step<()> {
    let b = m.bytes[m.byte_pos as int] | ((data << m.bit_pos) as u8);
    advance_bits(CursorModel { bytes: m.bytes.update(m.byte_pos as int, b), ..m }, n)
}

/// Writing a byte.
pub open spec fn write_u8_step(m: CursorModel, data: u8) -> Step<()> {
    advance_bytes(CursorModel { bytes: m.bytes.update(m.byte_pos as int, data), ..m }, 1)
}

/// Writing a little-endian word.
pub open spec fn write_u16_step(m: CursorModel, data: u16) -> Step<()> {
    advance_bytes(
        CursorModel {
            bytes: m.bytes.update(m.byte_pos as int, (data % 256) as u8).update(
                m.byte_pos + 1,
                (data / 256) as u8,
            ),
            ..m
        },
        2,
    )
}

/// Writing 32 bytes.
pub open spec fn write_bytes32_step(m: CursorModel, data: Seq<u8>) -> Step<()> {
    advance_bytes(
        CursorModel {
            bytes: Seq::new(
                m.bytes.len(),
                |i: int|
                    if m.byte_pos <= i < m.byte_pos + 32 {
                        data[i - m.byte_pos]
                    } else {
                        m.bytes[i]
                    },
            ),
            ..m
        },
        32,
    )
}

/// Reading a slice: a little-endian length word, then that many bytes. The position moves on
/// by two more bytes than the slice holds, past the length word a second time.
pub open spec fn read_slice_step(m: CursorModel) -> Step<Seq<u8>> {
    if m.eof {
        (m, Err(CursorError::Eof))
    } else {
        let (m1, r1) = read_u16_step(m);
        match r1 {
            Err(e) => (m1, Err(e)),
            Ok(len) => then_value(
                advance_bytes(m1, (2 + len) as u16),
                m1.bytes.subrange(m1.byte_pos as int, m1.byte_pos + len),
            ),
        }
    }
}

/// `data` written over `bytes` from offset `at` on.
pub open spec fn spliced(bytes: Seq<u8>, at: int, data: Seq<u8>) -> Seq<u8> {
    Seq::new(
        bytes.len(),
        |i: int|
            if at <= i < at + data.len() {
                data[i - at]
            } else {
                bytes[i]
            },
    )
}

/// Writing a slice: its length as a little-endian word, which must be below `u16::MAX`, then
/// its bytes. As in reading, the position moves on by two more bytes than the slice holds.
pub open spec fn write_slice_step(m: CursorModel, data: Seq<u8>) -> Step<()> {
    if data.len() >= u16::MAX {
        (m, Err(CursorError::OutOfBoundaries(data.len() as usize)))
    } else {
        let (m1, r1) = write_u16_step(m, data.len() as u16);
        match r1 {
            Err(e) => (m1, Err(e)),
            Ok(_) => advance_bytes(
                CursorModel { bytes: spliced(m1.bytes, m1.byte_pos as int, data), ..m1 },
                (2 + data.len()) as u16,
            ),
        }
    }
}

/// What reading a slice needs of the cursor, unless it is at its end: a byte boundary, a length
/// word within the bytecode, two bytes of the move past the slice that fit a word, and, when
/// that move succeeds, the slice within the bytecode.
pub open spec fn read_slice_fit(m: CursorModel) -> bool {
    &&& !m.eof ==> m.byte_pos + 2 <= m.bytes.len() && m.bit_pos == 0
    &&& ({
        let (m1, r1) = read_u16_step(m);
        !m.eof && r1 is Ok ==> {
            let len = r1->Ok_0;
            &&& 2 + len <= u16::MAX
            &&& advance_bytes(m1, (2 + len) as u16).1 is Ok ==> m1.byte_pos + len <= m1.bytes.len()
        }
    })
}

/// What writing a slice needs of the cursor when its length fits: a byte boundary, a length
/// word within the bytecode, and, when the word is written, two bytes of the move past the
/// slice that fit a word and the slice within the bytecode.
pub open spec fn write_slice_fit(m: CursorModel, data: Seq<u8>) -> bool {
    data.len() < u16::MAX ==> {
        &&& m.bit_pos == 0
        &&& m.byte_pos + 2 <= m.bytes.len()
        &&& (write_u16_step(m, data.len() as u16).1 is Ok ==> {
            &&& 2 + data.len() <= u16::MAX
            &&& m.byte_pos + 2 + data.len() <= m.bytes.len()
        })
    }
}

/// Cursor over bytecode, with a byte offset, a bit offset and an end flag.
#[derive(Clone, Debug)]
pub struct Cursor {
    bytes: Vec<u8>,
    byte_pos: u16,
    bit_pos: u8,
    eof: bool,
}

impl View for Cursor {
    type V = CursorModel;

    closed spec fn view(&self) -> CursorModel {
        CursorModel {
            bytes: self.bytes@,
            byte_pos: self.byte_pos,
            bit_pos: self.bit_pos,
            eof: self.eof,
        }
    }
}

/// Mask of the `n` low bits of a byte.
fn mask_of(n: u8) -> (r: u8)
    ensures
        r == low_mask(n),
{
    match n {
        0 => 0,
        1 => 1,
        2 => 3,
        3 => 7,
        4 => 15,
        5 => 31,
        6 => 63,
        7 => 127,
        _ => 255,
    }
}

impl Cursor {
    /// Whether the bit offset is below 8.
    pub open spec fn wf(&self) -> bool {
        self@.bit_pos < 8
    }

    /// Cursor at the start of the bytecode.
    pub fn with(bytecode: Vec<u8>) -> (r: Cursor)
        ensures
            r.wf(),
            r@ == (CursorModel { bytes: bytecode@, byte_pos: 0, bit_pos: 0, eof: false }),
    {
        Cursor { bytes: bytecode, byte_pos: 0, bit_pos: 0, eof: false }
    }

    /// The bytecode.
    pub fn bytes(&self) -> (r: &[u8])
        ensures
            r@ == self@.bytes,
    {
        self.bytes.as_slice()
    }

    /// Whether the cursor went past the largest offset.
    pub fn is_eof(&self) -> (r: bool)
        ensures
            r == self@.eof,
    {
        self.eof
    }

    /// Bit offset within the current byte.
    pub fn bit_pos(&self) -> (r: u8)
        ensures
            r == self@.bit_pos,
    {
        self.bit_pos
    }

    /// Byte offset (bits are not counted).
    pub fn pos(&self) -> (r: u16)
        ensures
            r == self@.byte_pos,
    {
        self.byte_pos
    }

    /// Sets the byte offset, keeping the bit offset.
    pub fn seek(&mut self, byte_pos: u16)
        ensures
            final(self)@ == (CursorModel { byte_pos, ..old(self)@ }),
    {
        self.byte_pos = byte_pos;
    }

    /// Whether the byte offset is at or beyond the end of the bytecode.
    pub fn is_end(&self) -> (r: bool)
        ensures
            r == (self@.byte_pos >= self@.bytes.len()),
    {
        self.byte_pos as usize >= self.bytes.len()
    }

    /// Byte at the offset, without moving.
    pub fn peek_u8(&self) -> (r: Result<u8, CursorError>)
        requires
            !self@.eof ==> self@.byte_pos < self@.bytes.len(),
        ensures
            r == (if self@.eof {
                Err(CursorError::Eof)
            } else {
                Ok::<u8, CursorError>(self@.bytes[self@.byte_pos as int])
            }),
    {
        if self.eof {
            return Err(CursorError::Eof);
        }
        Ok(self.bytes[self.byte_pos as usize])
    }

    /// Moves the byte offset on by `k`.
    fn advance_inner(&mut self, k: u16) -> (r: Result<(), CursorError>)
        ensures
            (final(self)@, r) == advance_inner(old(self)@, k),
    {
        if k == 1 && self.byte_pos == u16::MAX {
            self.eof = true;
            Ok(())
        } else {
            match self.byte_pos.checked_add(k) {
                Some(p) => {
                    self.byte_pos = p;
                    Ok(())
                },
                None => Err(CursorError::OutOfBoundaries(self.byte_pos as usize + k as usize)),
            }
        }
    }

    /// Moves the position on by `n` bits.
    fn advance_bits(&mut self, n: u8) -> (r: Result<(), CursorError>)
        requires
            old(self).wf(),
            n < 8,
        ensures
            final(self).wf(),
            (final(self)@, r) == advance_bits(old(self)@, n),
    {
        if self.eof {
            return Err(CursorError::Eof);
        }
        let pos = self.bit_pos + n;
        self.bit_pos = pos % 8;
        self.advance_inner((pos / 8) as u16)
    }

    /// Moves the position on by `k` bytes; the bit offset must be zero.
    fn advance_bytes(&mut self, k: u16) -> (r: Result<(), CursorError>)
        requires
            old(self)@.bit_pos == 0,
        ensures
            final(self)@.bit_pos == 0,
            (final(self)@, r) == advance_bytes(old(self)@, k),
    {
        if self.eof {
            return Err(CursorError::Eof);
        }
        self.advance_inner(k)
    }

    /// Reads `n` bits (between 1 and 7) from the current byte at the bit offset.
    pub(crate) fn read_bits(&mut self, n: u8) -> (r: Result<u8, CursorError>)
        requires
            old(self).wf(),
            1 <= n < 8,
            !old(self)@.eof ==> old(self)@.byte_pos < old(self)@.bytes.len(),
        ensures
            final(self).wf(),
            (final(self)@, r) == read_bits_step(old(self)@, n),
    {
        if self.eof {
            return Err(CursorError::Eof);
        }
        let byte = self.bytes[self.byte_pos as usize];
        let mask = mask_of(n) << self.bit_pos;
        let val = (byte & mask) >> self.bit_pos;
        match self.advance_bits(n) {
            Ok(()) => Ok(val),
            Err(e) => Err(e),
        }
    }

    /// Reads a flag bit: set when the bit is 1.
    pub fn read_bool(&mut self) -> (r: Result<bool, CursorError>)
        requires
            old(self).wf(),
            !old(self)@.eof ==> old(self)@.byte_pos < old(self)@.bytes.len(),
        ensures
            final(self).wf(),
            final(self)@ == read_bits_step(old(self)@, 1).0,
            r == (match read_bits_step(old(self)@, 1).1 {
                Ok(b) => Ok::<bool, CursorError>(b == 1),
                Err(e) => Err(e),
            }),
    {
        match self.read_bits(1) {
            Ok(b) => Ok(b == 1),
            Err(e) => Err(e),
        }
    }

    /// Reads a 2-bit value.
    pub fn read_u2(&mut self) -> (r: Result<u8, CursorError>)
        requires
            old(self).wf(),
            !old(self)@.eof ==> old(self)@.byte_pos < old(self)@.bytes.len(),
        ensures
            final(self).wf(),
            (final(self)@, r) == read_bits_step(old(self)@, 2),
    {
        self.read_bits(2)
    }

    /// Reads a 3-bit value.
    pub fn read_u3(&mut self) -> (r: Result<u8, CursorError>)
        requires
            old(self).wf(),
            !old(self)@.eof ==> old(self)@.byte_pos < old(self)@.bytes.len(),
        ensures
            final(self).wf(),
            (final(self)@, r) == read_bits_step(old(self)@, 3),
    {
        self.read_bits(3)
    }

    /// Reads a 4-bit value.
    pub fn read_u4(&mut self) -> (r: Result<u8, CursorError>)
        requires
            old(self).wf(),
            !old(self)@.eof ==> old(self)@.byte_pos < old(self)@.bytes.len(),
        ensures
            final(self).wf(),
            (final(self)@, r) == read_bits_step(old(self)@, 4),
    {
        self.read_bits(4)
    }

    /// Reads a 5-bit value.
    pub fn read_u5(&mut self) -> (r: Result<u8, CursorError>)
        requires
            old(self).wf(),
            !old(self)@.eof ==> old(self)@.byte_pos < old(self)@.bytes.len(),
        ensures
            final(self).wf(),
            (final(self)@, r) == read_bits_step(old(self)@, 5),
    {
        self.read_bits(5)
    }

    /// Reads a 6-bit value.
    pub fn read_u6(&mut self) -> (r: Result<u8, CursorError>)
        requires
            old(self).wf(),
            !old(self)@.eof ==> old(self)@.byte_pos < old(self)@.bytes.len(),
        ensures
            final(self).wf(),
            (final(self)@, r) == read_bits_step(old(self)@, 6),
    {
        self.read_bits(6)
    }

    /// Reads a 7-bit value.
    pub fn read_u7(&mut self) -> (r: Result<u8, CursorError>)
        requires
            old(self).wf(),
            !old(self)@.eof ==> old(self)@.byte_pos < old(self)@.bytes.len(),
        ensures
            final(self).wf(),
            (final(self)@, r) == read_bits_step(old(self)@, 7),
    {
        self.read_bits(7)
    }

    /// Reads a byte; the bit offset must be zero.
    pub fn read_u8(&mut self) -> (r: Result<u8, CursorError>)
        requires
            old(self).wf(),
            !old(self)@.eof ==> old(self)@.byte_pos < old(self)@.bytes.len() && old(self)@.bit_pos
                == 0,
        ensures
            final(self).wf(),
            (final(self)@, r) == read_u8_step(old(self)@),
    {
        if self.eof {
            return Err(CursorError::Eof);
        }
        let byte = self.bytes[self.byte_pos as usize];
        match self.advance_bytes(1) {
            Ok(()) => Ok(byte),
            Err(e) => Err(e),
        }
    }

    /// Reads a little-endian word; the bit offset must be zero.
    pub fn read_u16(&mut self) -> (r: Result<u16, CursorError>)
        requires
            old(self).wf(),
            !old(self)@.eof ==> old(self)@.byte_pos + 2 <= old(self)@.bytes.len() && old(
                self,
            )@.bit_pos == 0,
        ensures
            final(self).wf(),
            (final(self)@, r) == read_u16_step(old(self)@),
    {
        if self.eof {
            return Err(CursorError::Eof);
        }
        let pos = self.byte_pos as usize;
        let word = self.bytes[pos] as u16 + 256 * (self.bytes[pos + 1] as u16);
        match self.advance_bytes(2) {
            Ok(()) => Ok(word),
            Err(e) => Err(e),
        }
    }

    /// Reads 32 bytes; the bit offset must be zero.
    pub fn read_bytes32(&mut self) -> (r: Result<Vec<u8>, CursorError>)
        requires
            old(self).wf(),
            !old(self)@.eof ==> old(self)@.byte_pos + 32 <= old(self)@.bytes.len() && old(
                self,
            )@.bit_pos == 0,
        ensures
            final(self).wf(),
            final(self)@ == read_bytes32_step(old(self)@).0,
            match read_bytes32_step(old(self)@).1 {
                Ok(v) => r matches Ok(w) && w@ == v,
                Err(e) => r == Err::<Vec<u8>, CursorError>(e),
            },
    {
        if self.eof {
            return Err(CursorError::Eof);
        }
        let pos = self.byte_pos as usize;
        let mut buf: Vec<u8> = Vec::new();
        let mut i: usize = 0;
        while i < 32
            invariant
                i <= 32,
                pos == self@.byte_pos,
                pos + 32 <= self@.bytes.len(),
                buf@ == self@.bytes.subrange(pos as int, pos + i),
            decreases 32 - i,
        {
            buf.push(self.bytes[pos + i]);
            i += 1;
            assert(buf@ =~= self@.bytes.subrange(pos as int, pos + i));
        }
        match self.advance_bytes(32) {
            Ok(()) => Ok(buf),
            Err(e) => Err(e),
        }
    }

    /// Writes the low `n` bits of `data` (between 1 and 7 bits) into the current byte at the
    /// bit offset.
    pub(crate) fn write_bits(&mut self, data: u8, n: u8) -> (r: Result<(), CursorError>)
        requires
            old(self).wf(),
            1 <= n < 8,
            old(self)@.byte_pos < old(self)@.bytes.len(),
        ensures
            final(self).wf(),
            (final(self)@, r) == write_bits_step(old(self)@, data, n),
    {
        let pos = self.byte_pos as usize;
        let b = self.bytes[pos] | (data << self.bit_pos);
        self.bytes.set(pos, b);
        self.advance_bits(n)
    }

    /// Writes a flag bit.
    pub fn write_bool(&mut self, data: bool) -> (r: Result<(), CursorError>)
        requires
            old(self).wf(),
            old(self)@.byte_pos < old(self)@.bytes.len(),
        ensures
            final(self).wf(),
            (final(self)@, r) == write_bits_step(
                old(self)@,
                if data {
                    1
                } else {
                    0
                },
                1,
            ),
    {
        self.write_bits(if data { 1 } else { 0 }, 1)
    }

    /// Writes a 2-bit value.
    pub fn write_u2(&mut self, data: u8) -> (r: Result<(), CursorError>)
        requires
            old(self).wf(),
            data < 4,
            old(self)@.byte_pos < old(self)@.bytes.len(),
        ensures
            final(self).wf(),
            (final(self)@, r) == write_bits_step(old(self)@, data, 2),
    {
        self.write_bits(data, 2)
    }

    /// Writes a 3-bit value.
    pub fn write_u3(&mut self, data: u8) -> (r: Result<(), CursorError>)
        requires
            old(self).wf(),
            data < 8,
            old(self)@.byte_pos < old(self)@.bytes.len(),
        ensures
            final(self).wf(),
            (final(self)@, r) == write_bits_step(old(self)@, data, 3),
    {
        self.write_bits(data, 3)
    }

    /// Writes a 4-bit value.
    pub fn write_u4(&mut self, data: u8) -> (r: Result<(), CursorError>)
        requires
            old(self).wf(),
            data < 16,
            old(self)@.byte_pos < old(self)@.bytes.len(),
        ensures
            final(self).wf(),
            (final(self)@, r) == write_bits_step(old(self)@, data, 4),
    {
        self.write_bits(data, 4)
    }

    /// Writes a 5-bit value.
    pub fn write_u5(&mut self, data: u8) -> (r: Result<(), CursorError>)
        requires
            old(self).wf(),
            data < 32,
            old(self)@.byte_pos < old(self)@.bytes.len(),
        ensures
            final(self).wf(),
            (final(self)@, r) == write_bits_step(old(self)@, data, 5),
    {
        self.write_bits(data, 5)
    }

    /// Writes a 6-bit value.
    pub fn write_u6(&mut self, data: u8) -> (r: Result<(), CursorError>)
        requires
            old(self).wf(),
            data < 64,
            old(self)@.byte_pos < old(self)@.bytes.len(),
        ensures
            final(self).wf(),
            (final(self)@, r) == write_bits_step(old(self)@, data, 6),
    {
        self.write_bits(data, 6)
    }

    /// Writes a 7-bit value.
    pub fn write_u7(&mut self, data: u8) -> (r: Result<(), CursorError>)
        requires
            old(self).wf(),
            data < 128,
            old(self)@.byte_pos < old(self)@.bytes.len(),
        ensures
            final(self).wf(),
            (final(self)@, r) == write_bits_step(old(self)@, data, 7),
    {
        self.write_bits(data, 7)
    }

    /// Writes a byte; the bit offset must be zero.
    pub fn write_u8(&mut self, data: u8) -> (r: Result<(), CursorError>)
        requires
            old(self).wf(),
            old(self)@.bit_pos == 0,
            old(self)@.byte_pos < old(self)@.bytes.len(),
        ensures
            final(self).wf(),
            (final(self)@, r) == write_u8_step(old(self)@, data),
    {
        self.bytes.set(self.byte_pos as usize, data);
        self.advance_bytes(1)
    }

    /// Writes a little-endian word; the bit offset must be zero.
    pub fn write_u16(&mut self, data: u16) -> (r: Result<(), CursorError>)
        requires
            old(self).wf(),
            old(self)@.bit_pos == 0,
            old(self)@.byte_pos + 2 <= old(self)@.bytes.len(),
        ensures
            final(self).wf(),
            (final(self)@, r) == write_u16_step(old(self)@, data),
    {
        let pos = self.byte_pos as usize;
        self.bytes.set(pos, (data % 256) as u8);
        self.bytes.set(pos + 1, (data / 256) as u8);
        self.advance_bytes(2)
    }

    /// Reads a slice (see [`read_slice_step`]); the bit offset must be zero. When the length
    /// word is read, the two bytes of the move past the slice must fit a word, and when that
    /// move succeeds the slice must lie within the bytecode.
    pub fn read_slice(&mut self) -> (r: Result<Vec<u8>, CursorError>)
        requires
            old(self).wf(),
            read_slice_fit(old(self)@),
        ensures
            final(self).wf(),
            final(self)@ == read_slice_step(old(self)@).0,
            match read_slice_step(old(self)@).1 {
                Ok(v) => r matches Ok(w) && w@ == v,
                Err(e) => r == Err::<Vec<u8>, CursorError>(e),
            },
    {
        if self.eof {
            return Err(CursorError::Eof);
        }
        let len = match self.read_u16() {
            Ok(l) => l,
            Err(e) => return Err(e),
        };
        let pos = self.byte_pos as usize;
        match self.advance_bytes(2 + len) {
            Ok(()) => {},
            Err(e) => return Err(e),
        }
        let total = self.bytes.len();
        let mut buf: Vec<u8> = Vec::new();
        let mut i: usize = 0;
        while i < len as usize
            invariant
                i <= len,
                total == self@.bytes.len(),
                pos + len <= self@.bytes.len(),
                buf@ == self@.bytes.subrange(pos as int, pos + i),
            decreases len - i,
        {
            buf.push(self.bytes[pos + i]);
            i += 1;
            assert(buf@ =~= self@.bytes.subrange(pos as int, pos + i));
        }
        Ok(buf)
    }

    /// Writes a slice (see [`write_slice_step`]); the bit offset must be zero. When the length
    /// fits, the length word must lie within the bytecode, the two bytes of the move past the
    /// slice must fit a word, and the slice must fit after the length word.
    pub fn write_slice(&mut self, data: &[u8]) -> (r: Result<(), CursorError>)
        requires
            old(self).wf(),
            write_slice_fit(old(self)@, data@),
        ensures
            final(self).wf(),
            (final(self)@, r) == write_slice_step(old(self)@, data@),
    {
        let len = data.len();
        if len >= 65535 {
            return Err(CursorError::OutOfBoundaries(len));
        }
        match self.write_u16(len as u16) {
            Ok(()) => {},
            Err(e) => return Err(e),
        }
        let from = self.byte_pos as usize;
        let ghost orig = self.bytes@;
        let ghost mid = self@;
        let total = self.bytes.len();
        let mut i: usize = 0;
        while i < len
            invariant
                i <= len,
                total == self.bytes@.len(),
                len == data@.len(),
                from == self@.byte_pos,
                from + len <= orig.len(),
                self@.bit_pos == mid.bit_pos,
                self@.eof == mid.eof,
                self@.byte_pos == mid.byte_pos,
                orig == mid.bytes,
                self.bytes@.len() == orig.len(),
                forall|k: int|
                    0 <= k < orig.len() ==> #[trigger] self.bytes@[k] == (if from <= k < from + i {
                        data@[k - from]
                    } else {
                        orig[k]
                    }),
            decreases len - i,
        {
            self.bytes.set(from + i, data[i]);
            i += 1;
        }
        proof {
            assert(self.bytes@ =~= spliced(mid.bytes, mid.byte_pos as int, data@));
        }
        self.advance_bytes(2 + len as u16)
    }

    /// Writes 32 bytes; the bit offset must be zero.
    pub fn write_bytes32(&mut self, data: &[u8]) -> (r: Result<(), CursorError>)
        requires
            old(self).wf(),
            old(self)@.bit_pos == 0,
            data@.len() == 32,
            old(self)@.byte_pos + 32 <= old(self)@.bytes.len(),
        ensures
            final(self).wf(),
            (final(self)@, r) == write_bytes32_step(old(self)@, data@),
    {
        let from = self.byte_pos as usize;
        let ghost orig = self.bytes@;
        let mut i: usize = 0;
        while i < 32
            invariant
                i <= 32,
                from == self@.byte_pos,
                from + 32 <= orig.len(),
                data@.len() == 32,
                self@.bit_pos == old(self)@.bit_pos,
                self@.eof == old(self)@.eof,
                self@.byte_pos == old(self)@.byte_pos,
                orig == old(self)@.bytes,
                self.bytes@.len() == orig.len(),
                forall|k: int|
                    0 <= k < orig.len() ==> #[trigger] self.bytes@[k] == (if from <= k < from + i {
                        data@[k - from]
                    } else {
                        orig[k]
                    }),
            decreases 32 - i,
        {
            self.bytes.set(from + i, data[i]);
            i += 1;
        }
        proof {
            let m = old(self)@;
            assert(self.bytes@ =~= Seq::new(
                m.bytes.len(),
                |k: int| if m.byte_pos <= k < m.byte_pos + 32 { data@[k - m.byte_pos] } else { m.bytes[k] },
            ));
        }
        self.advance_bytes(32)
    }
}

} // verus!
