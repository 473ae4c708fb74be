//! Byte strings of up to `2^16 - 1` bytes held in a fixed buffer.

use vstd::prelude::*;

use crate::number::bytes_eq;

verus! {

/// Size of the buffer behind every byte string.
pub const STR_CAP: usize = 65535;

/// Abstract content of a [`ByteStr`]: its length and the whole buffer, which keeps the bytes
/// beyond the length that earlier operations left there.
pub struct ByteStrModel {
    /// Length of the string.
    pub len: nat,
    /// Buffer of [`STR_CAP`] bytes.
    pub buf: Seq<u8>,
}

/// Bytes of the string: the first `len` bytes of the buffer.
pub open spec fn content(m: ByteStrModel) -> Seq<u8> {
    m.buf.subrange(0, m.len as int)
}

/// Buffer holding `s` followed by zeros.
pub open spec fn padded(s: Seq<u8>) -> Seq<u8> {
    Seq::new(STR_CAP as nat, |i: int| if i < s.len() { s[i] } else { 0u8 })
}

/// Byte string with a length of at most `u16::MAX`, kept in a buffer of fixed size.
#[derive(Debug, Hash)]
pub struct ByteStr {
    len: u16,
    bytes: Vec<u8>,
}

/// Error of building a byte string from more bytes than it can hold.
#[derive(Clone, Copy, PartialEq, Eq, Structural, Debug)]
pub struct OverflowError {
    /// Largest number of bytes plus one.
    pub max: usize,
    /// Number of bytes given.
    pub value: usize,
}

impl View for ByteStr {
    type V = ByteStrModel;

    closed spec fn view(&self) -> ByteStrModel {
        ByteStrModel { len: self.len as nat, buf: self.bytes@ }
    }
}

impl ByteStr {
    /// Whether the buffer has its fixed size and the length fits in it.
    pub open spec fn wf(&self) -> bool {
        self@.buf.len() == STR_CAP && self@.len <= STR_CAP
    }

    /// Whether the string is well formed, checked at run time.
    pub fn wf_exec(&self) -> (r: bool)
        ensures
            r == self.wf(),
    {
        self.bytes.len() == STR_CAP && (self.len as usize) <= STR_CAP
    }

    /// Empty string with a zeroed buffer.
    pub fn new() -> (r: ByteStr)
        ensures
            r.wf(),
            r@ == (ByteStrModel { len: 0, buf: padded(Seq::empty()) }),
    {
        let mut bytes: Vec<u8> = Vec::new();
        let mut i: usize = 0;
        while i < STR_CAP
            invariant
                i <= STR_CAP,
                bytes@ == Seq::new(i as nat, |k: int| 0u8),
            decreases STR_CAP - i,
        {
            bytes.push(0u8);
            i = i + 1;
            assert(bytes@ =~= Seq::new(i as nat, |k: int| 0u8));
        }
        assert(bytes@ =~= padded(Seq::empty()));
        ByteStr { len: 0, bytes }
    }

    /// String holding a copy of `slice`, or an error when it is longer than `u16::MAX` bytes.
    pub fn try_from_slice(slice: &[u8]) -> (r: Result<ByteStr, OverflowError>)
        ensures
            slice@.len() <= STR_CAP <==> r is Ok,
            r matches Ok(s) ==> s.wf() && s@ == (ByteStrModel {
                len: slice@.len(),
                buf: padded(slice@),
            }),
            r matches Err(e) ==> e.max == STR_CAP + 1 && e.value == slice@.len(),
    {
        let len = slice.len();
        if len > STR_CAP {
            return Err(OverflowError { max: STR_CAP + 1, value: len });
        }
        let mut s = ByteStr::new();
        let mut i: usize = 0;
        while i < len
            invariant
                i <= len,
                len == slice@.len(),
                len <= STR_CAP,
                s.len == 0,
                s.bytes@.len() == STR_CAP,
                forall|k: int| 0 <= k < i ==> #[trigger] s.bytes@[k] == slice@[k],
                forall|k: int| i <= k < STR_CAP ==> #[trigger] s.bytes@[k] == 0u8,
            decreases len - i,
        {
            s.bytes.set(i, slice[i]);
            i = i + 1;
        }
        s.len = len as u16;
        assert(s.bytes@ =~= padded(slice@));
        Ok(s)
    }

    /// String holding a copy of `slice`, which has at most `u16::MAX` bytes.
    pub fn with(slice: &[u8]) -> (r: ByteStr)
        requires
            slice@.len() <= STR_CAP,
        ensures
            r.wf(),
            r@ == (ByteStrModel { len: slice@.len(), buf: padded(slice@) }),
    {
        match ByteStr::try_from_slice(slice) {
            Ok(s) => s,
            Err(_) => ByteStr::new(),
        }
    }

    /// Copy of the string, buffer included.
    pub fn clone_str(&self) -> (r: ByteStr)
        ensures
            r@ == self@,
    {
        let bytes = crate::number::slice_to_vec(self.bytes.as_slice());
        ByteStr { len: self.len, bytes }
    }

    /// Length of the string.
    pub fn len(&self) -> (r: u16)
        ensures
            r == self@.len,
    {
        self.len
    }

    /// Whether the string is empty.
    pub fn is_empty(&self) -> (r: bool)
        ensures
            r == (self@.len == 0),
    {
        self.len == 0
    }

    /// Sets the length; the buffer is unchanged, so a longer length shows the bytes that were
    /// left beyond the old one.
    pub fn adjust_len(&mut self, new_len: u16)
        ensures
            final(self)@ == (ByteStrModel { len: new_len as nat, buf: old(self)@.buf }),
    {
        self.len = new_len;
    }

    /// Raises the length to `new_len` when it is shorter.
    pub fn extend_len(&mut self, new_len: u16)
        ensures
            final(self)@ == (ByteStrModel {
                len: if new_len > old(self)@.len { new_len as nat } else { old(self)@.len },
                buf: old(self)@.buf,
            }),
    {
        if new_len > self.len {
            self.len = new_len;
        }
    }

    /// Sets the bytes in `start..end` to `val`, raising the length to `end` when it is shorter.
    pub fn fill(&mut self, start: u16, end: u16, val: u8)
        requires
            old(self).wf(),
            start <= end,
        ensures
            final(self).wf(),
            final(self)@.len == (if end > old(self)@.len { end as nat } else { old(self)@.len }),
            final(self)@.buf == Seq::new(
                STR_CAP as nat,
                |i: int| if start <= i < end { val } else { old(self)@.buf[i] },
            ),
    {
        self.extend_len(end);
        let ghost orig = self.bytes@;
        let ghost new_len = self.len;
        let mut i: usize = start as usize;
        while i < end as usize
            invariant
                start <= i <= end,
                end <= STR_CAP,
                self.len == new_len,
                self.bytes@.len() == STR_CAP,
                orig.len() == STR_CAP,
                forall|k: int|
                    0 <= k < STR_CAP ==> #[trigger] self.bytes@[k] == (if start <= k < i {
                        val
                    } else {
                        orig[k]
                    }),
            decreases end - i,
        {
            self.bytes.set(i, val);
            i = i + 1;
        }
        assert(self.bytes@ =~= Seq::new(
            STR_CAP as nat,
            |i: int| if start <= i < end { val } else { orig[i] },
        ));
    }

    /// Copy of the bytes of the string.
    pub fn to_vec(&self) -> (r: Vec<u8>)
        requires
            self.wf(),
        ensures
            r@ == content(self@),
    {
        let mut out: Vec<u8> = Vec::new();
        let n = self.len as usize;
        let mut i: usize = 0;
        while i < n
            invariant
                i <= n,
                n == self@.len,
                n <= STR_CAP,
                self.bytes@.len() == STR_CAP,
                out@ == self.bytes@.subrange(0, i as int),
            decreases n - i,
        {
            out.push(self.bytes[i]);
            i = i + 1;
            assert(out@ =~= self.bytes@.subrange(0, i as int));
        }
        out
    }

    /// Byte at position `i` of the buffer.
    pub fn byte(&self, i: u16) -> (r: u8)
        requires
            self.wf(),
            i < STR_CAP,
        ensures
            r == self@.buf[i as int],
    {
        self.bytes[i as usize]
    }

    /// Sets byte `i` of the buffer, leaving the length as it is.
    pub fn set_byte(&mut self, i: u16, b: u8)
        requires
            old(self).wf(),
            i < STR_CAP,
        ensures
            final(self).wf(),
            final(self)@ == (ByteStrModel {
                len: old(self)@.len,
                buf: old(self)@.buf.update(i as int, b),
            }),
    {
        self.bytes.set(i as usize, b);
    }

    /// Appends bytes after the current length.
    pub fn extend(&mut self, more: &[u8])
        requires
            old(self).wf(),
            old(self)@.len + more@.len() <= STR_CAP,
        ensures
            final(self).wf(),
            final(self)@.len == old(self)@.len + more@.len(),
            final(self)@.buf == Seq::new(
                STR_CAP as nat,
                |i: int|
                    if old(self)@.len <= i < old(self)@.len + more@.len() {
                        more@[i - old(self)@.len]
                    } else {
                        old(self)@.buf[i]
                    },
            ),
            content(final(self)@) == content(old(self)@) + more@,
    {
        let ghost orig = self.bytes@;
        let start = self.len as usize;
        let mut i: usize = 0;
        while i < more.len()
            invariant
                i <= more@.len(),
                start == old(self)@.len,
                start + more@.len() <= STR_CAP,
                self.len == old(self).len,
                orig == old(self)@.buf,
                self.bytes@.len() == STR_CAP,
                forall|k: int|
                    0 <= k < STR_CAP ==> #[trigger] self.bytes@[k] == (if start <= k < start + i {
                        more@[k - start]
                    } else {
                        orig[k]
                    }),
            decreases more@.len() - i,
        {
            self.bytes.set(start + i, more[i]);
            i = i + 1;
        }
        self.len = (start + more.len()) as u16;
        assert(self.bytes@ =~= Seq::new(
            STR_CAP as nat,
            |i: int|
                if old(self)@.len <= i < old(self)@.len + more@.len() {
                    more@[i - old(self)@.len]
                } else {
                    old(self)@.buf[i]
                },
        ));
        assert(content(self@) =~= content(old(self)@) + more@);
    }
}

impl Default for ByteStr {
    fn default() -> (r: ByteStr)
        ensures
            r.wf(),
            r@ == (ByteStrModel { len: 0, buf: padded(Seq::empty()) }),
    {
        ByteStr::new()
    }
}

impl vstd::std_specs::cmp::PartialEqSpecImpl for ByteStr {
    open spec fn obeys_eq_spec() -> bool {
        true
    }

    open spec fn eq_spec(&self, other: &Self) -> bool {
        self@ == other@
    }
}

impl PartialEq for ByteStr {
    fn eq(&self, other: &Self) -> (r: bool) {
        let same_len = self.len == other.len;
        let same_bytes = bytes_eq(&self.bytes, &other.bytes);
        proof {
            if self@ == other@ {
                assert(self.bytes@ == self@.buf);
                assert(other.bytes@ == other@.buf);
            }
            if same_len && same_bytes {
                assert(self@ == other@);
            }
        }
        same_len && same_bytes
    }
}

} // verus!
