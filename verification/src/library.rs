//! Libraries of code: identifiers, code positions and the table of referenced libraries.

use vstd::prelude::*;

use crate::bytestr::{content, ByteStr, STR_CAP};

verus! {

/// Identifier of a library: a 32-byte hash of its code, as two big-endian halves, so that
/// identifiers order as their bytes do.
#[derive(Clone, Copy, PartialEq, Eq, Structural, Debug, Hash)]
pub struct LibId {
    /// First 16 bytes of the hash, big-endian.
    pub hi: u128,
    /// Last 16 bytes of the hash, big-endian.
    pub lo: u128,
}

impl LibId {
    /// Identifier of the given halves.
    pub fn new(hi: u128, lo: u128) -> (r: LibId)
        ensures
            r == (LibId { hi, lo }),
    {
        LibId { hi, lo }
    }

    /// Whether this identifier orders before `other` (by bytes).
    pub open spec fn spec_lt(self, other: LibId) -> bool {
        self.hi < other.hi || (self.hi == other.hi && self.lo < other.lo)
    }

    /// Whether this identifier orders before `other` (by bytes).
    pub fn lt(&self, other: &LibId) -> (r: bool)
        ensures
            r == self.spec_lt(*other),
    {
        self.hi < other.hi || (self.hi == other.hi && self.lo < other.lo)
    }
}

/// Position in the code of a library.
#[derive(Clone, Copy, PartialEq, Eq, Structural, Debug, Hash)]
pub struct LibSite {
    /// Library.
    pub lib: LibId,
    /// Offset from the beginning of the code, in bytes.
    pub pos: u16,
}

impl LibSite {
    /// Site at `pos` in library `lib`.
    pub fn with(pos: u16, lib: LibId) -> (r: LibSite)
        ensures
            r == (LibSite { lib, pos }),
    {
        LibSite { lib, pos }
    }
}

impl Default for LibSite {
    fn default() -> (r: LibSite)
        ensures
            r == (LibSite { lib: LibId { hi: 0, lo: 0 }, pos: 0 }),
    {
        LibSite { lib: LibId { hi: 0, lo: 0 }, pos: 0 }
    }
}

/// Whether identifiers are listed in strictly increasing order.
pub open spec fn strictly_sorted(s: Seq<LibId>) -> bool {
    forall|i: int, j: int| 0 <= i < j < s.len() ==> (#[trigger] s[i]).spec_lt(#[trigger] s[j])
}

/// Abstract content of a [`LibSeg`].
pub struct LibSegModel {
    /// The libraries, in increasing order of their identifiers; the index of a library is its
    /// position.
    pub libs: Seq<LibId>,
}

/// Libraries referenced by a library: the set of their identifiers, kept in increasing order;
/// a library's index is its position in that order.
///
/// The identifiers are held in a vector sorted by the identifier order (`LibId::lt`) rather than
/// in a B-tree set: that order is the library's own, and the specifications of the standard
/// B-tree types rest on a `derive`d order that the verifier does not read. Keeping the order as
/// an invariant of the vector lets every method prove where an identifier stands, and so which
/// index it has.
#[derive(Debug)]
pub struct LibSeg {
    libs: Vec<LibId>,
}

impl View for LibSeg {
    type V = LibSegModel;

    closed spec fn view(&self) -> LibSegModel {
        LibSegModel { libs: self.libs@ }
    }
}

impl Default for LibSeg {
    fn default() -> (r: LibSeg)
        ensures
            r.wf(),
            r@.libs == Seq::<LibId>::empty(),
    {
        LibSeg { libs: Vec::new() }
    }
}

impl LibSeg {
    /// Whether the libraries are strictly increasing and fewer than `u16::MAX`.
    pub open spec fn wf(&self) -> bool {
        strictly_sorted(self@.libs) && self@.libs.len() <= u16::MAX
    }

    /// Library with the given index, if there is one.
    pub fn lib_at(&self, index: u16) -> (r: Option<LibId>)
        ensures
            r == (if index < self@.libs.len() {
                Some(self@.libs[index as int])
            } else {
                None
            }),
    {
        if (index as usize) < self.libs.len() {
            Some(self.libs[index as usize])
        } else {
            None
        }
    }

    /// Position of a library among the libraries, if it is one of them.
    pub fn lib_index(&self, lib: LibId) -> (r: Option<u16>)
        requires
            self.wf(),
        ensures
            r is Some <==> self@.libs.contains(lib),
            r matches Some(i) ==> i < self@.libs.len() && self@.libs[i as int] == lib,
            forall|j: int|
                0 <= j < self@.libs.len() && #[trigger] self@.libs[j] == lib ==> r == Some(j as u16),
    {
        let mut i: usize = 0;
        while i < self.libs.len()
            invariant
                i <= self.libs@.len() <= u16::MAX,
                self.wf(),
                forall|j: int| 0 <= j < i ==> self.libs@[j] != lib,
            decreases self.libs.len() - i,
        {
            if self.libs[i] == lib {
                proof {
                    assert forall|j: int|
                        0 <= j < self@.libs.len() && #[trigger] self@.libs[j] == lib implies j == i by {
                        if j != i as int {
                            if j < i {
                            } else {
                                assert(self@.libs[i as int].spec_lt(self@.libs[j]));
                            }
                        }
                    }
                }
                return Some(i as u16);
            }
            i += 1;
        }
        None
    }

    /// Adds a library, giving its index, its position among the libraries; fails when
    /// `u16::MAX` libraries are held. Libraries that order after the new one move up by one.
    pub fn insert(&mut self, lib: LibId) -> (r: Result<u16, ()>)
        requires
            old(self).wf(),
        ensures
            final(self).wf(),
            old(self)@.libs.len() >= u16::MAX <==> r is Err,
            r is Err ==> final(self)@ == old(self)@,
            r matches Ok(i) ==> {
                &&& i <= old(self)@.libs.len()
                &&& final(self)@.libs[i as int] == lib
                &&& forall|j: int| 0 <= j < i ==> (#[trigger] old(self)@.libs[j]).spec_lt(lib)
                &&& forall|j: int|
                    i <= j < old(self)@.libs.len() ==> !(#[trigger] old(self)@.libs[j]).spec_lt(lib)
                &&& final(self)@.libs == (if old(self)@.libs.contains(lib) {
                    old(self)@.libs
                } else {
                    old(self)@.libs.insert(i as int, lib)
                })
            },
    {
        if self.libs.len() >= 65535 {
            return Err(());
        }
        let mut i: usize = 0;
        while i < self.libs.len() && self.libs[i].lt(&lib)
            invariant
                i <= self.libs@.len() < u16::MAX,
                strictly_sorted(self.libs@),
                forall|j: int| 0 <= j < i ==> (#[trigger] self.libs@[j]).spec_lt(lib),
            decreases self.libs.len() - i,
        {
            i += 1;
        }
        let ghost before = self.libs@;
        proof {
            assert forall|j: int| i <= j < before.len() implies !(#[trigger] before[j]).spec_lt(lib) by {
                if j > i {
                    assert(before[i as int].spec_lt(before[j]));
                }
            }
        }
        if i < self.libs.len() && self.libs[i] == lib {
            proof {
                assert(before.contains(lib));
            }
        } else {
            proof {
                assert(!before.contains(lib)) by {
                    if before.contains(lib) {
                        let k = choose|k: int| 0 <= k < before.len() && before[k] == lib;
                        if k < i {
                            assert(before[k].spec_lt(lib));
                        } else {
                            assert(!before[k].spec_lt(lib));
                            if k > i {
                                assert(before[i as int].spec_lt(before[k]));
                            }
                        }
                    }
                }
            }
            self.libs.insert(i, lib);
            proof {
                let after = self.libs@;
                assert(after == before.insert(i as int, lib));
                assert forall|a: int, b: int| 0 <= a < b < after.len() implies (
                #[trigger] after[a]).spec_lt(#[trigger] after[b]) by {
                    if b < i {
                    } else if b == i {
                    } else if a < i {
                        assert(before[a].spec_lt(lib));
                        assert(!before[b - 1].spec_lt(lib));
                    } else if a == i {
                        assert(!before[b - 1].spec_lt(lib));
                        assert(before[b - 1] != lib);
                    } else {
                    }
                }
            }
        }
        Ok(i as u16)
    }
}

/// Errors of building a library from segments.
#[derive(Clone, Copy, PartialEq, Eq, Structural, Debug, Hash)]
pub enum SegmentError {
    /// The code segment holds more than `2^16 - 1` bytes: its size.
    CodeSegmentTooLarge(usize),
    /// The data segment holds more than `2^24 - 1` bytes: its size.
    DataSegmentTooLarge(usize),
}

/// Largest size of a data segment.
pub const DATA_SEGMENT_MAX: usize = 0xFF_FFFF;

/// A library: the libraries it references, its code and its data.
#[derive(Debug)]
pub struct Lib {
    libs_segment: LibSeg,
    code_segment: ByteStr,
    data_segment: Vec<u8>,
}

impl Lib {
    /// Whether the segments are well formed.
    pub open spec fn wf(&self) -> bool {
        self.spec_libs().wf() && self.spec_code().wf() && self.spec_data().len()
            <= DATA_SEGMENT_MAX
    }

    /// The referenced libraries.
    pub closed spec fn spec_libs(&self) -> LibSeg {
        self.libs_segment
    }

    /// The code.
    pub closed spec fn spec_code(&self) -> ByteStr {
        self.code_segment
    }

    /// The data.
    pub closed spec fn spec_data(&self) -> Seq<u8> {
        self.data_segment@
    }

    /// Library of the given code and data, referencing no other library; fails when the code
    /// holds more than `2^16 - 1` bytes or the data more than `2^24 - 1`.
    pub fn with(bytecode: Vec<u8>, data: Vec<u8>) -> (r: Result<Lib, SegmentError>)
        ensures
            bytecode@.len() > STR_CAP ==> r == Err::<Lib, SegmentError>(
                SegmentError::CodeSegmentTooLarge(bytecode@.len() as usize),
            ),
            bytecode@.len() <= STR_CAP && data@.len() > DATA_SEGMENT_MAX ==> r == Err::<
                Lib,
                SegmentError,
            >(SegmentError::DataSegmentTooLarge(data@.len() as usize)),
            bytecode@.len() <= STR_CAP && data@.len() <= DATA_SEGMENT_MAX ==> (r matches Ok(lib)
                && lib.wf() && content(lib.spec_code()@) == bytecode@ && lib.spec_data()
                == data@ && lib.spec_libs()@.libs.len() == 0),
    {
        if bytecode.len() > STR_CAP {
            return Err(SegmentError::CodeSegmentTooLarge(bytecode.len()));
        }
        if data.len() > DATA_SEGMENT_MAX {
            return Err(SegmentError::DataSegmentTooLarge(data.len()));
        }
        let code_segment = ByteStr::with(bytecode.as_slice());
        assert(content(code_segment@) =~= bytecode@);
        Ok(Lib { libs_segment: LibSeg::default(), code_segment, data_segment: data })
    }

    /// Bytes of the code segment.
    pub fn code_segment(&self) -> (r: Vec<u8>)
        requires
            self.wf(),
        ensures
            r@ == content(self.spec_code()@),
    {
        self.code_segment.to_vec()
    }

    /// Bytes of the data segment.
    pub fn data_segment(&self) -> (r: &[u8])
        ensures
            r@ == self.spec_data(),
    {
        self.data_segment.as_slice()
    }

    /// Libraries referenced by the library.
    pub fn libs_segment(&self) -> (r: &LibSeg)
        ensures
            *r == self.spec_libs(),
    {
        &self.libs_segment
    }
}

} // verus!
