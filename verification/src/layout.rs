//! Layouts of numeric register values: integers of a given byte width and floats.

use vstd::prelude::*;

verus! {

/// Layout of an integer value: signedness and byte width.
#[derive(Copy, Clone, PartialEq, Eq, Structural, Debug, Hash)]
pub struct IntLayout {
    /// Whether the value is a two's complement signed integer.
    pub signed: bool,
    /// Number of bytes the value occupies.
    pub bytes: u16,
}

/// Layout of a floating-point value.
#[derive(Copy, Clone, PartialEq, Eq, Structural, Debug, Hash)]
pub enum FloatLayout {
    /// 16-bit bfloat16 format.
    BFloat16,
    /// IEEE-754 16-bit half precision.
    IeeeHalf,
    /// IEEE-754 32-bit single precision.
    IeeeSingle,
    /// IEEE-754 64-bit double precision.
    IeeeDouble,
    /// x87 80-bit extended precision.
    X87DoubleExt,
    /// IEEE-754 128-bit quadruple precision.
    IeeeQuad,
    /// IEEE-754 256-bit octuple precision.
    IeeeOct,
    /// 512-bit tapered float.
    FloatTapered,
}

/// Layout of a numeric value.
#[derive(Copy, Clone, PartialEq, Eq, Structural, Debug, Hash)]
pub enum Layout {
    /// Integer layout.
    Integer(IntLayout),
    /// Floating-point layout.
    Float(FloatLayout),
}

impl IntLayout {
    /// Unsigned integer layout of the given byte width.
    pub fn unsigned(bytes: u16) -> (r: IntLayout)
        ensures
            r == (IntLayout { signed: false, bytes }),
    {
        IntLayout { signed: false, bytes }
    }

    /// Signed integer layout of the given byte width.
    pub fn signed(bytes: u16) -> (r: IntLayout)
        ensures
            r == (IntLayout { signed: true, bytes }),
    {
        IntLayout { signed: true, bytes }
    }

    /// Width in bits.
    pub fn bits(self) -> (r: u32)
        ensures
            r == self.bytes * 8,
    {
        self.bytes as u32 * 8
    }

    /// Whether `val` fits into this layout when read as an unsigned value of its width.
    pub fn fits_usize(self, val: usize) -> (r: bool)
        ensures
            r == ((val as int) < crate::num::pow256(self.bytes as nat)),
    {
        let mut cap: u128 = 1;
        let mut i: u16 = 0;
        let v = val as u128;
        while i < self.bytes
            invariant
                i <= self.bytes,
                cap as nat == crate::num::pow256(i as nat),
                cap <= 256 * v + 256,
                v == val,
                v < 0x1_0000_0000_0000_0000,
            decreases self.bytes - i,
        {
            if cap > v {
                proof {
                    crate::num::lemma_pow256_mono(i as nat, self.bytes as nat);
                }
                return true;
            }
            cap = cap * 256;
            i = i + 1;
        }
        v < cap
    }
}

impl FloatLayout {
    /// Number of bytes a float of this layout occupies.
    pub open spec fn spec_bytes(self) -> u16 {
        match self {
            FloatLayout::BFloat16 => 2,
            FloatLayout::IeeeHalf => 2,
            FloatLayout::IeeeSingle => 4,
            FloatLayout::IeeeDouble => 8,
            FloatLayout::X87DoubleExt => 10,
            FloatLayout::IeeeQuad => 16,
            FloatLayout::IeeeOct => 32,
            FloatLayout::FloatTapered => 64,
        }
    }

    /// Number of bytes a float of this layout occupies.
    #[verifier::when_used_as_spec(spec_bytes)]
    pub fn bytes(self) -> (r: u16)
        ensures
            r == self.spec_bytes(),
    {
        match self {
            FloatLayout::BFloat16 => 2,
            FloatLayout::IeeeHalf => 2,
            FloatLayout::IeeeSingle => 4,
            FloatLayout::IeeeDouble => 8,
            FloatLayout::X87DoubleExt => 10,
            FloatLayout::IeeeQuad => 16,
            FloatLayout::IeeeOct => 32,
            FloatLayout::FloatTapered => 64,
        }
    }
}

impl Layout {
    /// Unsigned integer layout of the given byte width.
    pub fn unsigned(bytes: u16) -> (r: Layout)
        ensures
            r == Layout::Integer(IntLayout { signed: false, bytes }),
    {
        Layout::Integer(IntLayout { signed: false, bytes })
    }

    /// Signed integer layout of the given byte width.
    pub fn signed(bytes: u16) -> (r: Layout)
        ensures
            r == Layout::Integer(IntLayout { signed: true, bytes }),
    {
        Layout::Integer(IntLayout { signed: true, bytes })
    }

    /// Number of bytes a value of this layout occupies.
    pub open spec fn spec_bytes(self) -> u16 {
        match self {
            Layout::Integer(l) => l.bytes,
            Layout::Float(f) => f.spec_bytes(),
        }
    }

    /// Number of bytes a value of this layout occupies.
    #[verifier::when_used_as_spec(spec_bytes)]
    pub fn bytes(self) -> (r: u16)
        ensures
            r == self.spec_bytes(),
    {
        match self {
            Layout::Integer(l) => l.bytes,
            Layout::Float(f) => f.bytes(),
        }
    }

    /// Number of bits a value of this layout occupies.
    pub fn bits(self) -> (r: u32)
        ensures
            r == self.spec_bytes() * 8,
    {
        self.bytes() as u32 * 8
    }

    /// Whether the layout is an integer one.
    pub open spec fn spec_is_integer(self) -> bool {
        self is Integer
    }

    /// Whether the layout is an integer one.
    #[verifier::when_used_as_spec(spec_is_integer)]
    pub fn is_integer(self) -> (r: bool)
        ensures
            r == self.spec_is_integer(),
    {
        match self {
            Layout::Integer(_) => true,
            Layout::Float(_) => false,
        }
    }

    /// Whether the layout is a float one.
    pub fn is_float(self) -> (r: bool)
        ensures
            r == (self is Float),
    {
        match self {
            Layout::Integer(_) => false,
            Layout::Float(_) => true,
        }
    }

    /// Whether the layout is a signed integer one.
    pub open spec fn spec_is_signed_int(self) -> bool {
        self matches Layout::Integer(l) && l.signed
    }

    /// Whether the layout is a signed integer one.
    #[verifier::when_used_as_spec(spec_is_signed_int)]
    pub fn is_signed_int(self) -> (r: bool)
        ensures
            r == self.spec_is_signed_int(),
    {
        match self {
            Layout::Integer(l) => l.signed,
            Layout::Float(_) => false,
        }
    }

    /// Whether the layout is an unsigned integer one.
    pub open spec fn spec_is_unsigned_int(self) -> bool {
        self matches Layout::Integer(l) && !l.signed
    }

    /// Whether the layout is an unsigned integer one.
    #[verifier::when_used_as_spec(spec_is_unsigned_int)]
    pub fn is_unsigned_int(self) -> (r: bool)
        ensures
            r == self.spec_is_unsigned_int(),
    {
        match self {
            Layout::Integer(l) => !l.signed,
            Layout::Float(_) => false,
        }
    }

    /// Index of the byte holding the sign bit: the most significant one.
    pub fn sign_byte(self) -> (r: u16)
        requires
            self.spec_bytes() >= 1,
        ensures
            r == self.spec_bytes() - 1,
    {
        self.bytes() - 1
    }

    /// Same layout with the signed flag set (floats are unchanged).
    pub open spec fn spec_into_signed(self) -> Layout {
        match self {
            Layout::Integer(l) => Layout::Integer(IntLayout { signed: true, bytes: l.bytes }),
            Layout::Float(f) => Layout::Float(f),
        }
    }

    /// Same layout with the signed flag set (floats are unchanged).
    #[verifier::when_used_as_spec(spec_into_signed)]
    pub fn into_signed(self) -> (r: Layout)
        ensures
            r == self.spec_into_signed(),
    {
        match self {
            Layout::Integer(l) => Layout::Integer(IntLayout { signed: true, bytes: l.bytes }),
            Layout::Float(f) => Layout::Float(f),
        }
    }

    /// Same layout with the signed flag cleared (floats are unchanged).
    pub open spec fn spec_into_unsigned(self) -> Layout {
        match self {
            Layout::Integer(l) => Layout::Integer(IntLayout { signed: false, bytes: l.bytes }),
            Layout::Float(f) => Layout::Float(f),
        }
    }

    /// Same layout with the signed flag cleared (floats are unchanged).
    #[verifier::when_used_as_spec(spec_into_unsigned)]
    pub fn into_unsigned(self) -> (r: Layout)
        ensures
            r == self.spec_into_unsigned(),
    {
        match self {
            Layout::Integer(l) => Layout::Integer(IntLayout { signed: false, bytes: l.bytes }),
            Layout::Float(f) => Layout::Float(f),
        }
    }

    /// Whether a value of this layout can be held: at least one byte and at most 1024.
    pub open spec fn valid(self) -> bool {
        1 <= self.spec_bytes() <= 1024
    }
}

} // verus!
