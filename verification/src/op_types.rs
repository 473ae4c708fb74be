//! Operand types of instructions: numeric types, arithmetic kinds and increments, with their
//! bit codes.

use vstd::prelude::*;

verus! {

/// Numeric type of an operation.
#[derive(Clone, Copy, PartialEq, Eq, Structural, Debug, Hash)]
pub enum NumType {
    /// Unsigned integer.
    Unsigned,
    /// Signed integer.
    Signed,
    /// Float with a 23-bit mantissa.
    Float23,
    /// Float with a 52-bit mantissa.
    Float52,
}

impl NumType {
    /// 2-bit code of the type.
    pub open spec fn spec_as_u2(self) -> u8 {
        match self {
            NumType::Unsigned => 0,
            NumType::Signed => 1,
            NumType::Float23 => 2,
            NumType::Float52 => 3,
        }
    }

    /// 2-bit code of the type.
    #[verifier::when_used_as_spec(spec_as_u2)]
    pub fn as_u2(self) -> (r: u8)
        ensures
            r == self.spec_as_u2(),
            r < 4,
    {
        match self {
            NumType::Unsigned => 0,
            NumType::Signed => 1,
            NumType::Float23 => 2,
            NumType::Float52 => 3,
        }
    }

    /// Type with a 2-bit code.
    pub fn from_u2(val: u8) -> (r: NumType)
        requires
            val < 4,
        ensures
            r.spec_as_u2() == val,
    {
        match val {
            0 => NumType::Unsigned,
            1 => NumType::Signed,
            2 => NumType::Float23,
            _ => NumType::Float52,
        }
    }
}

/// Kind of arithmetic of an operation.
#[derive(Clone, Copy, PartialEq, Eq, Structural, Debug, Hash)]
pub enum Arithmetics {
    /// Integer arithmetic that fails on overflow.
    IntChecked {
        /// Whether the integers are signed.
        signed: bool,
    },
    /// Integer arithmetic that wraps on overflow.
    IntUnchecked {
        /// Whether the integers are signed.
        signed: bool,
    },
    /// Integer arithmetic of arbitrary precision.
    IntArbitraryPrecision {
        /// Whether the integers are signed.
        signed: bool,
    },
    /// Float arithmetic.
    Float,
    /// Float arithmetic of arbitrary precision.
    FloatArbitraryPrecision,
}

impl Arithmetics {
    /// 3-bit code of the kind.
    pub open spec fn spec_as_u3(self) -> u8 {
        match self {
            Arithmetics::IntChecked { signed: false } => 0,
            Arithmetics::IntUnchecked { signed: false } => 1,
            Arithmetics::IntArbitraryPrecision { signed: false } => 2,
            Arithmetics::IntChecked { signed: true } => 3,
            Arithmetics::IntUnchecked { signed: true } => 4,
            Arithmetics::IntArbitraryPrecision { signed: true } => 5,
            Arithmetics::Float => 6,
            Arithmetics::FloatArbitraryPrecision => 7,
        }
    }

    /// 3-bit code of the kind.
    #[verifier::when_used_as_spec(spec_as_u3)]
    pub fn as_u3(self) -> (r: u8)
        ensures
            r == self.spec_as_u3(),
            r < 8,
    {
        match self {
            Arithmetics::IntChecked { signed: false } => 0,
            Arithmetics::IntUnchecked { signed: false } => 1,
            Arithmetics::IntArbitraryPrecision { signed: false } => 2,
            Arithmetics::IntChecked { signed: true } => 3,
            Arithmetics::IntUnchecked { signed: true } => 4,
            Arithmetics::IntArbitraryPrecision { signed: true } => 5,
            Arithmetics::Float => 6,
            Arithmetics::FloatArbitraryPrecision => 7,
        }
    }

    /// Kind with a 3-bit code.
    pub fn from_u3(val: u8) -> (r: Arithmetics)
        requires
            val < 8,
        ensures
            r.spec_as_u3() == val,
    {
        match val {
            0 => Arithmetics::IntChecked { signed: false },
            1 => Arithmetics::IntUnchecked { signed: false },
            2 => Arithmetics::IntArbitraryPrecision { signed: false },
            3 => Arithmetics::IntChecked { signed: true },
            4 => Arithmetics::IntUnchecked { signed: true },
            5 => Arithmetics::IntArbitraryPrecision { signed: true },
            6 => Arithmetics::Float,
            _ => Arithmetics::FloatArbitraryPrecision,
        }
    }

    /// Whether the kind has arbitrary precision.
    pub fn is_ap(self) -> (r: bool)
        ensures
            r == (self is IntArbitraryPrecision || self is FloatArbitraryPrecision),
    {
        match self {
            Arithmetics::IntArbitraryPrecision { .. } | Arithmetics::FloatArbitraryPrecision => true,
            _ => false,
        }
    }

    /// Whether the kind is float arithmetic.
    pub fn is_float(self) -> (r: bool)
        ensures
            r == (self is Float || self is FloatArbitraryPrecision),
    {
        match self {
            Arithmetics::Float | Arithmetics::FloatArbitraryPrecision => true,
            _ => false,
        }
    }

    /// Whether the kind is unsigned integer arithmetic.
    pub fn is_unsigned(self) -> (r: bool)
        ensures
            r == (match self {
                Arithmetics::IntChecked { signed } => !signed,
                Arithmetics::IntUnchecked { signed } => !signed,
                Arithmetics::IntArbitraryPrecision { signed } => !signed,
                _ => false,
            }),
    {
        match self {
            Arithmetics::IntChecked { signed: false }
            | Arithmetics::IntUnchecked { signed: false }
            | Arithmetics::IntArbitraryPrecision { signed: false } => true,
            _ => false,
        }
    }
}

/// Direction of a step.
#[derive(Clone, Copy, PartialEq, Eq, Structural, Debug, Hash)]
pub enum IncDec {
    /// Increment.
    Inc,
    /// Decrement.
    Dec,
}

impl IncDec {
    /// Sign of the step: 1 or -1.
    pub fn multiplier(self) -> (r: i8)
        ensures
            r == (if self == IncDec::Inc { 1i8 } else { -1i8 }),
    {
        match self {
            IncDec::Inc => 1,
            IncDec::Dec => -1,
        }
    }

    /// Direction from a flag: set for decrement.
    pub fn from_bool(val: bool) -> (r: IncDec)
        ensures
            r == (if val { IncDec::Dec } else { IncDec::Inc }),
    {
        if val {
            IncDec::Dec
        } else {
            IncDec::Inc
        }
    }

    /// Flag of the direction: set for decrement.
    pub fn to_bool(self) -> (r: bool)
        ensures
            r == (self == IncDec::Dec),
    {
        match self {
            IncDec::Inc => false,
            IncDec::Dec => true,
        }
    }
}

/// Decoding a code gives back the numeric type it encodes.
pub proof fn lemma_num_type_code(t: NumType)
    ensures
        t.spec_as_u2() < 4,
        forall|u: NumType| u.spec_as_u2() == t.spec_as_u2() ==> u == t,
{
}

/// The 3-bit codes of arithmetic kinds are distinct, so decoding an encoded kind gives it back.
pub proof fn lemma_arithmetics_code(a: Arithmetics)
    ensures
        a.spec_as_u3() < 8,
        forall|b: Arithmetics| b.spec_as_u3() == a.spec_as_u3() ==> b == a,
{
}

/// A direction survives the round trip through its flag.
pub proof fn lemma_inc_dec_flag(d: IncDec)
    ensures
        (if (d == IncDec::Dec) { IncDec::Dec } else { IncDec::Inc }) == d,
{
}

/// Instruction set extensions.
#[derive(Clone, Copy, PartialEq, Eq, Structural, Debug, Hash)]
pub enum Isa {
    /// Core 64-bit instruction set.
    Alu64,
    /// 1024-bit arithmetic and boolean logic.
    Alu1024,
    /// Array operations with general registers.
    Array,
    /// Vector instructions.
    Simd,
    /// Floating-point operations.
    Float,
    /// SHA hash functions.
    Sha,
    /// Operations on the secp256k1 curve.
    Secp256k1,
    /// Operations on Curve25519.
    Curve25519,
    /// Runtime extensions.
    AluRe,
    /// Bitcoin protocol instructions.
    Bp,
    /// RGB instructions.
    Rgb,
    /// Lightning network protocol instructions.
    Lnp,
    /// Instructions for biologically-inspired cognitive architectures.
    Rebica,
}

impl Isa {
    /// All extensions, in their canonical order.
    pub fn all() -> (r: [Isa; 13])
        ensures
            r@ == seq![
                Isa::Alu64,
                Isa::Alu1024,
                Isa::Float,
                Isa::Array,
                Isa::Simd,
                Isa::Sha,
                Isa::Secp256k1,
                Isa::Curve25519,
                Isa::AluRe,
                Isa::Bp,
                Isa::Rgb,
                Isa::Lnp,
                Isa::Rebica,
            ],
    {
        let r = [
            Isa::Alu64,
            Isa::Alu1024,
            Isa::Float,
            Isa::Array,
            Isa::Simd,
            Isa::Sha,
            Isa::Secp256k1,
            Isa::Curve25519,
            Isa::AluRe,
            Isa::Bp,
            Isa::Rgb,
            Isa::Lnp,
            Isa::Rebica,
        ];
        assert(r@ =~= seq![
            Isa::Alu64,
            Isa::Alu1024,
            Isa::Float,
            Isa::Array,
            Isa::Simd,
            Isa::Sha,
            Isa::Secp256k1,
            Isa::Curve25519,
            Isa::AluRe,
            Isa::Bp,
            Isa::Rgb,
            Isa::Lnp,
            Isa::Rebica,
        ]);
        r
    }
}

/// A reserved instruction: its op code.
#[derive(Clone, Copy, PartialEq, Eq, Structural, Debug, Hash)]
pub struct ReservedInstr {
    /// Op code value.
    pub code: u8,
}

} // verus!
