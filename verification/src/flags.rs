//! Flags that parametrize arithmetic and comparison instructions.

use vstd::prelude::*;

use crate::isa::SignFlag;
use crate::text::{str_chars, string_push};

verus! {

/// Encoding and overflowing flags for integer numbers.
#[derive(Copy, Clone, PartialEq, Eq, Structural, Debug, Hash, Default)]
pub struct IntFlags {
    /// Treat the integers as signed (`true`) or unsigned (`false`).
    pub signed: bool,
    /// With addition, subtraction and multiplication: whether overflow wraps (`true`) or gives
    /// no value (`false`). With division: whether division is Euclidean.
    pub wrap: bool,
}

impl IntFlags {
    /// Flags of unsigned checked operations.
    pub fn unsigned_checked() -> (r: IntFlags)
        ensures
            r == (IntFlags { signed: false, wrap: false }),
    {
        IntFlags { signed: false, wrap: false }
    }

    /// Flags of signed checked operations.
    pub fn signed_checked() -> (r: IntFlags)
        ensures
            r == (IntFlags { signed: true, wrap: false }),
    {
        IntFlags { signed: true, wrap: false }
    }

    /// Flags of unsigned wrapped operations.
    pub fn unsigned_wrapped() -> (r: IntFlags)
        ensures
            r == (IntFlags { signed: false, wrap: true }),
    {
        IntFlags { signed: false, wrap: true }
    }

    /// Flags of signed wrapped operations.
    pub fn signed_wrapped() -> (r: IntFlags)
        ensures
            r == (IntFlags { signed: true, wrap: true }),
    {
        IntFlags { signed: true, wrap: true }
    }
}

/// The characters of `s` that are none of `flags`, in order.
pub open spec fn strip_flags(s: Seq<char>, flags: Seq<char>) -> Seq<char> {
    s.filter(|c: char| !flags.contains(c))
}

/// Whether `c` occurs in `v`.
fn has_char(v: &[char], c: char) -> (r: bool)
    ensures
        r == v@.contains(c),
{
    let mut i: usize = 0;
    while i < v.len()
        invariant
            i <= v.len(),
            forall|j: int| 0 <= j < i ==> v@[j] != c,
        decreases v.len() - i,
    {
        if v[i] == c {
            return true;
        }
        i += 1;
    }
    false
}

/// The characters of `s` that are none of `flags`, as a string.
fn strip_chars(s: &Vec<char>, flags: &[char]) -> (r: String)
    ensures
        r@ == strip_flags(s@, flags@),
{
    let mut r = String::new();
    let mut i: usize = 0;
    while i < s.len()
        invariant
            i <= s.len(),
            r@ == strip_flags(s@.take(i as int), flags@),
        decreases s.len() - i,
    {
        let c = s[i];
        let keep = !has_char(flags, c);
        proof {
            let t = s@.take(i + 1);
            assert(t.drop_last() =~= s@.take(i as int));
            assert(t.last() == c);
            reveal(Seq::filter);
        }
        if keep {
            string_push(&mut r, c);
        }
        i += 1;
    }
    proof {
        assert(s@.take(s@.len() as int) =~= s@);
    }
    r
}

/// Errors of parsing the text form of operation flags.
#[derive(Clone, PartialEq, Eq, PartialOrd, Ord, Hash, Debug)]
pub enum ParseFlagError {
    /// Unknown operation flag.
    UnknownFlag(char),
    /// Unknown operation flags, in the order they were given.
    UnknownFlags(String),
    /// Both of two mutually exclusive flags were given: what the flags set, and the two flags.
    MutuallyExclusiveFlags(&'static str, char, char),
    /// Neither of two flags, one of which is required, was given: what the flags set, and the two
    /// flags.
    RequiredFlagAbsent(&'static str, char, char),
}

/// Outcome of parsing a pair of mutually exclusive flags `a` and `b`, given that no other
/// character occurs in `s`.
pub open spec fn flag_pair_outcome<T>(
    s: Seq<char>,
    what: &'static str,
    a: char,
    b: char,
    va: T,
    vb: T,
) -> Result<T, ParseFlagError> {
    match (s.contains(a), s.contains(b)) {
        (true, false) => Ok(va),
        (false, true) => Ok(vb),
        (true, true) => Err(ParseFlagError::MutuallyExclusiveFlags(what, a, b)),
        (false, false) => Err(ParseFlagError::RequiredFlagAbsent(what, a, b)),
    }
}

/// Parses a text made of exactly one of two mutually exclusive flags `a` and `b`.
fn parse_flag_pair<T: Copy>(s: &str, what: &'static str, a: char, b: char, va: T, vb: T) -> (r:
    Result<T, ParseFlagError>)
    ensures
        strip_flags(s@, seq![a, b]).len() > 0 ==> (r matches Err(ParseFlagError::UnknownFlags(f))
            && f@ == strip_flags(s@, seq![a, b])),
        strip_flags(s@, seq![a, b]).len() == 0 ==> r == flag_pair_outcome(s@, what, a, b, va, vb),
{
    let chars = str_chars(s);
    let pair = [a, b];
    proof {
        assert(pair@ =~= seq![a, b]);
    }
    let rest = strip_chars(&chars, &pair);
    if !rest.as_str().is_empty() {
        return Err(ParseFlagError::UnknownFlags(rest));
    }
    let has_a = has_char(chars.as_slice(), a);
    let has_b = has_char(chars.as_slice(), b);
    match (has_a, has_b) {
        (true, false) => Ok(va),
        (false, true) => Ok(vb),
        (true, true) => Err(ParseFlagError::MutuallyExclusiveFlags(what, a, b)),
        (false, false) => Err(ParseFlagError::RequiredFlagAbsent(what, a, b)),
    }
}

impl SignFlag {
    /// Parses the text form of the flag: `u` for unsigned, `s` for signed.
    pub fn parse(s: &str) -> (r: Result<SignFlag, ParseFlagError>)
        ensures
            strip_flags(s@, seq!['u', 's']).len() > 0 ==> (r matches Err(
                ParseFlagError::UnknownFlags(f),
            ) && f@ == strip_flags(s@, seq!['u', 's'])),
            strip_flags(s@, seq!['u', 's']).len() == 0 ==> r == flag_pair_outcome(
                s@,
                "integer sign flag",
                'u',
                's',
                SignFlag::Unsigned,
                SignFlag::Signed,
            ),
    {
        parse_flag_pair(s, "integer sign flag", 'u', 's', SignFlag::Unsigned, SignFlag::Signed)
    }

    /// 1-bit code of the flag.
    pub open spec fn spec_as_u1(self) -> u8 {
        match self {
            SignFlag::Unsigned => 0,
            SignFlag::Signed => 1,
        }
    }

    /// Flag with a 1-bit code.
    pub fn from_u1(val: u8) -> (r: SignFlag)
        requires
            val < 2,
        ensures
            r.spec_as_u1() == val,
    {
        if val == 0 {
            SignFlag::Unsigned
        } else {
            SignFlag::Signed
        }
    }

    /// 1-bit code of the flag.
    #[verifier::when_used_as_spec(spec_as_u1)]
    pub fn as_u1(self) -> (r: u8)
        ensures
            r == self.spec_as_u1(),
    {
        match self {
            SignFlag::Unsigned => 0,
            SignFlag::Signed => 1,
        }
    }
}

impl core::str::FromStr for SignFlag {
    type Err = ParseFlagError;

    fn from_str(s: &str) -> Result<SignFlag, ParseFlagError> {
        SignFlag::parse(s)
    }
}

/// Float equality flag.
#[derive(Clone, Copy, PartialEq, Eq, Structural, PartialOrd, Ord, Debug, Hash)]
pub enum FloatEqFlag {
    /// Exact match: nearest floats are never equal (though `+0` equals `-0`).
    Exact,
    /// Rounded match: floats which differ only in the last bit of the significand are equal.
    Rounding,
}

impl FloatEqFlag {
    /// Parses the text form of the flag: `e` for exact, `r` for rounding.
    pub fn parse(s: &str) -> (r: Result<FloatEqFlag, ParseFlagError>)
        ensures
            strip_flags(s@, seq!['e', 'r']).len() > 0 ==> (r matches Err(
                ParseFlagError::UnknownFlags(f),
            ) && f@ == strip_flags(s@, seq!['e', 'r'])),
            strip_flags(s@, seq!['e', 'r']).len() == 0 ==> r == flag_pair_outcome(
                s@,
                "float equality",
                'e',
                'r',
                FloatEqFlag::Exact,
                FloatEqFlag::Rounding,
            ),
    {
        parse_flag_pair(s, "float equality", 'e', 'r', FloatEqFlag::Exact, FloatEqFlag::Rounding)
    }

    /// 1-bit code of the flag.
    pub open spec fn spec_as_u1(self) -> u8 {
        match self {
            FloatEqFlag::Exact => 0,
            FloatEqFlag::Rounding => 1,
        }
    }

    /// Flag with a 1-bit code.
    pub fn from_u1(val: u8) -> (r: FloatEqFlag)
        requires
            val < 2,
        ensures
            r.spec_as_u1() == val,
    {
        if val == 0 {
            FloatEqFlag::Exact
        } else {
            FloatEqFlag::Rounding
        }
    }

    /// 1-bit code of the flag.
    #[verifier::when_used_as_spec(spec_as_u1)]
    pub fn as_u1(self) -> (r: u8)
        ensures
            r == self.spec_as_u1(),
    {
        match self {
            FloatEqFlag::Exact => 0,
            FloatEqFlag::Rounding => 1,
        }
    }
}

impl core::str::FromStr for FloatEqFlag {
    type Err = ParseFlagError;

    fn from_str(s: &str) -> Result<FloatEqFlag, ParseFlagError> {
        FloatEqFlag::parse(s)
    }
}

/// Rounding of float numbers.
#[derive(Clone, Copy, PartialEq, Eq, Structural, PartialOrd, Ord, Debug, Hash)]
pub enum RoundingFlag {
    /// Round toward zero: ceiling for negative numbers and flooring for positive ones.
    TowardsZero,
    /// Round to the nearest neighbour; ties go to the even digit.
    TowardsNearest,
    /// Round down, toward minus infinity.
    Floor,
    /// Round up, toward plus infinity.
    Ceil,
}

impl Default for RoundingFlag {
    fn default() -> (r: RoundingFlag)
        ensures
            r == RoundingFlag::TowardsNearest,
    {
        RoundingFlag::TowardsNearest
    }
}

/// Outcome of parsing the text form of a rounding flag, given that no character but `n`, `z`,
/// `c` and `f` occurs in `s`.
pub open spec fn rounding_outcome(s: Seq<char>) -> Result<RoundingFlag, ParseFlagError> {
    if s.len() > 1 {
        Err(ParseFlagError::MutuallyExclusiveFlags("float rounding", s[0], s[1]))
    } else if s.contains('n') {
        Ok(RoundingFlag::TowardsNearest)
    } else if s.contains('z') {
        Ok(RoundingFlag::TowardsZero)
    } else if s.contains('c') {
        Ok(RoundingFlag::Ceil)
    } else if s.contains('f') {
        Ok(RoundingFlag::Floor)
    } else {
        Err(ParseFlagError::UnknownFlag(s[0]))
    }
}

impl RoundingFlag {
    /// Parses the text form of the flag: one of `n` (nearest), `z` (toward zero), `c` (ceiling)
    /// and `f` (floor).
    pub fn parse(s: &str) -> (r: Result<RoundingFlag, ParseFlagError>)
        requires
            s@.len() > 0,
        ensures
            strip_flags(s@, seq!['n', 'z', 'c', 'f']).len() > 0 ==> (r matches Err(
                ParseFlagError::UnknownFlags(f),
            ) && f@ == strip_flags(s@, seq!['n', 'z', 'c', 'f'])),
            strip_flags(s@, seq!['n', 'z', 'c', 'f']).len() == 0 ==> r == rounding_outcome(s@),
    {
        let chars = str_chars(s);
        let flags = ['n', 'z', 'c', 'f'];
        proof {
            assert(flags@ =~= seq!['n', 'z', 'c', 'f']);
        }
        let rest = strip_chars(&chars, &flags);
        if !rest.as_str().is_empty() {
            return Err(ParseFlagError::UnknownFlags(rest));
        }
        if chars.len() > 1 {
            return Err(ParseFlagError::MutuallyExclusiveFlags("float rounding", chars[0], chars[1]));
        }
        if has_char(chars.as_slice(), 'n') {
            Ok(RoundingFlag::TowardsNearest)
        } else if has_char(chars.as_slice(), 'z') {
            Ok(RoundingFlag::TowardsZero)
        } else if has_char(chars.as_slice(), 'c') {
            Ok(RoundingFlag::Ceil)
        } else if has_char(chars.as_slice(), 'f') {
            Ok(RoundingFlag::Floor)
        } else {
            Err(ParseFlagError::UnknownFlag(chars[0]))
        }
    }
}

/// Outcome of parsing the text form of integer flags whose sign and overflow flags are each
/// given exactly once, or the first error among them.
pub open spec fn int_flags_outcome(s: Seq<char>) -> Result<IntFlags, ParseFlagError> {
    let what_sign = "integer serialization";
    let what_wrap = "overflow";
    match (flag_pair_outcome(s, what_sign, 's', 'u', true, false), flag_pair_outcome(
        s,
        what_wrap,
        'w',
        'c',
        true,
        false,
    )) {
        (Err(e), _) => Err(e),
        (Ok(_), Err(e)) => Err(e),
        (Ok(signed), Ok(wrap)) => Ok(IntFlags { signed, wrap }),
    }
}

/// Text form of integer flags: `s` or `u`, then `w` or `c`.
pub open spec fn int_flags_text(f: IntFlags) -> Seq<char> {
    seq![
        if f.signed {
            's'
        } else {
            'u'
        },
        if f.wrap {
            'w'
        } else {
            'c'
        },
    ]
}

impl IntFlags {
    /// Parses the text form of the flags: `s` (signed) or `u` (unsigned), and `w` (wrapping) or
    /// `c` (checked), in any order.
    pub fn parse(s: &str) -> (r: Result<IntFlags, ParseFlagError>)
        ensures
            int_flags_outcome(s@) is Err ==> r == int_flags_outcome(s@),
            int_flags_outcome(s@) is Ok && s@.len() > 2 ==> (r matches Err(
                ParseFlagError::UnknownFlags(f),
            ) && f@ == strip_flags(s@, seq!['s', 'u', 'c', 'w'])),
            int_flags_outcome(s@) is Ok && s@.len() <= 2 ==> r == int_flags_outcome(s@),
    {
        let chars = str_chars(s);
        let has_s = has_char(chars.as_slice(), 's');
        let has_u = has_char(chars.as_slice(), 'u');
        let signed = match (has_s, has_u) {
            (true, false) => true,
            (false, true) => false,
            (true, true) => {
                return Err(
                    ParseFlagError::MutuallyExclusiveFlags("integer serialization", 's', 'u'),
                );
            },
            (false, false) => {
                return Err(ParseFlagError::RequiredFlagAbsent("integer serialization", 's', 'u'));
            },
        };
        let has_w = has_char(chars.as_slice(), 'w');
        let has_c = has_char(chars.as_slice(), 'c');
        let wrap = match (has_w, has_c) {
            (true, false) => true,
            (false, true) => false,
            (true, true) => {
                return Err(ParseFlagError::MutuallyExclusiveFlags("overflow", 'w', 'c'));
            },
            (false, false) => {
                return Err(ParseFlagError::RequiredFlagAbsent("overflow", 'w', 'c'));
            },
        };
        if chars.len() > 2 {
            let flags = ['s', 'u', 'c', 'w'];
            proof {
                assert(flags@ =~= seq!['s', 'u', 'c', 'w']);
            }
            return Err(ParseFlagError::UnknownFlags(strip_chars(&chars, &flags)));
        }
        Ok(IntFlags { signed, wrap })
    }

    /// Text form of the flags: `s` or `u`, then `w` or `c`.
    pub fn to_string(&self) -> (r: String)
        ensures
            r@ == int_flags_text(*self),
    {
        let mut r = String::new();
        if self.signed {
            string_push(&mut r, 's');
        } else {
            string_push(&mut r, 'u');
        }
        if self.wrap {
            string_push(&mut r, 'w');
        } else {
            string_push(&mut r, 'c');
        }
        r
    }
}

impl core::str::FromStr for IntFlags {
    type Err = ParseFlagError;

    fn from_str(s: &str) -> Result<IntFlags, ParseFlagError> {
        IntFlags::parse(s)
    }
}

} // verus!
