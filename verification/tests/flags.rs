use aluvm::flags::{FloatEqFlag, IntFlags, ParseFlagError, RoundingFlag};
use aluvm::isa::SignFlag;

#[test]
fn sign_flag_parses() {
    assert_eq!(SignFlag::parse("u"), Ok(SignFlag::Unsigned));
    assert_eq!(SignFlag::parse("s"), Ok(SignFlag::Signed));
    assert_eq!("uu".parse::<SignFlag>(), Ok(SignFlag::Unsigned));
    assert_eq!(
        SignFlag::parse("us"),
        Err(ParseFlagError::MutuallyExclusiveFlags("integer sign flag", 'u', 's'))
    );
    assert_eq!(
        SignFlag::parse(""),
        Err(ParseFlagError::RequiredFlagAbsent("integer sign flag", 'u', 's'))
    );
    assert_eq!(SignFlag::parse("uxsy"), Err(ParseFlagError::UnknownFlags("xy".to_string())));
}

#[test]
fn sign_flag_codes() {
    assert_eq!(SignFlag::from_u1(0), SignFlag::Unsigned);
    assert_eq!(SignFlag::from_u1(1), SignFlag::Signed);
    assert_eq!(SignFlag::Signed.as_u1(), 1);
    assert_eq!(SignFlag::from_u1(SignFlag::Unsigned.as_u1()), SignFlag::Unsigned);
}

#[test]
fn float_eq_flag_parses() {
    assert_eq!(FloatEqFlag::parse("e"), Ok(FloatEqFlag::Exact));
    assert_eq!(FloatEqFlag::parse("r"), Ok(FloatEqFlag::Rounding));
    assert_eq!(
        FloatEqFlag::parse("re"),
        Err(ParseFlagError::MutuallyExclusiveFlags("float equality", 'e', 'r'))
    );
    assert_eq!(
        FloatEqFlag::parse(""),
        Err(ParseFlagError::RequiredFlagAbsent("float equality", 'e', 'r'))
    );
    assert_eq!(FloatEqFlag::parse("eé"), Err(ParseFlagError::UnknownFlags("é".to_string())));
    assert_eq!(FloatEqFlag::from_u1(1), FloatEqFlag::Rounding);
    assert_eq!(FloatEqFlag::Exact.as_u1(), 0);
}

#[test]
fn rounding_flag_parses() {
    assert_eq!(RoundingFlag::parse("n"), Ok(RoundingFlag::TowardsNearest));
    assert_eq!(RoundingFlag::parse("z"), Ok(RoundingFlag::TowardsZero));
    assert_eq!(RoundingFlag::parse("c"), Ok(RoundingFlag::Ceil));
    assert_eq!(RoundingFlag::parse("f"), Ok(RoundingFlag::Floor));
    assert_eq!(
        RoundingFlag::parse("zc"),
        Err(ParseFlagError::MutuallyExclusiveFlags("float rounding", 'z', 'c'))
    );
    assert_eq!(RoundingFlag::parse("nq"), Err(ParseFlagError::UnknownFlags("q".to_string())));
    assert_eq!(RoundingFlag::default(), RoundingFlag::TowardsNearest);
}

#[test]
fn int_flags_parse() {
    assert_eq!(IntFlags::parse("sw"), Ok(IntFlags { signed: true, wrap: true }));
    assert_eq!(IntFlags::parse("cu"), Ok(IntFlags { signed: false, wrap: false }));
    assert_eq!(
        IntFlags::parse("suw"),
        Err(ParseFlagError::MutuallyExclusiveFlags("integer serialization", 's', 'u'))
    );
    assert_eq!(
        IntFlags::parse("w"),
        Err(ParseFlagError::RequiredFlagAbsent("integer serialization", 's', 'u'))
    );
    assert_eq!(
        IntFlags::parse("swc"),
        Err(ParseFlagError::MutuallyExclusiveFlags("overflow", 'w', 'c'))
    );
    assert_eq!(IntFlags::parse("u"), Err(ParseFlagError::RequiredFlagAbsent("overflow", 'w', 'c')));
    assert_eq!(IntFlags::parse("uwx"), Err(ParseFlagError::UnknownFlags("x".to_string())));
    assert_eq!(IntFlags::parse("uww"), Err(ParseFlagError::UnknownFlags(String::new())));
}

#[test]
fn int_flags_text_parses_back() {
    for signed in [false, true] {
        for wrap in [false, true] {
            let f = IntFlags { signed, wrap };
            assert_eq!(IntFlags::parse(&f.to_string()), Ok(f));
        }
    }
    assert_eq!(IntFlags::signed_checked().to_string(), "sc");
    assert_eq!(IntFlags::unsigned_wrapped().to_string(), "uw");
}
