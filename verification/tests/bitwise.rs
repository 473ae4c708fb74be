use aluvm::number::Number;

#[test]
fn shl_test() {
    let x = Number::from_u8(6);
    let y = Number::from_u8(24);
    assert_eq!(x.shl(Number::from_i32(2)), y);
    let x = Number::from_i16(-1);
    let y = Number::from_i16(-2);
    assert_eq!(x.shl(Number::from_i32(1)), y);
}

#[test]
fn shr_test() {
    let x = Number::from_u8(9);
    let y = Number::from_u8(4);
    assert_eq!(x.shr(Number::from_i32(1)), y);
    let x = Number::from_i16(-2);
    let y = Number::from_i16(-1);
    assert_eq!(x.shr(Number::from_i32(1)), y);
}

#[test]
fn scl_test() {
    let x = Number::from_u8(131);
    let y = Number::from_u8(7);
    assert_eq!(x.scl(Number::from_i32(1)), y);
    let x = Number::from_i16(-7);
    let y = Number::from_i16(-25);
    assert_eq!(x.scl(Number::from_i32(2)), y);
}

#[test]
fn scr_test() {
    let x = Number::from_u8(129);
    let y = Number::from_u8(192);
    assert_eq!(x.scr(Number::from_i32(1)), y);
    let x = Number::from_i8(1);
    let y = Number::from_i8(64);
    assert_eq!(x.scr(Number::from_i32(2)), y);
}

#[test]
fn reverse_bits_test() {
    let x = Number::from_u8(192);
    let y = Number::from_u8(3);
    assert_eq!(x.reverse_bits(), y);
    let x = Number::from_i8(1);
    let y = Number::from_i8(-128);
    assert_eq!(x.reverse_bits(), y);
}
