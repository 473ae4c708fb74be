use aluvm::flags::IntFlags;
use aluvm::layout::{FloatLayout, Layout};
use aluvm::number::Number;

fn flags(signed: bool, wrap: bool) -> IntFlags {
    IntFlags { signed, wrap }
}

fn bf16(v: f32) -> Number {
    Number::with(&half::bf16::from_f32(v).to_le_bytes(), Layout::Float(FloatLayout::BFloat16)).unwrap()
}

#[test]
fn arithm_compare_numbers() {
    let x = Number::from_i32(0);
    let y = Number::from_i32(0);
    assert_eq!(x, y);
    let x = Number::from_i32(0);
    let y = Number::from_i32(1);
    assert!(x < y);
    let x = Number::from_i32(1);
    let y = Number::from_i32(-1);
    assert!(x > y);
    let x = Number::from_i8(-128);
    let y = Number::from_i8(-127);
    assert!(x < y);
}

#[test]
fn int_add() {
    let x = Number::from_i32(1);
    let y = Number::from_i32(2);
    let z = Number::from_i32(3);
    assert_eq!(x.clone().int_add(y.clone(), flags(false, false)), Some(z.clone()));
    assert_eq!(x.clone().int_add(y.clone(), flags(true, false)), Some(z.clone()));
    let x = Number::from_u8(255);
    let y = Number::from_u8(1);
    let z = Number::from_u8(0);
    assert_eq!(x.clone().int_add(y.clone(), flags(false, false)), None);
    assert_eq!(x.clone().int_add(y.clone(), flags(true, false)), Some(z.clone()));
    assert_eq!(x.clone().int_add(y.clone(), flags(false, true)), Some(z.clone()));
    let x = Number::from_i8(1);
    let y = Number::from_i8(-1);
    let z = Number::from_i8(0);
    assert_eq!(x.clone().int_add(y.clone(), flags(true, false)), Some(z.clone()));
    assert_eq!(x.clone().int_add(y.clone(), flags(true, true)), Some(z.clone()));
    assert_eq!(x.clone().int_add(y.clone(), flags(false, false)), None);
    let x = Number::from_i8(-2);
    let y = Number::from_i8(-1);
    let z = Number::from_i8(-3);
    assert_eq!(x.clone().int_add(y.clone(), flags(true, false)), Some(z.clone()));
    assert_eq!(x.clone().int_add(y.clone(), flags(true, true)), Some(z.clone()));
    assert_eq!(x.clone().int_add(y.clone(), flags(false, false)), None);
}

#[test]
fn int_sub() {
    let x = Number::from_u8(3);
    let y = Number::from_u8(2);
    let z = Number::from_u8(1);
    assert_eq!(x.clone().int_sub(y.clone(), flags(false, false)), Some(z.clone()));
    assert_eq!(x.clone().int_sub(y.clone(), flags(true, false)), Some(z.clone()));
    let x = Number::from_i8(0);
    let y = Number::from_i8(42);
    let z = Number::from_i8(-42);
    assert_eq!(x.clone().int_sub(y.clone(), flags(true, false)), Some(z.clone()));
    assert_eq!(x.clone().int_sub(y.clone(), flags(false, false)), None);
    let x = Number::from_i32(6000);
    let y = Number::from_i32(5000);
    let z = Number::from_i32(1000);
    assert_eq!(x.clone().int_sub(y.clone(), flags(false, false)), Some(z.clone()));
    let x = Number::from_i8(-10);
    let y = Number::from_i8(-4);
    let z = Number::from_i8(-6);
    let w = Number::from_u8(6);
    assert_eq!(x.clone().int_sub(y.clone(), flags(true, false)), Some(z.clone()));
    assert_eq!(x.clone().int_sub(y.clone(), flags(false, false)), None);
    // 246 - 252
    assert_eq!(x.clone().int_sub(y.clone(), flags(false, true)), None);
    assert_eq!(y.clone().int_sub(x.clone(), flags(false, true)), Some(w.clone()));
}

#[test]
fn int_mul() {
    let x = Number::from_i32(2);
    let y = Number::from_i32(3);
    let z = Number::from_i32(6);
    assert_eq!(x.clone().int_mul(y.clone(), flags(false, false)), Some(z.clone()));
    let x = Number::from_u8(128);
    let y = Number::from_u8(2);
    let z = Number::from_u8(0);
    assert_eq!(x.clone().int_mul(y.clone(), flags(false, false)), None);
    assert_eq!(x.clone().int_mul(y.clone(), flags(false, true)), Some(z.clone()));
    let x = Number::from_i32(4);
    let y = Number::from_i32(0);
    let z = Number::from_i32(0);
    assert_eq!(x.clone().int_mul(y.clone(), flags(true, false)), Some(z.clone()));
    let x = Number::from_i32(-2);
    let y = Number::from_i32(-5);
    let z = Number::from_i32(10);
    assert_eq!(x.clone().int_mul(y.clone(), flags(true, false)), Some(z.clone()));
    assert_eq!(x.clone().int_mul(y.clone(), flags(true, true)), Some(z.clone()));
}

#[test]
fn int_div() {
    let x = Number::from_i32(6);
    let y = Number::from_i32(3);
    let z = Number::from_i32(2);
    assert_eq!(x.clone().int_div(y.clone(), flags(false, false)), Some(z.clone()));
    let x = Number::from_i32(7);
    let y = Number::from_i32(2);
    let z = Number::from_i32(3);
    assert_eq!(x.clone().int_div(y.clone(), flags(false, false)), Some(z.clone()));
    let x = Number::from_u8(4);
    let y = Number::from_u8(0);
    assert_eq!(x.clone().int_div(y.clone(), flags(false, false)), None);
    assert_eq!(x.clone().int_div(y.clone(), flags(false, true)), None);
    assert_eq!(x.clone().int_div(y.clone(), flags(true, false)), None);
    assert_eq!(x.clone().int_div(y.clone(), flags(true, true)), None);
    let x = Number::from_i8(-7);
    let y = Number::from_i8(4);
    let z = Number::from_i8(-1);
    let w = Number::from_i8(-2);
    assert_eq!(x.clone().int_div(y.clone(), flags(true, false)), Some(z.clone()));
    assert_eq!(x.clone().int_div(y.clone(), flags(true, true)), Some(w.clone()));
    let x = Number::from_i8(-128);
    let y = Number::from_i8(-1);
    let z = Number::from_i8(0);
    assert_eq!(x.clone().int_div(y.clone(), flags(true, false)), None);
    assert_eq!(x.clone().int_div(y.clone(), flags(false, true)), Some(z.clone()));
}

#[test]
fn applying_sign() {
    let x = Number::from_i8(1);
    let y = Number::from_i8(-1);
    assert_eq!(x.clone().applying_sign(true).unwrap(), y);
    assert_eq!(x, y.clone().applying_sign(false).unwrap());

    let x = Number::from_i8(1);
    let y = Number::from_i8(1);
    assert_eq!(x.clone().applying_sign(false).unwrap(), y);

    let x = bf16(7.0);
    let y = bf16(-7.0);
    assert_ne!(x, y);
    assert_eq!(x.clone().applying_sign(true).unwrap(), y);

    let x = bf16(7.0);
    let y = bf16(7.0);
    assert_eq!(x, y);
    assert_eq!(x.clone().applying_sign(false).unwrap(), y);
}

#[test]
fn applying_sign_to_unsigned() {
    let x = Number::from_u8(1);
    assert_eq!(None, x.applying_sign(false));
}

#[test]
fn applying_sign_to_minimum() {
    let x = Number::from_i8(-128);
    assert_eq!(None, x.applying_sign(false));
}

#[test]
fn without_sign() {
    let x = Number::from_i8(1);
    let y = Number::from_i8(-1);
    assert_eq!(x.clone().without_sign().unwrap(), x);
    assert_eq!(y.without_sign().unwrap(), x);
}

#[test]
fn neg() {
    let x = Number::from_i8(1);
    let y = Number::from_i8(-1);
    assert_ne!(x, y);
    assert_eq!(x.clone().neg().unwrap(), y);
    assert_eq!(x, y.clone().neg().unwrap());

    let x = bf16(7.0);
    let y = bf16(-7.0);
    assert_ne!(x, y);
    assert_eq!(x.clone().neg().unwrap(), y);
    assert_eq!(x, y.clone().neg().unwrap());
}

#[test]
fn abs() {
    let x = Number::from_i8(1);
    let y = Number::from_i8(-1);
    assert_eq!(x, y.abs().unwrap());

    let x = bf16(12.3);
    let y = bf16(-12.3);
    assert_eq!(x, y.abs().unwrap());

    let x = Number::from_i8(-128);
    assert_eq!(None, x.abs());

    let x = Number::from_i16(-128);
    let y = Number::from_i16(128);
    assert_eq!(x.abs().unwrap(), y);
}

#[test]
fn minimum_keeps_its_negative_sign() {
    let x = Number::from_i8(-128);
    assert_eq!(x.clone().applying_sign(true), Some(Number::from_i8(-128)));
    assert_eq!(x.clone().neg(), None);
    assert_eq!(x.abs(), None);
}

fn wide(top: u8, low: u8, fill: u8) -> Number {
    let mut v = vec![fill; 128];
    v[0] = low;
    v[127] = top;
    Number::from_parts(Layout::signed(128), v)
}

#[test]
fn division_around_the_smallest_1024_bit_value() {
    let min = wide(0x80, 0, 0);
    let minus_one = wide(0xFF, 0xFF, 0xFF);
    let minus_two = wide(0xFF, 0xFE, 0xFF);
    let one = wide(0, 1, 0);
    let zero = wide(0, 0, 0);
    let big = wide(0x40, 0, 0);
    let big_negative = wide(0xC0, 0, 0);
    let trunc = flags(true, false);
    let euclid = flags(true, true);
    assert_eq!(min.clone().int_div(minus_one.clone(), trunc), None);
    assert_eq!(min.clone().int_div(minus_one.clone(), euclid), None);
    assert_eq!(min.clone().int_div(min.clone(), trunc), Some(one.clone()));
    assert_eq!(min.clone().int_div(min.clone(), euclid), Some(one.clone()));
    assert_eq!(min.clone().int_div(minus_two.clone(), trunc), Some(zero.clone()));
    assert_eq!(min.clone().int_div(minus_two.clone(), euclid), Some(one.clone()));
    assert_eq!(big.clone().int_div(min.clone(), trunc), Some(minus_one.clone()));
    assert_eq!(big.clone().int_div(min.clone(), euclid), Some(zero.clone()));
    assert_eq!(big_negative.clone().int_div(min.clone(), trunc), Some(one.clone()));
    assert_eq!(big_negative.clone().int_div(min.clone(), euclid), Some(one.clone()));
}

#[test]
fn multiplication_by_the_smallest_1024_bit_value_runs() {
    let min = wide(0x80, 0, 0);
    let two = wide(0, 2, 0);
    let signed = flags(true, false);
    assert_eq!(min.clone().int_mul(two.clone(), signed), min.clone().int_mul(two.clone(), signed));
    assert_eq!(two.clone().int_mul(min.clone(), signed), None);
}

#[test]
fn remainders() {
    let mut two = vec![0u8; 16];
    two[0] = 2;
    assert_eq!(
        Number::from_u8(17).rem(Number::from_u8(5)),
        Some(Number::from_parts(Layout::signed(16), two))
    );
    let mut fifteen = vec![0u8; 128];
    fifteen[0] = 15;
    // signed numbers are divided as the unsigned numbers of their bytes: 255 % 16
    assert_eq!(
        Number::from_i8(-1).rem(Number::from_i8(16)),
        Some(Number::from_parts(Layout::unsigned(128), fifteen))
    );
    assert_eq!(Number::from_u8(17).rem(Number::from_u8(0)), None);
}
