use aluvm::number::Number;

#[test]
fn cmp_compare_numbers() {
    let x = Number::from_i32(0);
    let y = Number::from_i32(0);
    assert_eq!(x, y);
    let x = Number::from_i32(0);
    let y = Number::from_i32(1);
    assert!(x < y);
    let x = Number::from_i32(1);
    let y = Number::from_i32(-1);
    assert!(x > y);
    let x = Number::from_i8(-128);
    let y = Number::from_i8(-127);
    assert!(x < y);
}
