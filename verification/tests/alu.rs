use aluvm::alu64::{AluCore, IdxA, Reg, RegA, Status, A};
use aluvm::number::Number;
use std::cmp::Ordering;

#[test]
fn alu_registers_read_back() {
    let mut core = AluCore::new();
    let i = IdxA::from_u5(7);
    assert!(!core.set_a8(i, 200));
    assert!(core.set_a8(i, 201));
    assert!(!core.set_a64(i, u64::MAX));
    assert_eq!(core.get(Reg::A(RegA::A8(i))), Some(201));
    assert_eq!(core.get(Reg::A(RegA::A64(i))), Some(u64::MAX));
    assert_eq!(core.get(Reg::A(RegA::A16(i))), None);
    assert_eq!(core.swp_a16(i, 5), None);
    assert_eq!(core.take_a16(i), Some(5));
    assert!(!core.clr_a16(i));
    assert_eq!(core.a32(IdxA::from_u5(0)), None);
    assert_eq!(RegA::with(A::from_u3(1), i), RegA::A16(i));
}

#[test]
fn alu_values_are_listed_in_block_order() {
    let mut core = AluCore::new();
    core.set_a32(IdxA::from_u5(3), 30);
    core.set_a8(IdxA::from_u5(9), 9);
    core.set_a8(IdxA::from_u5(1), 1);
    let vals: Vec<u64> = core.a_values().into_iter().map(|(_, v)| v).collect();
    assert_eq!(vals, vec![1, 9, 30]);
}

#[test]
fn alu_complexity_limit() {
    let mut core = AluCore::with_limit(Some(10));
    assert_eq!(core.ck(), Status::Success);
    assert!(!core.acc_complexity(9));
    assert!(core.acc_complexity(1));
    assert_eq!(core.ca(), 10);
    assert!(core.acc_complexity(u64::MAX));
    assert_eq!(core.ca(), u64::MAX);
}

#[test]
fn comparing_the_other_way_reverses_the_order() {
    let a = Number::from_i16(-5);
    let b = Number::from_i16(3);
    assert_eq!(a.cmp_number(&b), Ordering::Less);
    assert_eq!(b.cmp_number(&a), Ordering::Greater);
    assert_eq!(a.cmp_number(&a), Ordering::Equal);
}
