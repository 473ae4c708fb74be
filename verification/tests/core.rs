use aluvm::alu64::{IdxA, Status};
use aluvm::microcode::{Core, CoreConfig, Fq, Reg, RegA, Site, SiteId};

#[derive(Clone, Copy, PartialEq, Eq, Debug)]
struct Prog(u8);

impl SiteId for Prog {}

#[test]
fn core_starts_configured() {
    let core: Core<Prog, 4> = Core::with(CoreConfig { halt: false, complexity_lim: Some(10), field_order: Fq::M31 });
    assert_eq!(core.ck(), Status::Success);
    assert_eq!(core.cf(), 0);
    assert!(!core.has_failed());
    assert!(!core.co());
    assert_eq!(core.cp(), 0);
    assert_eq!(core.cl(), Some(10));
}

#[test]
fn failures_are_counted_until_reset() {
    let mut core: Core<Prog, 4> = Core::new();
    assert!(core.fail_ck());
    assert!(core.fail_ck());
    assert_eq!(core.ck(), Status::Fail);
    assert_eq!(core.cf(), 2);
    assert!(core.has_failed());
    core.reset_ck();
    assert_eq!(core.ck(), Status::Success);
    assert_eq!(core.cf(), 2);
    core.set_co(true);
    assert!(core.co());
    core.reset();
    assert_eq!(core.cf(), 0);
    assert!(!core.co());
}

#[test]
fn call_stack_is_bounded() {
    let mut core: Core<Prog, 2> = Core::new();
    assert_eq!(core.push_cs(Site::new(Prog(1), 10)), Some(1));
    assert_eq!(core.push_cs(Site::new(Prog(2), 20)), Some(2));
    assert_eq!(core.push_cs(Site::new(Prog(3), 30)), None);
    assert_eq!(core.cp(), 2);
    assert_eq!(core.pop_cs(), Some(Site::new(Prog(2), 20)));
    assert_eq!(core.pop_cs(), Some(Site::new(Prog(1), 10)));
    assert_eq!(core.pop_cs(), None);
}

#[test]
fn complexity_saturates_and_reaches_the_limit() {
    let mut core: Core<Prog, 2> = Core::with(CoreConfig { halt: true, complexity_lim: Some(5), field_order: Fq::F1289 });
    assert!(!core.acc_complexity(3));
    assert!(core.acc_complexity(2));
    assert!(core.acc_complexity(u64::MAX));
    let mut free: Core<Prog, 2> = Core::new();
    assert!(!free.acc_complexity(u64::MAX));
}

#[test]
fn field_order_is_configured() {
    let core: Core<Prog, 4> = Core::with(CoreConfig { halt: false, complexity_lim: None, field_order: Fq::M31 });
    assert_eq!(core.fq(), Fq::M31);
    assert_eq!(core.fq_u128(), (1u128 << 31) - 1);
    let default: Core<Prog, 4> = Core::new();
    assert_eq!(default.fq(), Fq::F1137119);
    assert_eq!(default.fq_u128(), 1 + 11 * 37 * (1u128 << 119));
}

#[test]
fn field_sum_reduces_by_the_order() {
    let mut core: Core<Prog, 4> = Core::with(CoreConfig { halt: true, complexity_lim: None, field_order: Fq::M31 });
    let order = (1u128 << 31) - 1;
    assert_eq!(core.add_mod(5, 7), Some(12));
    assert!(!core.co());
    assert_eq!(core.add_mod(order - 1, 1), Some(0));
    assert_eq!(core.add_mod(order - 1, order - 1), Some(order - 2));
    assert_eq!(core.add_mod(order, 0), None);
    assert_eq!(core.add_mod(0, order + 5), None);
}

#[test]
fn field_sum_overflowing_128_bits() {
    let mut core: Core<Prog, 4> = Core::with(CoreConfig { halt: true, complexity_lim: None, field_order: Fq::Other(u128::MAX) });
    assert_eq!(core.add_mod(u128::MAX - 1, u128::MAX - 1), Some(u128::MAX - 3));
    assert!(core.co());
    let mut f: Core<Prog, 4> = Core::with(CoreConfig { halt: true, complexity_lim: None, field_order: Fq::F1289 });
    assert_eq!(f.add_mod(u128::MAX - 9, u128::MAX - 9), Some(u128::MAX - 11));
    assert!(f.co());
    assert_eq!(f.add_mod(1, 2), Some(3));
    assert!(!f.co());
}

#[test]
fn field_negation() {
    let core: Core<Prog, 4> = Core::with(CoreConfig { halt: true, complexity_lim: None, field_order: Fq::M31 });
    let order = (1u128 << 31) - 1;
    assert_eq!(core.neg_mod(3), Some(order - 3));
    assert_eq!(core.neg_mod(0), Some(order));
    assert_eq!(core.neg_mod(order), None);
    let mut c = core.clone();
    let n = c.neg_mod(3).unwrap();
    assert_eq!(c.add_mod(3, n), Some(0));
}

#[test]
fn arithmetic_registers_start_unset() {
    let core: Core<Prog, 4> = Core::new();
    assert_eq!(core.a(RegA::A8(IdxA::from_expected(0))), None);
    assert_eq!(core.a128(IdxA::from_expected(31)), None);
    assert!(core.a_values().is_empty());
}

#[test]
fn set_a_keeps_the_low_bits() {
    let mut core: Core<Prog, 4> = Core::new();
    let r8 = RegA::A8(IdxA::from_expected(1));
    assert!(!core.set_a(r8, 0x1234));
    assert_eq!(core.a(r8), Some(0x34));
    assert_eq!(core.a8(IdxA::from_expected(1)), Some(0x34));
    assert!(core.set_a(r8, 5));
    let r128 = RegA::A128(IdxA::from_expected(2));
    let big = u128::MAX - 1;
    assert_eq!(core.swp_a(r128, big), None);
    assert_eq!(core.get(Reg::A(r128)), Some(big));
    let r64 = RegA::A64(IdxA::from_expected(2));
    assert_eq!(core.swp_a(r64, big), None);
    assert_eq!(core.a64(IdxA::from_expected(2)), Some(u64::MAX - 1));
}

#[test]
fn take_and_clear_arithmetic_registers() {
    let mut core: Core<Prog, 4> = Core::new();
    let r = RegA::A32(IdxA::from_expected(7));
    assert!(!core.clr_a(r));
    core.set_a32(IdxA::from_expected(7), 77);
    assert_eq!(core.take_a(r), Some(77));
    assert_eq!(core.a(r), None);
    core.set_a16(IdxA::from_expected(3), 16);
    assert!(core.clr_a(RegA::A16(IdxA::from_expected(3))));
    assert!(!core.clr_a16(IdxA::from_expected(3)));
    core.set_a128(IdxA::from_expected(0), 9);
    assert_eq!(core.take_a128(IdxA::from_expected(0)), Some(9));
    assert_eq!(core.swp_a8(IdxA::from_expected(0), 1), None);
    assert_eq!(core.take_a8(IdxA::from_expected(0)), Some(1));
}

#[test]
fn a_values_lists_set_registers_by_block() {
    let mut core: Core<Prog, 4> = Core::new();
    core.set_a(RegA::A128(IdxA::from_expected(0)), 128);
    core.set_a(RegA::A16(IdxA::from_expected(5)), 16);
    core.set_a(RegA::A8(IdxA::from_expected(9)), 8);
    core.set_a(RegA::A16(IdxA::from_expected(1)), 1);
    assert_eq!(
        core.a_values(),
        vec![
            (RegA::A8(IdxA::from_expected(9)), 8),
            (RegA::A16(IdxA::from_expected(1)), 1),
            (RegA::A16(IdxA::from_expected(5)), 16),
            (RegA::A128(IdxA::from_expected(0)), 128),
        ]
    );
    core.reset();
    assert!(core.a_values().is_empty());
}

#[test]
fn register_from_its_byte() {
    assert_eq!(RegA::from_u8(0b100_00011), RegA::A128(IdxA::from_expected(3)));
    assert_eq!(RegA::from_u8(0b000_11111), RegA::A8(IdxA::from_expected(31)));
    assert_eq!(RegA::from_u8(0b011_00000), RegA::A64(IdxA::from_expected(0)));
    assert_eq!(IdxA::from_expected(17).to_u5(), 17);
    assert_eq!(RegA::A64(IdxA::from_expected(0)).to_u8(), 0b011_00000);
}
