use aluvm::alu64::{IdxA, Status};
use aluvm::ctrl::{CtrlInstr, ExecStep, Instr, MaybeU128, RegInstr};
use aluvm::microcode::{Core, CoreConfig, Fq, RegA, Site, SiteId};

#[derive(Clone, Copy, PartialEq, Eq, Debug)]
struct Prog(u8);

impl SiteId for Prog {}

fn site(offset: u16) -> Site<Prog> {
    Site::new(Prog(0), offset)
}

#[test]
fn jumps_and_tests() {
    let mut core: Core<Prog, 4> = Core::new();
    assert_eq!(CtrlInstr::Nop.exec(&mut core, site(3)), ExecStep::Next);
    assert_eq!(CtrlInstr::Jmp { pos: 9 }.exec(&mut core, site(3)), ExecStep::Jump(9));
    assert_eq!(CtrlInstr::JiNe { pos: 9 }.exec(&mut core, site(3)), ExecStep::Next);
    assert_eq!(CtrlInstr::NotCo.exec(&mut core, site(3)), ExecStep::Next);
    assert!(core.co());
    assert_eq!(CtrlInstr::JiNe { pos: 9 }.exec(&mut core, site(3)), ExecStep::Jump(9));
    assert_eq!(CtrlInstr::JiFail { pos: 9 }.exec(&mut core, site(3)), ExecStep::Next);
    assert_eq!(CtrlInstr::Chk.exec(&mut core, site(3)), ExecStep::Next);
    assert_eq!(CtrlInstr::Stop.exec(&mut core, site(3)), ExecStep::Stop);
}

#[test]
fn relative_jumps() {
    let mut core: Core<Prog, 4> = Core::new();
    assert_eq!(CtrlInstr::Sh { shift: -3 }.exec(&mut core, site(10)), ExecStep::Jump(7));
    assert_eq!(CtrlInstr::Sh { shift: 5 }.exec(&mut core, site(10)), ExecStep::Jump(15));
    assert_eq!(CtrlInstr::Sh { shift: -11 }.exec(&mut core, site(10)), ExecStep::FailHalt);
    assert_eq!(CtrlInstr::Sh { shift: 1 }.exec(&mut core, site(u16::MAX)), ExecStep::FailHalt);
    assert_eq!(CtrlInstr::ShNe { shift: 1 }.exec(&mut core, site(10)), ExecStep::Next);
    assert_eq!(CtrlInstr::ShFail { shift: 1 }.exec(&mut core, site(10)), ExecStep::Next);
}

#[test]
fn failures_and_reset() {
    let mut halting: Core<Prog, 4> = Core::new();
    assert_eq!(CtrlInstr::FailCk.exec(&mut halting, site(0)), ExecStep::Stop);
    assert_eq!(halting.ck(), Status::Fail);
    assert_eq!(halting.cf(), 1);
    let mut core: Core<Prog, 4> =
        Core::with(CoreConfig { halt: false, complexity_lim: None, field_order: Fq::M31 });
    assert_eq!(CtrlInstr::FailCk.exec(&mut core, site(0)), ExecStep::Next);
    assert_eq!(CtrlInstr::Chk.exec(&mut core, site(0)), ExecStep::Stop);
    assert_eq!(CtrlInstr::JiFail { pos: 4 }.exec(&mut core, site(0)), ExecStep::Jump(4));
    assert_eq!(CtrlInstr::ShFail { shift: 2 }.exec(&mut core, site(0)), ExecStep::Jump(2));
    assert_eq!(CtrlInstr::RsetCk.exec(&mut core, site(0)), ExecStep::Next);
    assert_eq!(core.ck(), Status::Success);
    assert!(core.co());
    assert_eq!(core.cf(), 1);
}

#[test]
fn calls_and_returns() {
    let mut core: Core<Prog, 1> = Core::new();
    let other = Site::new(Prog(7), 100);
    assert_eq!(CtrlInstr::Fn { pos: 20 }.exec(&mut core, site(5)), ExecStep::Jump(20));
    assert_eq!(core.cp(), 1);
    assert_eq!(CtrlInstr::Call { site: other }.exec(&mut core, site(21)), ExecStep::FailHalt);
    assert_eq!(CtrlInstr::Ret.exec(&mut core, site(22)), ExecStep::Call(site(5)));
    assert_eq!(CtrlInstr::Ret.exec(&mut core, site(6)), ExecStep::Stop);
    assert_eq!(CtrlInstr::Call { site: other }.exec(&mut core, site(6)), ExecStep::Call(other));
    assert_eq!(CtrlInstr::Exec { site: other }.exec(&mut core, site(6)), ExecStep::Call(other));
}

#[test]
fn data_sizes_and_complexity() {
    let other = Site::new(Prog(7), 100);
    assert_eq!(CtrlInstr::<Prog>::Nop.complexity(), 0);
    assert_eq!(CtrlInstr::<Prog>::Jmp { pos: 1 }.complexity(), 16_000);
    assert_eq!(CtrlInstr::<Prog>::ShNe { shift: 1 }.complexity(), 8_000);
    assert_eq!(CtrlInstr::Call { site: other }.op_data_bytes(), 2);
    assert_eq!(CtrlInstr::Call { site: other }.ext_data_bytes(), 32);
    assert_eq!(CtrlInstr::Call { site: other }.complexity(), 25_616_000);
    assert_eq!(CtrlInstr::<Prog>::Stop.opcode_byte(), 15);
    assert_eq!(CtrlInstr::<Prog>::NotCo.opcode_byte(), 1);
    assert_eq!(CtrlInstr::<Prog>::op_range(), (0, 15));
    assert_eq!(Instr::<Prog>::Reserved(0x42).complexity(), u64::MAX);
    assert_eq!(Instr::<Prog>::Reserved(0x42).opcode_byte(), 0x42);
}

#[test]
fn reserved_instruction_fails() {
    let mut core: Core<Prog, 4> = Core::new();
    assert_eq!(Instr::Reserved(0x42).exec(&mut core, site(0)), ExecStep::FailHalt);
    assert_eq!(Instr::Ctrl(CtrlInstr::Jmp { pos: 3 }).exec(&mut core, site(0)), ExecStep::Jump(3));
}

fn a16(i: usize) -> RegA {
    RegA::A16(IdxA::from_expected(i))
}

#[test]
fn register_instructions() {
    let mut core: Core<Prog, 4> = Core::new();
    let put = RegInstr::Put { dst: a16(1), val: MaybeU128::U128(0x1_0005) };
    assert_eq!(put.exec(&mut core, site(0)), ExecStep::Next);
    assert_eq!(core.a(a16(1)), Some(5));
    assert!(!core.co());
    assert_eq!(RegInstr::Pif { dst: a16(1), val: MaybeU128::U128(9) }.exec(&mut core, site(0)), ExecStep::Next);
    assert_eq!(core.a(a16(1)), Some(5));
    RegInstr::Test { src: a16(1) }.exec(&mut core, site(0));
    assert!(core.co());
    RegInstr::Cpy { dst: a16(2), src: a16(1) }.exec(&mut core, site(0));
    assert_eq!(core.a(a16(2)), Some(5));
    assert!(!core.co());
    RegInstr::Eq { src1: a16(1), src2: a16(2) }.exec(&mut core, site(0));
    assert!(core.co());
    RegInstr::Clr { dst: a16(2) }.exec(&mut core, site(0));
    assert!(core.co());
    assert_eq!(core.a(a16(2)), None);
    RegInstr::Eq { src1: a16(1), src2: a16(2) }.exec(&mut core, site(0));
    assert!(!core.co());
}

#[test]
fn register_swaps() {
    let mut core: Core<Prog, 4> = Core::new();
    core.set_a(a16(1), 1);
    core.set_a(a16(2), 2);
    let swp = RegInstr::Swp { src_dst1: a16(1), src_dst2: a16(2) };
    swp.exec(&mut core, site(0));
    assert_eq!((core.a(a16(1)), core.a(a16(2))), (Some(2), Some(1)));
    swp.exec(&mut core, site(0));
    assert_eq!((core.a(a16(1)), core.a(a16(2))), (Some(1), Some(2)));
    core.clr_a(a16(2));
    swp.exec(&mut core, site(0));
    assert_eq!((core.a(a16(1)), core.a(a16(2))), (None, Some(1)));
}

#[test]
fn missing_constant_fails() {
    let mut core: Core<Prog, 4> = Core::new();
    let put = RegInstr::Put { dst: a16(1), val: MaybeU128::NoData };
    assert_eq!(put.exec(&mut core, site(0)), ExecStep::Stop);
    assert_eq!(core.ck(), Status::Fail);
    let mut soft: Core<Prog, 4> =
        Core::with(CoreConfig { halt: false, complexity_lim: None, field_order: Fq::M31 });
    let pif = RegInstr::Pif { dst: a16(1), val: MaybeU128::NoData };
    assert_eq!(pif.exec(&mut soft, site(0)), ExecStep::Next);
    assert_eq!(soft.cf(), 1);
}
