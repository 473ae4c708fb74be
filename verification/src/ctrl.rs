//! Control flow and register instructions run on the microcode core: what each does to the core
//! and where the program goes next.

use vstd::prelude::*;

use crate::alu64::{lemma_idx_position, Status};
use crate::microcode::{core_a, core_put_a, Core, CoreModel, RegA, Site, SiteId};

verus! {

/// Where the program goes after an instruction.
#[derive(Clone, Copy, PartialEq, Eq, Debug, Hash)]
pub enum ExecStep<S> {
    /// Stop the program.
    Stop,
    /// Record a failure in the check register and stop the program.
    FailHalt,
    /// Go on with the next instruction.
    Next,
    /// Record a failure in the check register and go on with the next instruction.
    FailContinue,
    /// Jump to an offset in the current code.
    Jump(u16),
    /// Go on at a site of another code fragment.
    Call(S),
}

/// Control flow instructions.
#[derive(Clone, Copy, PartialEq, Eq, Debug, Hash)]
pub enum CtrlInstr<Id: SiteId> {
    /// No operation.
    Nop,
    /// Stops the program when the check register records a failure.
    Chk,
    /// Inverts the test register.
    NotCo,
    /// Records a failure in the check register, stopping the program when the core halts on
    /// failures.
    FailCk,
    /// Clears the check register, keeping in the test register whether it recorded a failure.
    RsetCk,
    /// Jumps to a position.
    Jmp {
        /// Position.
        pos: u16,
    },
    /// Jumps to a position if the test register is set.
    JiNe {
        /// Position.
        pos: u16,
    },
    /// Jumps to a position if the check register records a failure.
    JiFail {
        /// Position.
        pos: u16,
    },
    /// Jumps by a signed distance from the current position.
    Sh {
        /// Distance.
        shift: i8,
    },
    /// Jumps by a signed distance if the test register is set.
    ShNe {
        /// Distance.
        shift: i8,
    },
    /// Jumps by a signed distance if the check register records a failure.
    ShFail {
        /// Distance.
        shift: i8,
    },
    /// Goes on at a site of another program.
    Exec {
        /// Site.
        site: Site<Id>,
    },
    /// Calls a subroutine at a position, pushing the current site to the call stack.
    Fn {
        /// Position.
        pos: u16,
    },
    /// Calls a subroutine at a site of another program, pushing the current site.
    Call {
        /// Site.
        site: Site<Id>,
    },
    /// Returns to the site on top of the call stack, or ends the program when it is empty.
    Ret,
    /// Stops the program.
    Stop,
}

/// Position `offset + shift`, when it is a position.
pub open spec fn shifted(offset: u16, shift: i8) -> Option<u16> {
    if 0 <= offset + shift <= u16::MAX {
        Some((offset + shift) as u16)
    } else {
        None
    }
}

/// Jump by `shift` from the current site: to the shifted position, or a failure when it is
/// not a position.
pub open spec fn shift_step<Id: SiteId>(m: CoreModel<Id>, current: Site<Id>, shift: i8) -> (
    CoreModel<Id>,
    ExecStep<Site<Id>>,
) {
    match shifted(current.offset, shift) {
        Some(p) => (m, ExecStep::Jump(p)),
        None => (m, ExecStep::FailHalt),
    }
}

/// The core after a control flow instruction run at site `current`, with a call stack of at
/// most `cap` sites, and where the program goes next.
pub open spec fn ctrl_step<Id: SiteId>(i: CtrlInstr<Id>, m: CoreModel<Id>, current: Site<Id>, cap: nat) -> (
    CoreModel<Id>,
    ExecStep<Site<Id>>,
) {
    let failed = m.ck == Status::Fail;
    match i {
        CtrlInstr::Nop => (m, ExecStep::Next),
        CtrlInstr::Chk => (m, if failed { ExecStep::Stop } else { ExecStep::Next }),
        CtrlInstr::FailCk => (
            CoreModel { ck: Status::Fail, cf: (m.cf + 1) as u64, ..m },
            if m.ch { ExecStep::Stop } else { ExecStep::Next },
        ),
        CtrlInstr::RsetCk => (CoreModel { co: failed, ck: Status::Success, ..m }, ExecStep::Next),
        CtrlInstr::NotCo => (CoreModel { co: !m.co, ..m }, ExecStep::Next),
        CtrlInstr::Jmp { pos } => (m, ExecStep::Jump(pos)),
        CtrlInstr::JiNe { pos } => (m, if m.co { ExecStep::Jump(pos) } else { ExecStep::Next }),
        CtrlInstr::JiFail { pos } => (m, if failed { ExecStep::Jump(pos) } else { ExecStep::Next }),
        CtrlInstr::Sh { shift } => shift_step(m, current, shift),
        CtrlInstr::ShNe { shift } => if m.co {
            shift_step(m, current, shift)
        } else {
            (m, ExecStep::Next)
        },
        CtrlInstr::ShFail { shift } => if failed {
            shift_step(m, current, shift)
        } else {
            (m, ExecStep::Next)
        },
        CtrlInstr::Exec { site } => (m, ExecStep::Call(site)),
        CtrlInstr::Fn { pos } => if m.cs.len() < cap {
            (CoreModel { cs: m.cs.push(current), ..m }, ExecStep::Jump(pos))
        } else {
            (m, ExecStep::FailHalt)
        },
        CtrlInstr::Call { site } => if m.cs.len() < cap {
            (CoreModel { cs: m.cs.push(current), ..m }, ExecStep::Call(site))
        } else {
            (m, ExecStep::FailHalt)
        },
        CtrlInstr::Ret => if m.cs.len() > 0 {
            (CoreModel { cs: m.cs.drop_last(), ..m }, ExecStep::Call(m.cs.last()))
        } else {
            (m, ExecStep::Stop)
        },
        CtrlInstr::Stop => (m, ExecStep::Stop),
    }
}

/// Position `offset + shift`, when it is a position.
fn shift_pos(offset: u16, shift: i8) -> (r: Option<u16>)
    ensures
        r == shifted(offset, shift),
{
    let t: i32 = offset as i32 + shift as i32;
    if 0 <= t && t <= 0xFFFF {
        Some(t as u16)
    } else {
        None
    }
}

impl<Id: SiteId> CtrlInstr<Id> {
    /// Bytes of data that the instruction carries as operands.
    pub open spec fn spec_op_data_bytes(&self) -> u16 {
        match *self {
            CtrlInstr::Jmp { .. } | CtrlInstr::JiNe { .. } | CtrlInstr::JiFail { .. } => 2,
            CtrlInstr::Sh { .. } | CtrlInstr::ShNe { .. } | CtrlInstr::ShFail { .. } => 1,
            CtrlInstr::Exec { .. } | CtrlInstr::Fn { .. } | CtrlInstr::Call { .. } => 2,
            _ => 0,
        }
    }

    /// Bytes of data that the instruction carries as operands.
    #[verifier::when_used_as_spec(spec_op_data_bytes)]
    pub fn op_data_bytes(&self) -> (r: u16)
        ensures
            r == self.spec_op_data_bytes(),
    {
        match *self {
            CtrlInstr::Jmp { .. } | CtrlInstr::JiNe { .. } | CtrlInstr::JiFail { .. } => 2,
            CtrlInstr::Sh { .. } | CtrlInstr::ShNe { .. } | CtrlInstr::ShFail { .. } => 1,
            CtrlInstr::Exec { .. } | CtrlInstr::Fn { .. } | CtrlInstr::Call { .. } => 2,
            _ => 0,
        }
    }

    /// Bytes of data that the instruction reads from outside its operands and the registers: the
    /// 32-byte program identifier of another program's site.
    pub open spec fn spec_ext_data_bytes(&self) -> u16 {
        match *self {
            CtrlInstr::Exec { .. } | CtrlInstr::Call { .. } => 32,
            _ => 0,
        }
    }

    /// Bytes of data that the instruction reads from outside its operands and the registers.
    #[verifier::when_used_as_spec(spec_ext_data_bytes)]
    pub fn ext_data_bytes(&self) -> (r: u16)
        ensures
            r == self.spec_ext_data_bytes(),
    {
        match *self {
            CtrlInstr::Exec { .. } | CtrlInstr::Call { .. } => 32,
            _ => 0,
        }
    }

    /// Complexity from the data sizes: a thousand units per bit of operands, ten times that per
    /// bit of registers read or written (control flow instructions use none), and a hundred
    /// times that per bit of outside data.
    pub fn base_complexity(&self) -> (r: u64)
        ensures
            r == (self.spec_op_data_bytes() + self.spec_ext_data_bytes() * 100) * 8 * 1000,
    {
        let src_reg_bytes: u64 = 0;
        let dst_reg_bytes: u64 = 0;
        (self.op_data_bytes() as u64 + src_reg_bytes * 10 + dst_reg_bytes * 10
            + self.ext_data_bytes() as u64 * 100) * 8 * 1000
    }

    /// Complexity of the instruction: its base complexity.
    pub fn complexity(&self) -> (r: u64)
        ensures
            r == (self.spec_op_data_bytes() + self.spec_ext_data_bytes() * 100) * 8 * 1000,
    {
        self.base_complexity()
    }

    /// Op code byte of the instruction.
    pub open spec fn spec_opcode_byte(&self) -> u8 {
        match *self {
            CtrlInstr::Nop => 0,
            CtrlInstr::NotCo => 1,
            CtrlInstr::Chk => 2,
            CtrlInstr::FailCk => 3,
            CtrlInstr::RsetCk => 4,
            CtrlInstr::Jmp { .. } => 5,
            CtrlInstr::JiNe { .. } => 6,
            CtrlInstr::JiFail { .. } => 7,
            CtrlInstr::Sh { .. } => 8,
            CtrlInstr::ShNe { .. } => 9,
            CtrlInstr::ShFail { .. } => 10,
            CtrlInstr::Exec { .. } => 11,
            CtrlInstr::Fn { .. } => 12,
            CtrlInstr::Call { .. } => 13,
            CtrlInstr::Ret => 14,
            CtrlInstr::Stop => 15,
        }
    }

    /// Op code byte of the instruction.
    #[verifier::when_used_as_spec(spec_opcode_byte)]
    pub fn opcode_byte(&self) -> (r: u8)
        ensures
            r == self.spec_opcode_byte(),
    {
        match *self {
            CtrlInstr::Nop => 0,
            CtrlInstr::NotCo => 1,
            CtrlInstr::Chk => 2,
            CtrlInstr::FailCk => 3,
            CtrlInstr::RsetCk => 4,
            CtrlInstr::Jmp { .. } => 5,
            CtrlInstr::JiNe { .. } => 6,
            CtrlInstr::JiFail { .. } => 7,
            CtrlInstr::Sh { .. } => 8,
            CtrlInstr::ShNe { .. } => 9,
            CtrlInstr::ShFail { .. } => 10,
            CtrlInstr::Exec { .. } => 11,
            CtrlInstr::Fn { .. } => 12,
            CtrlInstr::Call { .. } => 13,
            CtrlInstr::Ret => 14,
            CtrlInstr::Stop => 15,
        }
    }

    /// First and last op codes of control flow instructions.
    pub fn op_range() -> (r: (u8, u8))
        ensures
            r == (0u8, 15u8),
    {
        (0, 15)
    }

    /// Runs the instruction at site `current` on `core` (see [`ctrl_step`]). A failure must
    /// be countable when the instruction records one.
    pub fn exec<const CALL_STACK_SIZE: usize>(
        &self,
        core: &mut Core<Id, CALL_STACK_SIZE>,
        current: Site<Id>,
    ) -> (r: ExecStep<Site<Id>>)
        requires
            old(core).wf(),
            *self is FailCk ==> old(core)@.cf < u64::MAX,
        ensures
            final(core).wf(),
            (final(core)@, r) == ctrl_step(*self, old(core)@, current, CALL_STACK_SIZE as nat),
    {
        match *self {
            CtrlInstr::Nop => {},
            CtrlInstr::Chk => {
                if core.ck() == Status::Fail {
                    return ExecStep::Stop;
                }
            },
            CtrlInstr::FailCk => {
                if core.fail_ck() {
                    return ExecStep::Stop;
                }
            },
            CtrlInstr::RsetCk => {
                let failed = core.ck() == Status::Fail;
                core.set_co(failed);
                core.reset_ck();
            },
            CtrlInstr::NotCo => {
                let co = core.co();
                core.set_co(!co);
            },
            CtrlInstr::Jmp { pos } => return ExecStep::Jump(pos),
            CtrlInstr::JiNe { pos } => {
                if core.co() {
                    return ExecStep::Jump(pos);
                }
            },
            CtrlInstr::JiFail { pos } => {
                if core.ck() == Status::Fail {
                    return ExecStep::Jump(pos);
                }
            },
            CtrlInstr::Sh { shift } => {
                return match shift_pos(current.offset, shift) {
                    Some(p) => ExecStep::Jump(p),
                    None => ExecStep::FailHalt,
                };
            },
            CtrlInstr::ShNe { shift } => {
                if core.co() {
                    return match shift_pos(current.offset, shift) {
                        Some(p) => ExecStep::Jump(p),
                        None => ExecStep::FailHalt,
                    };
                }
            },
            CtrlInstr::ShFail { shift } => {
                if core.ck() == Status::Fail {
                    return match shift_pos(current.offset, shift) {
                        Some(p) => ExecStep::Jump(p),
                        None => ExecStep::FailHalt,
                    };
                }
            },
            CtrlInstr::Exec { site } => return ExecStep::Call(site),
            CtrlInstr::Fn { pos } => {
                return match core.push_cs(current) {
                    Some(_) => ExecStep::Jump(pos),
                    None => ExecStep::FailHalt,
                };
            },
            CtrlInstr::Call { site } => {
                return match core.push_cs(current) {
                    Some(_) => ExecStep::Call(site),
                    None => ExecStep::FailHalt,
                };
            },
            CtrlInstr::Ret => {
                return match core.pop_cs() {
                    Some(site) => ExecStep::Call(site),
                    None => ExecStep::Stop,
                };
            },
            CtrlInstr::Stop => return ExecStep::Stop,
        }
        ExecStep::Next
    }
}

/// A constant operand, which may be missing.
#[derive(Clone, Copy, PartialEq, Eq, Structural, Debug, Hash)]
pub enum MaybeU128 {
    /// No value.
    NoData,
    /// A value.
    U128(u128),
}

/// Instructions on the arithmetic registers of the microcode core.
#[derive(Clone, Copy, PartialEq, Eq, Structural, Debug, Hash)]
pub enum RegInstr {
    /// Clears a register; the test register tells whether it held a value.
    Clr {
        /// Register.
        dst: RegA,
    },
    /// Puts a constant into a register; the test register tells whether it held a value.
    Put {
        /// Register.
        dst: RegA,
        /// Constant.
        val: MaybeU128,
    },
    /// Puts a constant into a register that holds no value.
    Pif {
        /// Register.
        dst: RegA,
        /// Constant.
        val: MaybeU128,
    },
    /// Sets the test register to whether a register holds a value.
    Test {
        /// Register.
        src: RegA,
    },
    /// Copies a register (or its absence of a value) to another; the test register tells
    /// whether the destination held a value.
    Cpy {
        /// Destination.
        dst: RegA,
        /// Source.
        src: RegA,
    },
    /// Swaps the values of two registers.
    Swp {
        /// First register.
        src_dst1: RegA,
        /// Second register.
        src_dst2: RegA,
    },
    /// Sets the test register to whether two registers hold the same value (or both none).
    Eq {
        /// First register.
        src1: RegA,
        /// Second register.
        src2: RegA,
    },
}

/// The core with the test register set to `co`.
pub open spec fn with_co<Id: SiteId>(m: CoreModel<Id>, co: bool) -> CoreModel<Id> {
    CoreModel { co, ..m }
}

/// The core after a register instruction, and where the program goes next. A missing constant
/// is a failure. A swap whose first register holds a value but whose second does not leaves
/// the first register cleared and the second holding the value.
pub open spec fn reg_step<Id: SiteId>(i: RegInstr, m: CoreModel<Id>) -> (CoreModel<Id>, ExecStep<Site<Id>>) {
    match i {
        RegInstr::Clr { dst } => (with_co(core_put_a(m, dst, None), core_a(m, dst) is Some), ExecStep::Next),
        RegInstr::Put { val: MaybeU128::NoData, .. } | RegInstr::Pif { val: MaybeU128::NoData, .. } => (
            CoreModel { ck: Status::Fail, cf: (m.cf + 1) as u64, ..m },
            if m.ch { ExecStep::Stop } else { ExecStep::Next },
        ),
        RegInstr::Put { dst, val: MaybeU128::U128(v) } => (
            with_co(core_put_a(m, dst, Some(v)), core_a(m, dst) is Some),
            ExecStep::Next,
        ),
        RegInstr::Pif { dst, val: MaybeU128::U128(v) } => if core_a(m, dst) is None {
            (with_co(core_put_a(m, dst, Some(v)), false), ExecStep::Next)
        } else {
            (m, ExecStep::Next)
        },
        RegInstr::Test { src } => (with_co(m, core_a(m, src) is Some), ExecStep::Next),
        RegInstr::Cpy { dst, src } => (
            with_co(core_put_a(m, dst, core_a(m, src)), core_a(m, dst) is Some),
            ExecStep::Next,
        ),
        RegInstr::Swp { src_dst1, src_dst2 } => match core_a(m, src_dst1) {
            Some(a) => {
                let m1 = core_put_a(m, src_dst1, None);
                let m2 = core_put_a(m1, src_dst2, Some(a));
                match core_a(m1, src_dst2) {
                    Some(b) => (core_put_a(m2, src_dst1, Some(b)), ExecStep::Next),
                    None => (m2, ExecStep::Next),
                }
            },
            None => (core_put_a(m, src_dst1, None), ExecStep::Next),
        },
        RegInstr::Eq { src1, src2 } => (with_co(m, core_a(m, src1) == core_a(m, src2)), ExecStep::Next),
    }
}

/// Clearing a register twice is clearing it once.
proof fn lemma_clear_twice<Id: SiteId>(m: CoreModel<Id>, reg: RegA)
    requires
        m.a8.len() == 32,
        m.a16.len() == 32,
        m.a32.len() == 32,
        m.a64.len() == 32,
        m.a128.len() == 32,
    ensures
        core_put_a(core_put_a(m, reg, None), reg, None) == core_put_a(m, reg, None),
{
    let c = core_put_a(core_put_a(m, reg, None), reg, None);
    let d = core_put_a(m, reg, None);
    lemma_idx_position(reg.spec_idx());
    assert(c.a8 =~= d.a8);
    assert(c.a16 =~= d.a16);
    assert(c.a32 =~= d.a32);
    assert(c.a64 =~= d.a64);
    assert(c.a128 =~= d.a128);
}

impl RegInstr {
    /// Runs the instruction on `core` (see [`reg_step`]). A failure must be countable when the
    /// instruction has no constant.
    pub fn exec<Id: SiteId, const CALL_STACK_SIZE: usize>(
        &self,
        core: &mut Core<Id, CALL_STACK_SIZE>,
        _current: Site<Id>,
    ) -> (r: ExecStep<Site<Id>>)
        requires
            old(core).wf(),
            (*self matches RegInstr::Put { val: MaybeU128::NoData, .. }) || (*self matches RegInstr::Pif {
                val: MaybeU128::NoData,
                ..
            }) ==> old(core)@.cf < u64::MAX,
        ensures
            final(core).wf(),
            (final(core)@, r) == reg_step(*self, old(core)@),
    {
        match *self {
            RegInstr::Clr { dst } => {
                let was_set = core.clr_a(dst);
                core.set_co(was_set);
            },
            RegInstr::Put { val: MaybeU128::NoData, .. } | RegInstr::Pif { val: MaybeU128::NoData, .. } => {
                if core.fail_ck() {
                    return ExecStep::Stop;
                }
            },
            RegInstr::Put { dst, val: MaybeU128::U128(val) } => {
                let was_set = core.set_a(dst, val);
                core.set_co(was_set);
            },
            RegInstr::Pif { dst, val: MaybeU128::U128(val) } => {
                if core.a(dst).is_none() {
                    let was_set = core.set_a(dst, val);
                    core.set_co(was_set);
                }
            },
            RegInstr::Test { src } => {
                let was_set = core.a(src).is_some();
                core.set_co(was_set);
            },
            RegInstr::Cpy { dst, src } => {
                let was_set = match core.a(src) {
                    None => core.clr_a(dst),
                    Some(val) => core.set_a(dst, val),
                };
                core.set_co(was_set);
            },
            RegInstr::Swp { src_dst1, src_dst2 } => match core.take_a(src_dst1) {
                Some(a) => {
                    match core.swp_a(src_dst2, a) {
                        Some(b) => {
                            core.set_a(src_dst1, b);
                        },
                        None => {},
                    }
                },
                None => {
                    core.clr_a(src_dst1);
                    proof {
                        lemma_clear_twice(old(core)@, src_dst1);
                    }
                },
            },
            RegInstr::Eq { src1, src2 } => {
                let a = core.a(src1);
                let b = core.a(src2);
                core.set_co(a == b);
            },
        }
        ExecStep::Next
    }
}

/// Instructions of the microcode core: control flow, or a reserved op code.
#[derive(Clone, Copy, PartialEq, Eq, Debug, Hash)]
pub enum Instr<Id: SiteId> {
    /// Control flow instruction.
    Ctrl(CtrlInstr<Id>),
    /// Reserved op code.
    Reserved(u8),
}

/// The core after an instruction run at site `current`, with a call stack of at most `cap`
/// sites, and where the program goes next: a reserved op code fails and halts.
pub open spec fn instr_step<Id: SiteId>(i: Instr<Id>, m: CoreModel<Id>, current: Site<Id>, cap: nat) -> (
    CoreModel<Id>,
    ExecStep<Site<Id>>,
) {
    match i {
        Instr::Ctrl(c) => ctrl_step(c, m, current, cap),
        Instr::Reserved(_) => (m, ExecStep::FailHalt),
    }
}

impl<Id: SiteId> Instr<Id> {
    /// Bytes of data that the instruction carries as operands: none for a reserved op code.
    pub fn op_data_bytes(&self) -> (r: u16)
        ensures
            r == (match *self {
                Instr::Ctrl(c) => c.spec_op_data_bytes(),
                Instr::Reserved(_) => 0,
            }),
    {
        match self {
            Instr::Ctrl(c) => c.op_data_bytes(),
            Instr::Reserved(_) => 0,
        }
    }

    /// Bytes of data that the instruction reads from outside: none for a reserved op code.
    pub fn ext_data_bytes(&self) -> (r: u16)
        ensures
            r == (match *self {
                Instr::Ctrl(c) => c.spec_ext_data_bytes(),
                Instr::Reserved(_) => 0,
            }),
    {
        match self {
            Instr::Ctrl(c) => c.ext_data_bytes(),
            Instr::Reserved(_) => 0,
        }
    }

    /// Complexity of the instruction: that of a control flow instruction, or the largest value
    /// for a reserved op code.
    pub fn complexity(&self) -> (r: u64)
        ensures
            r == (match *self {
                Instr::Ctrl(c) => ((c.spec_op_data_bytes() + c.spec_ext_data_bytes() * 100) * 8
                    * 1000) as u64,
                Instr::Reserved(_) => u64::MAX,
            }),
    {
        match self {
            Instr::Ctrl(c) => c.complexity(),
            Instr::Reserved(_) => u64::MAX,
        }
    }

    /// Op code byte of the instruction.
    pub fn opcode_byte(&self) -> (r: u8)
        ensures
            r == (match *self {
                Instr::Ctrl(c) => c.spec_opcode_byte(),
                Instr::Reserved(code) => code,
            }),
    {
        match self {
            Instr::Ctrl(c) => c.opcode_byte(),
            Instr::Reserved(code) => *code,
        }
    }

    /// Runs the instruction at site `current` on `core` (see [`instr_step`]).
    pub fn exec<const CALL_STACK_SIZE: usize>(
        &self,
        core: &mut Core<Id, CALL_STACK_SIZE>,
        current: Site<Id>,
    ) -> (r: ExecStep<Site<Id>>)
        requires
            old(core).wf(),
            *self matches Instr::Ctrl(CtrlInstr::FailCk) ==> old(core)@.cf < u64::MAX,
        ensures
            final(core).wf(),
            (final(core)@, r) == instr_step(*self, old(core)@, current, CALL_STACK_SIZE as nat),
    {
        match self {
            Instr::Ctrl(c) => c.exec(core, current),
            Instr::Reserved(_) => ExecStep::FailHalt,
        }
    }
}

/// A subroutine call followed by a return goes back to the calling site and leaves the core
/// as it was; with a full call stack the call fails and halts instead.
pub proof fn law_call_then_return<Id: SiteId>(m: CoreModel<Id>, pos: u16, here: Site<Id>, there: Site<Id>, cap: nat)
    ensures
        m.cs.len() < cap ==> {
            let (m1, s1) = ctrl_step(CtrlInstr::Fn { pos }, m, here, cap);
            &&& s1 == ExecStep::<Site<Id>>::Jump(pos)
            &&& ctrl_step(CtrlInstr::<Id>::Ret, m1, there, cap) == (m, ExecStep::Call(here))
        },
        m.cs.len() >= cap ==> ctrl_step(CtrlInstr::Fn { pos }, m, here, cap) == (m, ExecStep::<Site<Id>>::FailHalt),
{
    assert(m.cs.push(here).drop_last() =~= m.cs);
}

/// Swapping two distinct registers of one block twice gives back the original core, when both
/// hold values.
pub proof fn law_swap_twice<Id: SiteId>(m: CoreModel<Id>, d1: RegA, d2: RegA)
    requires
        m.a8.len() == 32,
        m.a16.len() == 32,
        m.a32.len() == 32,
        m.a64.len() == 32,
        m.a128.len() == 32,
        d1 != d2,
        d1.spec_a() == d2.spec_a(),
        core_a(m, d1) is Some,
        core_a(m, d2) is Some,
    ensures
        reg_step(RegInstr::Swp { src_dst1: d1, src_dst2: d2 }, reg_step(RegInstr::Swp { src_dst1: d1, src_dst2: d2 }, m).0) == (m, ExecStep::<Site<Id>>::Next),
{
    lemma_idx_position(d1.spec_idx());
    lemma_idx_position(d2.spec_idx());
    let once = reg_step(RegInstr::Swp { src_dst1: d1, src_dst2: d2 }, m).0;
    let twice = reg_step(RegInstr::Swp { src_dst1: d1, src_dst2: d2 }, once).0;
    assert(twice.a8 =~= m.a8);
    assert(twice.a16 =~= m.a16);
    assert(twice.a32 =~= m.a32);
    assert(twice.a64 =~= m.a64);
    assert(twice.a128 =~= m.a128);
}

} // verus!
