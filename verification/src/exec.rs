//! Execution of control flow, register, move and comparison instructions.

use vstd::prelude::*;

use core::cmp::Ordering;

use crate::bitwise::{mask_model, MaskOp};
use crate::cmp::number_order;
use crate::arithm::spec_int_add;
use crate::flags::IntFlags;
use crate::isa::{CmpOp, ControlFlowOp, ExecStep, MergeFlag, MoveOp, NoneEqFlag, PutOp, SignFlag};
use crate::layout::{IntLayout, Layout};
use crate::instr::{merge_regs, no_regs, regs_of, InstructionSet};
use crate::library::LibSite;
use crate::reg::Reg;
use crate::num::le_bytes;
use crate::number::{number_eq, opt_model, reshape_keeps, reshaped_model, Number, NumberModel};
use crate::reg::{RegA, RegAR, RegR};
use crate::regs::{
    call_model, jmp_model, num, ret_model, stored, with_num, writable, CoreRegs, RegsModel,
};

verus! {

/// Outcome of a control flow instruction executed at `site`.
pub open spec fn control_step(op: ControlFlowOp, m: RegsModel, site: LibSite) -> (RegsModel, ExecStep) {
    match op {
        ControlFlowOp::Fail => (RegsModel { st0: false, ..m }, ExecStep::Stop),
        ControlFlowOp::Succ => (RegsModel { st0: true, ..m }, ExecStep::Stop),
        ControlFlowOp::Jmp(o) => {
            let (n, ok) = jmp_model(m);
            (n, if ok { ExecStep::Jump(o) } else { ExecStep::Stop })
        },
        ControlFlowOp::Jif(o) => {
            if m.st0 {
                let (n, ok) = jmp_model(m);
                (n, if ok { ExecStep::Jump(o) } else { ExecStep::Stop })
            } else {
                (m, ExecStep::Next)
            }
        },
        ControlFlowOp::Routine(o) => {
            let (n, ok) = call_model(m, site);
            (n, if ok { ExecStep::Jump(o) } else { ExecStep::Stop })
        },
        ControlFlowOp::Call(s) => {
            let (n, ok) = call_model(m, s);
            (n, if ok { ExecStep::Call(s) } else { ExecStep::Stop })
        },
        ControlFlowOp::Exec(s) => {
            let (n, ok) = jmp_model(m);
            (n, if ok { ExecStep::Call(s) } else { ExecStep::Stop })
        },
        ControlFlowOp::Ret => {
            let (n, s) = ret_model(m);
            (n, match s {
                Some(s) => ExecStep::Call(s),
                None => ExecStep::Stop,
            })
        },
    }
}

/// Registers after writing `v` to a numeric register: the value is stored cut or extended to
/// the register's width, and the status is cleared when there was no value.
pub open spec fn put_model(m: RegsModel, reg: RegAR, idx: crate::reg::Reg32, v: Option<NumberModel>) -> RegsModel {
    let n = with_num(m, reg, idx, stored(v, reg));
    if v is Some {
        n
    } else {
        RegsModel { st0: false, ..n }
    }
}

/// Registers after writing `v` to a numeric register only if it is unset; the status is cleared
/// unless a value was written.
pub open spec fn put_if_model(m: RegsModel, reg: RegAR, idx: crate::reg::Reg32, v: Option<NumberModel>) -> RegsModel {
    if num(m, reg, idx) is None {
        put_model(m, reg, idx, v)
    } else {
        RegsModel { st0: false, ..m }
    }
}

/// Whether the values a put instruction carries can be written to registers.
pub open spec fn put_op_wf(op: PutOp) -> bool {
    match op {
        PutOp::PutA(_, _, v) => writable(opt_model(v)),
        PutOp::PutR(_, _, v) => writable(opt_model(v)),
        PutOp::PutIfA(_, _, v) => writable(opt_model(v)),
        PutOp::PutIfR(_, _, v) => writable(opt_model(v)),
        _ => true,
    }
}

/// Outcome of a put instruction.
pub open spec fn put_step(op: PutOp, m: RegsModel) -> RegsModel {
    match op {
        PutOp::ClrA(reg, idx) => with_num(m, RegAR::A(reg), idx, None),
        PutOp::ClrR(reg, idx) => with_num(m, RegAR::R(reg), idx, None),
        PutOp::PutA(reg, idx, v) => put_model(m, RegAR::A(reg), idx, opt_model(v)),
        PutOp::PutR(reg, idx, v) => put_model(m, RegAR::R(reg), idx, opt_model(v)),
        PutOp::PutIfA(reg, idx, v) => put_if_model(m, RegAR::A(reg), idx, opt_model(v)),
        PutOp::PutIfR(reg, idx, v) => put_if_model(m, RegAR::R(reg), idx, opt_model(v)),
    }
}

/// Whether changing the layout of an optional value keeps it (nothing is always kept).
pub open spec fn opt_keeps(v: Option<NumberModel>, to: Layout) -> bool {
    match v {
        Some(n) => reshape_keeps(n, to),
        None => true,
    }
}

/// An optional value with its layout changed.
pub open spec fn opt_reshaped(v: Option<NumberModel>, to: Layout) -> Option<NumberModel> {
    match v {
        Some(n) => Some(reshaped_model(n, to)),
        None => None,
    }
}

/// Outcome of a move instruction.
pub open spec fn move_step(op: MoveOp, m: RegsModel) -> RegsModel {
    match op {
        MoveOp::MovA(reg, i1, i2) => {
            let r = RegAR::A(reg);
            let n = with_num(m, r, i2, stored(num(m, r, i1), r));
            with_num(n, r, i1, None)
        },
        MoveOp::DupA(reg, i1, i2) => {
            let r = RegAR::A(reg);
            with_num(m, r, i2, stored(num(m, r, i1), r))
        },
        MoveOp::SwpA(reg, i1, i2) => {
            let r = RegAR::A(reg);
            let n = with_num(m, r, i2, stored(num(m, r, i1), r));
            with_num(n, r, i1, stored(num(m, r, i2), r))
        },
        MoveOp::MovR(reg, i1, i2) => {
            let r = RegAR::R(reg);
            let n = with_num(m, r, i2, stored(num(m, r, i1), r));
            with_num(n, r, i1, None)
        },
        MoveOp::DupR(reg, i1, i2) => {
            let r = RegAR::R(reg);
            with_num(m, r, i2, stored(num(m, r, i1), r))
        },
        MoveOp::CpyA(sreg, si, dreg, di) => {
            let d = RegAR::A(dreg);
            let v = num(m, RegAR::A(sreg), si);
            let n = RegsModel { st0: opt_keeps(v, d.spec_layout()), ..m };
            with_num(n, d, di, stored(opt_reshaped(v, d.spec_layout()), d))
        },
        MoveOp::CnvA(sreg, si, dreg, di) => {
            let d = RegAR::A(dreg);
            let to = Layout::Integer(IntLayout { signed: true, bytes: dreg.spec_bytes() });
            let v = num(m, RegAR::A(sreg), si);
            let n = RegsModel { st0: opt_keeps(v, to), ..m };
            with_num(n, d, di, stored(opt_reshaped(v, to), d))
        },
        MoveOp::CpyR(sreg, si, dreg, di) => {
            let d = RegAR::R(dreg);
            let v = num(m, RegAR::R(sreg), si);
            let n = RegsModel { st0: opt_keeps(v, d.spec_layout()), ..m };
            with_num(n, d, di, stored(opt_reshaped(v, d.spec_layout()), d))
        },
        MoveOp::SpyAR(sreg, si, dreg, di) => {
            let s = RegAR::A(sreg);
            let d = RegAR::R(dreg);
            let v1 = num(m, s, si);
            let v2 = num(m, d, di);
            let n = RegsModel {
                st0: opt_keeps(v1, d.spec_layout()) && opt_keeps(v2, s.spec_layout()),
                ..m
            };
            let n2 = with_num(n, d, di, stored(opt_reshaped(v1, d.spec_layout()), d));
            with_num(n2, s, si, stored(opt_reshaped(v2, s.spec_layout()), s))
        },
    }
}

/// A value read as signed when the flag says so.
pub open spec fn signed_as(v: NumberModel, flag: SignFlag) -> NumberModel {
    match flag {
        SignFlag::Signed => NumberModel { layout: v.layout.spec_into_signed(), ..v },
        SignFlag::Unsigned => v,
    }
}

/// Whether two registers both hold values and compare as `o`.
pub open spec fn compares(a: Option<NumberModel>, b: Option<NumberModel>, flag: SignFlag, o: Ordering) -> bool {
    match (a, b) {
        (Some(x), Some(y)) => number_order(signed_as(x, flag), signed_as(y, flag)) == o,
        _ => false,
    }
}

/// Whether two registers are equal; when one is unset, as the flag says.
pub open spec fn equals(a: Option<NumberModel>, b: Option<NumberModel>, flag: NoneEqFlag) -> bool {
    match (a, b) {
        (Some(x), Some(y)) => number_eq(x, y),
        _ => flag == NoneEqFlag::Equal,
    }
}

/// Whether a register holds zero.
pub open spec fn holds_zero(a: Option<NumberModel>) -> bool {
    match a {
        Some(x) => forall|i: int| 0 <= i < x.bytes.len() ==> #[trigger] x.bytes[i] == 0,
        None => false,
    }
}

/// The status as a one-byte unsigned number.
pub open spec fn status_number(st0: bool) -> NumberModel {
    NumberModel {
        layout: Layout::Integer(IntLayout { signed: false, bytes: 1 }),
        bytes: le_bytes(if st0 { 1 } else { 0 }, 1),
    }
}

/// Value that merging the status into a register value gives.
pub open spec fn merged(v: Option<NumberModel>, flag: MergeFlag, st0: bool) -> NumberModel {
    let st = status_number(st0);
    match (v, flag) {
        (None, _) => st,
        (Some(_), MergeFlag::Replace) => st,
        (Some(x), MergeFlag::Add) => match spec_int_add(x, st, IntFlags { signed: false, wrap: false }) {
            Some(y) => y,
            None => x,
        },
        (Some(x), MergeFlag::And) => mask_model(MaskOp::And, x, st),
        (Some(x), MergeFlag::Or) => mask_model(MaskOp::Or, x, st),
    }
}

/// Whether a comparison instruction runs without failing: merging the status by addition needs
/// an 8-bit register when the register holds a value, as the addition takes operands of one
/// layout.
pub open spec fn cmp_op_runs(op: CmpOp, m: RegsModel) -> bool {
    match op {
        CmpOp::St(MergeFlag::Add, reg, idx) => num(m, RegAR::A(reg), idx.to_reg32_spec()) is Some
            ==> reg == RegA::A8,
        _ => true,
    }
}

/// Outcome of a comparison instruction.
pub open spec fn cmp_step(op: CmpOp, m: RegsModel) -> RegsModel {
    match op {
        CmpOp::GtA(f, reg, i1, i2) => RegsModel {
            st0: compares(num(m, RegAR::A(reg), i1), num(m, RegAR::A(reg), i2), f, Ordering::Greater),
            ..m
        },
        CmpOp::LtA(f, reg, i1, i2) => RegsModel {
            st0: compares(num(m, RegAR::A(reg), i1), num(m, RegAR::A(reg), i2), f, Ordering::Less),
            ..m
        },
        CmpOp::GtR(reg, i1, i2) => RegsModel {
            st0: compares(
                num(m, RegAR::R(reg), i1),
                num(m, RegAR::R(reg), i2),
                SignFlag::Unsigned,
                Ordering::Greater,
            ),
            ..m
        },
        CmpOp::LtR(reg, i1, i2) => RegsModel {
            st0: compares(
                num(m, RegAR::R(reg), i1),
                num(m, RegAR::R(reg), i2),
                SignFlag::Unsigned,
                Ordering::Less,
            ),
            ..m
        },
        CmpOp::EqA(f, reg, i1, i2) => RegsModel {
            st0: equals(num(m, RegAR::A(reg), i1), num(m, RegAR::A(reg), i2), f),
            ..m
        },
        CmpOp::EqR(f, reg, i1, i2) => RegsModel {
            st0: equals(num(m, RegAR::R(reg), i1), num(m, RegAR::R(reg), i2), f),
            ..m
        },
        CmpOp::IfZA(reg, idx) => RegsModel { st0: holds_zero(num(m, RegAR::A(reg), idx)), ..m },
        CmpOp::IfZR(reg, idx) => RegsModel { st0: holds_zero(num(m, RegAR::R(reg), idx)), ..m },
        CmpOp::IfNA(reg, idx) => RegsModel { st0: num(m, RegAR::A(reg), idx) is None, ..m },
        CmpOp::IfNR(reg, idx) => RegsModel { st0: num(m, RegAR::R(reg), idx) is None, ..m },
        CmpOp::St(flag, reg, idx) => {
            let r = RegAR::A(reg);
            let i = idx.to_reg32_spec();
            with_num(m, r, i, stored(Some(merged(num(m, r, i), flag, m.st0)), r))
        },
        CmpOp::StInv => RegsModel { st0: !m.st0, ..m },
    }
}

impl InstructionSet for ControlFlowOp {
    open spec fn src_set(&self) -> Set<Reg> {
        Set::empty()
    }

    open spec fn dst_set(&self) -> Set<Reg> {
        Set::empty()
    }

    fn src_regs(&self) -> (r: Vec<Reg>) {
        no_regs()
    }

    fn dst_regs(&self) -> (r: Vec<Reg>) {
        no_regs()
    }

    fn regs(&self) -> (r: Vec<Reg>) {
        merge_regs(self.src_regs(), self.dst_regs())
    }

    /// Control flow instructions weigh 2.
    fn complexity(&self) -> (r: u64)
        ensures
            r == 2,
    {
        2
    }

    open spec fn runs(&self, m: RegsModel) -> bool {
        true
    }

    fn runs_exec(&self, regs: &CoreRegs) -> (r: bool) {
        true
    }

    /// Executes the instruction at `site` (see [`control_step`]).
    fn exec(&self, regs: &mut CoreRegs, site: LibSite) -> (r: ExecStep)
        ensures
            final(regs).wf(),
            (final(regs)@, r) == control_step(*self, old(regs)@, site),
    {
        match *self {
            ControlFlowOp::Fail => {
                regs.set_st0(false);
                ExecStep::Stop
            },
            ControlFlowOp::Succ => {
                regs.set_st0(true);
                ExecStep::Stop
            },
            ControlFlowOp::Jmp(o) => {
                if regs.jmp() {
                    ExecStep::Jump(o)
                } else {
                    ExecStep::Stop
                }
            },
            ControlFlowOp::Jif(o) => {
                if regs.st0() {
                    if regs.jmp() {
                        ExecStep::Jump(o)
                    } else {
                        ExecStep::Stop
                    }
                } else {
                    ExecStep::Next
                }
            },
            ControlFlowOp::Routine(o) => {
                if regs.call(site) {
                    ExecStep::Jump(o)
                } else {
                    ExecStep::Stop
                }
            },
            ControlFlowOp::Call(s) => {
                if regs.call(s) {
                    ExecStep::Call(s)
                } else {
                    ExecStep::Stop
                }
            },
            ControlFlowOp::Exec(s) => {
                if regs.jmp() {
                    ExecStep::Call(s)
                } else {
                    ExecStep::Stop
                }
            },
            ControlFlowOp::Ret => match regs.ret() {
                Some(s) => ExecStep::Call(s),
                None => ExecStep::Stop,
            },
        }
    }
}

/// Copy of an optional number.
fn copy_opt(v: &Option<Number>) -> (r: Option<Number>)
    ensures
        opt_model(r) == opt_model(*v),
{
    match v {
        Some(n) => Some(n.clone_number()),
        None => None,
    }
}

/// Writes a value to a register, clearing the status when there is none.
fn put(regs: &mut CoreRegs, reg: RegAR, idx: crate::reg::Reg32, v: Option<Number>)
    requires
        old(regs).wf(),
        writable(opt_model(v)),
    ensures
        final(regs).wf(),
        final(regs)@ == put_model(old(regs)@, reg, idx, opt_model(v)),
{
    if !regs.set_n(reg, idx, v) {
        regs.set_st0(false);
    }
}

/// Writes a value to an unset register, clearing the status unless a value was written.
fn put_if(regs: &mut CoreRegs, reg: RegAR, idx: crate::reg::Reg32, v: Option<Number>)
    requires
        old(regs).wf(),
        writable(opt_model(v)),
    ensures
        final(regs).wf(),
        final(regs)@ == put_if_model(old(regs)@, reg, idx, opt_model(v)),
{
    if !regs.set_n_if(reg, idx, v) {
        regs.set_st0(false);
    }
}

impl InstructionSet for PutOp {
    open spec fn src_set(&self) -> Set<Reg> {
        Set::empty()
    }

    open spec fn dst_set(&self) -> Set<Reg> {
        match *self {
            PutOp::ClrA(..) | PutOp::ClrR(..) => Set::empty(),
            PutOp::PutA(reg, idx, _) | PutOp::PutIfA(reg, idx, _) => set![Reg::A(reg, idx)],
            PutOp::PutR(reg, idx, _) | PutOp::PutIfR(reg, idx, _) => set![Reg::R(reg, idx)],
        }
    }

    fn src_regs(&self) -> (r: Vec<Reg>) {
        no_regs()
    }

    fn dst_regs(&self) -> (r: Vec<Reg>) {
        match self {
            PutOp::ClrA(..) | PutOp::ClrR(..) => no_regs(),
            PutOp::PutA(reg, idx, _) | PutOp::PutIfA(reg, idx, _) => regs_of(vec![Reg::A(*reg, *idx)]),
            PutOp::PutR(reg, idx, _) | PutOp::PutIfR(reg, idx, _) => regs_of(vec![Reg::R(*reg, *idx)]),
        }
    }

    fn regs(&self) -> (r: Vec<Reg>) {
        merge_regs(self.src_regs(), self.dst_regs())
    }

    /// Put instructions weigh 2.
    fn complexity(&self) -> (r: u64)
        ensures
            r == 2,
    {
        2
    }

    open spec fn runs(&self, m: RegsModel) -> bool {
        put_op_wf(*self)
    }

    fn runs_exec(&self, regs: &CoreRegs) -> (r: bool) {
        match self {
            PutOp::PutA(_, _, v) | PutOp::PutR(_, _, v) | PutOp::PutIfA(_, _, v) | PutOp::PutIfR(_, _, v) => {
                match v {
                    Some(n) => n.wf_exec() && n.layout().is_integer(),
                    None => true,
                }
            },
            _ => true,
        }
    }

    /// Executes the instruction (see [`put_step`]).
    fn exec(&self, regs: &mut CoreRegs, _site: LibSite) -> (r: ExecStep)
        ensures
            final(regs).wf(),
            final(regs)@ == put_step(*self, old(regs)@),
            r == ExecStep::Next,
    {
        match self {
            PutOp::ClrA(reg, idx) => {
                regs.set_n(RegAR::A(*reg), *idx, None);
            },
            PutOp::ClrR(reg, idx) => {
                regs.set_n(RegAR::R(*reg), *idx, None);
            },
            PutOp::PutA(reg, idx, v) => {
                put(regs, RegAR::A(*reg), *idx, copy_opt(v));
            },
            PutOp::PutR(reg, idx, v) => {
                put(regs, RegAR::R(*reg), *idx, copy_opt(v));
            },
            PutOp::PutIfA(reg, idx, v) => {
                put_if(regs, RegAR::A(*reg), *idx, copy_opt(v));
            },
            PutOp::PutIfR(reg, idx, v) => {
                put_if(regs, RegAR::R(*reg), *idx, copy_opt(v));
            },
        }
        ExecStep::Next
    }
}

/// Changes the layout of an optional value, telling whether it was kept.
fn reshape_opt(v: &mut Option<Number>, to: Layout) -> (r: bool)
    requires
        writable(opt_model(*old(v))),
        to is Integer,
        to.valid(),
    ensures
        writable(opt_model(*final(v))),
        opt_model(*final(v)) == opt_reshaped(opt_model(*old(v)), to),
        r == opt_keeps(opt_model(*old(v)), to),
{
    match v {
        Some(n) => n.reshape(to),
        None => true,
    }
}

impl InstructionSet for MoveOp {
    open spec fn src_set(&self) -> Set<Reg> {
        match *self {
            MoveOp::MovA(reg, i1, _) | MoveOp::DupA(reg, i1, _) => set![Reg::A(reg, i1)],
            MoveOp::SwpA(reg, i1, i2) => set![Reg::A(reg, i1), Reg::A(reg, i2)],
            MoveOp::MovR(reg, i1, _) | MoveOp::DupR(reg, i1, _) => set![Reg::R(reg, i1)],
            MoveOp::CpyA(sreg, si, _, _) | MoveOp::CnvA(sreg, si, _, _) => set![Reg::A(sreg, si)],
            MoveOp::CpyR(sreg, si, _, _) => set![Reg::R(sreg, si)],
            MoveOp::SpyAR(sreg, si, dreg, di) => set![Reg::A(sreg, si), Reg::R(dreg, di)],
        }
    }

    open spec fn dst_set(&self) -> Set<Reg> {
        match *self {
            MoveOp::MovA(reg, i1, i2) | MoveOp::SwpA(reg, i1, i2) => set![Reg::A(reg, i1), Reg::A(reg, i2)],
            MoveOp::DupA(reg, _, i2) => set![Reg::A(reg, i2)],
            MoveOp::MovR(reg, i1, i2) => set![Reg::R(reg, i1), Reg::R(reg, i2)],
            MoveOp::DupR(reg, _, i2) => set![Reg::R(reg, i2)],
            MoveOp::CpyA(_, _, dreg, di) | MoveOp::CnvA(_, _, dreg, di) => set![Reg::A(dreg, di)],
            MoveOp::CpyR(_, _, dreg, di) => set![Reg::R(dreg, di)],
            MoveOp::SpyAR(sreg, si, dreg, di) => set![Reg::A(sreg, si), Reg::R(dreg, di)],
        }
    }

    fn src_regs(&self) -> (r: Vec<Reg>) {
        match *self {
            MoveOp::MovA(reg, i1, _) | MoveOp::DupA(reg, i1, _) => regs_of(vec![Reg::A(reg, i1)]),
            MoveOp::SwpA(reg, i1, i2) => regs_of(vec![Reg::A(reg, i1), Reg::A(reg, i2)]),
            MoveOp::MovR(reg, i1, _) | MoveOp::DupR(reg, i1, _) => regs_of(vec![Reg::R(reg, i1)]),
            MoveOp::CpyA(sreg, si, _, _) | MoveOp::CnvA(sreg, si, _, _) => regs_of(vec![Reg::A(sreg, si)]),
            MoveOp::CpyR(sreg, si, _, _) => regs_of(vec![Reg::R(sreg, si)]),
            MoveOp::SpyAR(sreg, si, dreg, di) => regs_of(vec![Reg::A(sreg, si), Reg::R(dreg, di)]),
        }
    }

    fn dst_regs(&self) -> (r: Vec<Reg>) {
        match *self {
            MoveOp::MovA(reg, i1, i2) | MoveOp::SwpA(reg, i1, i2) => regs_of(vec![Reg::A(reg, i1), Reg::A(reg, i2)]),
            MoveOp::DupA(reg, _, i2) => regs_of(vec![Reg::A(reg, i2)]),
            MoveOp::MovR(reg, i1, i2) => regs_of(vec![Reg::R(reg, i1), Reg::R(reg, i2)]),
            MoveOp::DupR(reg, _, i2) => regs_of(vec![Reg::R(reg, i2)]),
            MoveOp::CpyA(_, _, dreg, di) | MoveOp::CnvA(_, _, dreg, di) => regs_of(vec![Reg::A(dreg, di)]),
            MoveOp::CpyR(_, _, dreg, di) => regs_of(vec![Reg::R(dreg, di)]),
            MoveOp::SpyAR(sreg, si, dreg, di) => regs_of(vec![Reg::A(sreg, si), Reg::R(dreg, di)]),
        }
    }

    fn regs(&self) -> (r: Vec<Reg>) {
        merge_regs(self.src_regs(), self.dst_regs())
    }

    open spec fn runs(&self, m: RegsModel) -> bool {
        true
    }

    fn runs_exec(&self, regs: &CoreRegs) -> (r: bool) {
        true
    }

    /// Executes the instruction (see [`move_step`]).
    fn exec(&self, regs: &mut CoreRegs, _site: LibSite) -> (r: ExecStep)
        ensures
            final(regs).wf(),
            final(regs)@ == move_step(*self, old(regs)@),
            r == ExecStep::Next,
    {
        match *self {
            MoveOp::MovA(reg, i1, i2) => {
                let r = RegAR::A(reg);
                let v = regs.get_n(r, i1);
                regs.set_n(r, i2, v);
                regs.set_n(r, i1, None);
            },
            MoveOp::DupA(reg, i1, i2) => {
                let r = RegAR::A(reg);
                let v = regs.get_n(r, i1);
                regs.set_n(r, i2, v);
            },
            MoveOp::SwpA(reg, i1, i2) => {
                let r = RegAR::A(reg);
                let v2 = regs.get_n(r, i2);
                let v1 = regs.get_n(r, i1);
                regs.set_n(r, i2, v1);
                regs.set_n(r, i1, v2);
            },
            MoveOp::MovR(reg, i1, i2) => {
                let r = RegAR::R(reg);
                let v = regs.get_n(r, i1);
                regs.set_n(r, i2, v);
                regs.set_n(r, i1, None);
            },
            MoveOp::DupR(reg, i1, i2) => {
                let r = RegAR::R(reg);
                let v = regs.get_n(r, i1);
                regs.set_n(r, i2, v);
            },
            MoveOp::CpyA(sreg, si, dreg, di) => {
                let d = RegAR::A(dreg);
                let mut v = regs.get_n(RegAR::A(sreg), si);
                let kept = reshape_opt(&mut v, d.layout());
                regs.set_st0(kept);
                regs.set_n(d, di, v);
            },
            MoveOp::CnvA(sreg, si, dreg, di) => {
                let d = RegAR::A(dreg);
                let mut v = regs.get_n(RegAR::A(sreg), si);
                let kept = reshape_opt(&mut v, Layout::signed(dreg.bytes()));
                regs.set_st0(kept);
                regs.set_n(d, di, v);
            },
            MoveOp::CpyR(sreg, si, dreg, di) => {
                let d = RegAR::R(dreg);
                let mut v = regs.get_n(RegAR::R(sreg), si);
                let kept = reshape_opt(&mut v, d.layout());
                regs.set_st0(kept);
                regs.set_n(d, di, v);
            },
            MoveOp::SpyAR(sreg, si, dreg, di) => {
                let s = RegAR::A(sreg);
                let d = RegAR::R(dreg);
                let mut v1 = regs.get_n(s, si);
                let mut v2 = regs.get_n(d, di);
                let k1 = reshape_opt(&mut v1, d.layout());
                let k2 = reshape_opt(&mut v2, s.layout());
                regs.set_st0(k1 && k2);
                regs.set_n(d, di, v1);
                regs.set_n(s, si, v2);
            },
        }
        ExecStep::Next
    }
}

/// Whether two orderings are the same.
fn same_order(a: Ordering, b: Ordering) -> (r: bool)
    ensures
        r == (a == b),
{
    match (a, b) {
        (Ordering::Less, Ordering::Less) => true,
        (Ordering::Equal, Ordering::Equal) => true,
        (Ordering::Greater, Ordering::Greater) => true,
        _ => false,
    }
}

/// Whether two registers of one block both hold values that compare as `o`.
fn compare_regs(regs: &CoreRegs, reg: RegAR, i1: crate::reg::Reg32, i2: crate::reg::Reg32, flag: SignFlag, o: Ordering) -> (r: bool)
    requires
        regs.wf(),
    ensures
        r == compares(num(regs@, reg, i1), num(regs@, reg, i2), flag, o),
{
    match regs.get_n2(reg, i1, reg, i2) {
        Some((x, y)) => {
            let (x, y) = match flag {
                SignFlag::Signed => (x.into_signed(), y.into_signed()),
                SignFlag::Unsigned => (x, y),
            };
            let c = x.cmp_number(&y);
            same_order(c, o)
        },
        None => false,
    }
}

/// Whether two registers of one block are equal (see [`equals`]).
fn equal_regs(regs: &CoreRegs, reg: RegAR, i1: crate::reg::Reg32, i2: crate::reg::Reg32, flag: NoneEqFlag) -> (r: bool)
    requires
        regs.wf(),
    ensures
        r == equals(num(regs@, reg, i1), num(regs@, reg, i2), flag),
{
    match regs.get_n2(reg, i1, reg, i2) {
        Some((x, y)) => x == y,
        None => match flag {
            NoneEqFlag::Equal => true,
            NoneEqFlag::NonEqual => false,
        },
    }
}

/// Whether a register holds zero.
fn zero_reg(regs: &CoreRegs, reg: RegAR, idx: crate::reg::Reg32) -> (r: bool)
    requires
        regs.wf(),
    ensures
        r == holds_zero(num(regs@, reg, idx)),
{
    match regs.get_n(reg, idx) {
        Some(x) => x.is_zero(),
        None => false,
    }
}

impl InstructionSet for CmpOp {
    open spec fn src_set(&self) -> Set<Reg> {
        match *self {
            CmpOp::GtA(_, reg, i1, i2) | CmpOp::LtA(_, reg, i1, i2) | CmpOp::EqA(_, reg, i1, i2) => set![Reg::A(reg, i1), Reg::A(reg, i2)],
            CmpOp::GtR(reg, i1, i2) | CmpOp::LtR(reg, i1, i2) | CmpOp::EqR(_, reg, i1, i2) => set![Reg::R(reg, i1), Reg::R(reg, i2)],
            CmpOp::IfZA(reg, i) | CmpOp::IfNA(reg, i) => set![Reg::A(reg, i)],
            CmpOp::IfZR(reg, i) | CmpOp::IfNR(reg, i) => set![Reg::R(reg, i)],
            CmpOp::St(..) | CmpOp::StInv => Set::empty(),
        }
    }

    open spec fn dst_set(&self) -> Set<Reg> {
        match *self {
            CmpOp::St(_, reg, i) => set![Reg::A(reg, i.to_reg32_spec())],
            _ => Set::empty(),
        }
    }

    fn src_regs(&self) -> (r: Vec<Reg>) {
        match *self {
            CmpOp::GtA(_, reg, i1, i2) | CmpOp::LtA(_, reg, i1, i2) | CmpOp::EqA(_, reg, i1, i2) => regs_of(vec![Reg::A(reg, i1), Reg::A(reg, i2)]),
            CmpOp::GtR(reg, i1, i2) | CmpOp::LtR(reg, i1, i2) | CmpOp::EqR(_, reg, i1, i2) => regs_of(vec![Reg::R(reg, i1), Reg::R(reg, i2)]),
            CmpOp::IfZA(reg, i) | CmpOp::IfNA(reg, i) => regs_of(vec![Reg::A(reg, i)]),
            CmpOp::IfZR(reg, i) | CmpOp::IfNR(reg, i) => regs_of(vec![Reg::R(reg, i)]),
            CmpOp::St(..) | CmpOp::StInv => no_regs(),
        }
    }

    fn dst_regs(&self) -> (r: Vec<Reg>) {
        match *self {
            CmpOp::St(_, reg, i) => regs_of(vec![Reg::A(reg, i.to_reg32())]),
            _ => no_regs(),
        }
    }

    fn regs(&self) -> (r: Vec<Reg>) {
        merge_regs(self.src_regs(), self.dst_regs())
    }

    open spec fn runs(&self, m: RegsModel) -> bool {
        cmp_op_runs(*self, m)
    }

    fn runs_exec(&self, regs: &CoreRegs) -> (r: bool) {
        match *self {
            CmpOp::St(MergeFlag::Add, reg, idx) => {
                regs.get_n(RegAR::A(reg), idx.to_reg32()).is_none() || reg == RegA::A8
            },
            _ => true,
        }
    }

    /// Executes the instruction (see [`cmp_step`]).
    fn exec(&self, regs: &mut CoreRegs, _site: LibSite) -> (r: ExecStep)
        ensures
            final(regs).wf(),
            final(regs)@ == cmp_step(*self, old(regs)@),
            r == ExecStep::Next,
    {
        match *self {
            CmpOp::GtA(f, reg, i1, i2) => {
                let st = compare_regs(regs, RegAR::A(reg), i1, i2, f, Ordering::Greater);
                regs.set_st0(st);
            },
            CmpOp::LtA(f, reg, i1, i2) => {
                let st = compare_regs(regs, RegAR::A(reg), i1, i2, f, Ordering::Less);
                regs.set_st0(st);
            },
            CmpOp::GtR(reg, i1, i2) => {
                let st = compare_regs(regs, RegAR::R(reg), i1, i2, SignFlag::Unsigned, Ordering::Greater);
                regs.set_st0(st);
            },
            CmpOp::LtR(reg, i1, i2) => {
                let st = compare_regs(regs, RegAR::R(reg), i1, i2, SignFlag::Unsigned, Ordering::Less);
                regs.set_st0(st);
            },
            CmpOp::EqA(f, reg, i1, i2) => {
                let st = equal_regs(regs, RegAR::A(reg), i1, i2, f);
                regs.set_st0(st);
            },
            CmpOp::EqR(f, reg, i1, i2) => {
                let st = equal_regs(regs, RegAR::R(reg), i1, i2, f);
                regs.set_st0(st);
            },
            CmpOp::IfZA(reg, idx) => {
                let st = zero_reg(regs, RegAR::A(reg), idx);
                regs.set_st0(st);
            },
            CmpOp::IfZR(reg, idx) => {
                let st = zero_reg(regs, RegAR::R(reg), idx);
                regs.set_st0(st);
            },
            CmpOp::IfNA(reg, idx) => {
                let st = regs.get_n(RegAR::A(reg), idx).is_none();
                regs.set_st0(st);
            },
            CmpOp::IfNR(reg, idx) => {
                let st = regs.get_n(RegAR::R(reg), idx).is_none();
                regs.set_st0(st);
            },
            CmpOp::St(flag, reg, idx) => {
                let r = RegAR::A(reg);
                let i = idx.to_reg32();
                let st = Number::from_u8(if regs.st0() { 1 } else { 0 });
                let res = match (regs.get_n(r, i), flag) {
                    (None, _) => st,
                    (Some(_), MergeFlag::Replace) => st,
                    (Some(v), MergeFlag::Add) => {
                        let keep = v.clone_number();
                        match v.int_add(st, IntFlags { signed: false, wrap: false }) {
                            Some(sum) => sum,
                            None => keep,
                        }
                    },
                    (Some(v), MergeFlag::And) => v.bitand(st),
                    (Some(v), MergeFlag::Or) => v.bitor(st),
                };
                regs.set_n(r, i, Some(res));
            },
            CmpOp::StInv => {
                let st = regs.st0();
                regs.set_st0(!st);
            },
        }
        ExecStep::Next
    }
}

} // verus!
