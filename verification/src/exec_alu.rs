//! Execution of arithmetic and bitwise instructions.

use vstd::prelude::*;

use vstd::arithmetic::power2::pow2;

use crate::arithm::{spec_int_add, spec_int_div, spec_int_mul, spec_int_sub, spec_rem};
use crate::bigint::i1024_div_refused;
use crate::bitwise::{
    mask_model, rev_bits, spec_scl, spec_scr, spec_shl, spec_shr, MaskOp,
};
use crate::exec::signed_as;
use crate::flags::IntFlags;
use crate::instr::{merge_regs, no_regs, regs_of, InstructionSet};
use crate::library::LibSite;
use crate::reg::Reg;
use crate::isa::{ArithmeticOp, BitwiseOp, ExecStep, SignFlag};
use crate::layout::{IntLayout, Layout};
use crate::num::{le_bytes, le_val, pow256, sle_val};
use crate::number::{not_bytes, opt_model, Number, NumberModel};
use crate::reg::{Reg32, RegA, RegA2, RegAR, RegR};
use crate::regs::{num, stored, with_num, writable, CoreRegs, RegsModel};
use crate::shift::{shl_bytes, shr_bytes};

verus! {

broadcast use crate::num::lemma_le_bytes_len;

/// Value of a step of `k` in the layout of the value it is added to.
pub open spec fn step_model(layout: Layout, k: int) -> NumberModel {
    NumberModel { layout, bytes: le_bytes(k, layout.spec_bytes() as nat) }
}

/// Result of combining two optional values with a binary operation on values.
pub open spec fn both(
    a: Option<NumberModel>,
    b: Option<NumberModel>,
    f: spec_fn(NumberModel, NumberModel) -> Option<NumberModel>,
) -> Option<NumberModel> {
    match (a, b) {
        (Some(x), Some(y)) => f(x, y),
        _ => None,
    }
}

/// Register written by an arithmetic instruction and the value written to it.
pub open spec fn arith_result(op: ArithmeticOp, m: RegsModel) -> (RegA, Reg32, Option<NumberModel>) {
    match op {
        ArithmeticOp::AddA(f, reg, src, dst) => (reg, dst, both(
            num(m, RegAR::A(reg), src),
            num(m, RegAR::A(reg), dst),
            |x: NumberModel, y: NumberModel| spec_int_add(x, y, f),
        )),
        ArithmeticOp::SubA(f, reg, src, dst) => (reg, dst, both(
            num(m, RegAR::A(reg), src),
            num(m, RegAR::A(reg), dst),
            |x: NumberModel, y: NumberModel| spec_int_sub(x, y, f),
        )),
        ArithmeticOp::MulA(f, reg, src, dst) => (reg, dst, both(
            num(m, RegAR::A(reg), src),
            num(m, RegAR::A(reg), dst),
            |x: NumberModel, y: NumberModel| spec_int_mul(x, y, f),
        )),
        ArithmeticOp::DivA(f, reg, src, dst) => (reg, dst, both(
            num(m, RegAR::A(reg), src),
            num(m, RegAR::A(reg), dst),
            |x: NumberModel, y: NumberModel| spec_int_div(x, y, f),
        )),
        ArithmeticOp::Stp(reg, idx, step) => (reg, idx, match num(m, RegAR::A(reg), idx) {
            Some(x) => if step < 0 {
                spec_int_sub(x, step_model(x.layout, -step), IntFlags { signed: false, wrap: false })
            } else {
                spec_int_add(x, step_model(x.layout, step as int), IntFlags { signed: false, wrap: false })
            },
            None => None,
        }),
        ArithmeticOp::Rem(r1, i1, r2, i2) => (r2, i2, match (num(m, RegAR::A(r1), i1), num(m, RegAR::A(r2), i2)) {
            (Some(x), Some(y)) => spec_rem(x, y),
            _ => None,
        }),
        // Arithmetic registers hold unsigned values, which have no negation.
        ArithmeticOp::Neg(reg, idx) => (reg, idx, None),
        // Unsigned values are their own absolute value.
        ArithmeticOp::Abs(reg, idx) => (reg, idx, num(m, RegAR::A(reg), idx)),
    }
}

/// Outcome of an arithmetic instruction: the result is written (nothing clears the register)
/// and the status tells whether there was a result.
pub open spec fn arith_step(op: ArithmeticOp, m: RegsModel) -> RegsModel {
    let (reg, idx, res) = arith_result(op, m);
    RegsModel { st0: res is Some, ..with_num(m, RegAR::A(reg), idx, stored(res, RegAR::A(reg))) }
}

/// Whether an arithmetic instruction runs without failing: signed division is not relied upon
/// on the operands [`i1024_div_refused`] describes, where the `amplify` crate panics or
/// divides by zero; a remainder needs registers of at most 128 bits holding values below
/// `2^127` (wider ones are not divided, and the values are read as 128-bit signed integers);
/// and a step of -128 has no positive counterpart of its width.
pub open spec fn arith_op_runs(op: ArithmeticOp, m: RegsModel) -> bool {
    match op {
        ArithmeticOp::DivA(f, reg, src, dst) => match (num(m, RegAR::A(reg), src), num(m, RegAR::A(reg), dst)) {
            (Some(x), Some(y)) => f.signed && le_val(x.bytes) != 0 && le_val(y.bytes) != 0
                ==> !i1024_div_refused(sle_val(x.bytes), sle_val(y.bytes)),
            _ => true,
        },
        ArithmeticOp::Rem(r1, i1, r2, i2) => match (num(m, RegAR::A(r1), i1), num(m, RegAR::A(r2), i2)) {
            (Some(x), Some(y)) => r1.spec_bytes() <= 16 && r2.spec_bytes() <= 16 && le_val(x.bytes)
                < pow256(16) / 2 && le_val(y.bytes) < pow256(16) / 2,
            _ => true,
        },
        ArithmeticOp::Stp(_, _, step) => step != -128,
        _ => true,
    }
}

/// Sum of two arithmetic registers (see [`arith_result`]).
fn add_regs(regs: &CoreRegs, f: IntFlags, reg: RegA, src: Reg32, dst: Reg32) -> (r: Option<Number>)
    requires
        regs.wf(),
    ensures
        opt_model(r) == arith_result(ArithmeticOp::AddA(f, reg, src, dst), regs@).2,
        r matches Some(n) ==> n.wf(),
        writable(opt_model(r)),
{
    match regs.get_n2(RegAR::A(reg), src, RegAR::A(reg), dst) {
        Some((x, y)) => x.int_add(y, f),
        None => None,
    }
}

/// Difference of two arithmetic registers (see [`arith_result`]).
fn sub_regs(regs: &CoreRegs, f: IntFlags, reg: RegA, src: Reg32, dst: Reg32) -> (r: Option<Number>)
    requires
        regs.wf(),
    ensures
        opt_model(r) == arith_result(ArithmeticOp::SubA(f, reg, src, dst), regs@).2,
        r matches Some(n) ==> n.wf(),
        writable(opt_model(r)),
{
    match regs.get_n2(RegAR::A(reg), src, RegAR::A(reg), dst) {
        Some((x, y)) => x.int_sub(y, f),
        None => None,
    }
}

/// Product of two arithmetic registers (see [`arith_result`]).
fn mul_regs(regs: &CoreRegs, f: IntFlags, reg: RegA, src: Reg32, dst: Reg32) -> (r: Option<Number>)
    requires
        regs.wf(),
        arith_op_runs(ArithmeticOp::MulA(f, reg, src, dst), regs@),
    ensures
        opt_model(r) == arith_result(ArithmeticOp::MulA(f, reg, src, dst), regs@).2,
        r matches Some(n) ==> n.wf(),
        writable(opt_model(r)),
{
    match regs.get_n2(RegAR::A(reg), src, RegAR::A(reg), dst) {
        Some((x, y)) => x.int_mul(y, f),
        None => None,
    }
}

/// Quotient of two arithmetic registers (see [`arith_result`]).
fn div_regs(regs: &CoreRegs, f: IntFlags, reg: RegA, src: Reg32, dst: Reg32) -> (r: Option<Number>)
    requires
        regs.wf(),
        arith_op_runs(ArithmeticOp::DivA(f, reg, src, dst), regs@),
    ensures
        opt_model(r) == arith_result(ArithmeticOp::DivA(f, reg, src, dst), regs@).2,
        r matches Some(n) ==> n.wf(),
        writable(opt_model(r)),
{
    match regs.get_n2(RegAR::A(reg), src, RegAR::A(reg), dst) {
        Some((x, y)) => x.int_div(y, f),
        None => None,
    }
}

/// A non-zero number stays non-zero when extended with its sign.
proof fn lemma_nonzero_extended(x: NumberModel, a: Seq<u8>)
    requires
        sle_val(a) == sle_val(x.bytes),
        le_val(x.bytes) != 0,
    ensures
        le_val(a) != 0,
{
    crate::num::lemma_le_val_bound(x.bytes);
    crate::number::lemma_le_val_zero(a);
    if le_val(a) == 0 {
        if a.len() > 0 {
            assert(a.last() == a[a.len() - 1]);
        }
    }
}

/// Whether a division of arithmetic registers runs (see [`arith_op_runs`]).
fn div_runs(regs: &CoreRegs, f: IntFlags, reg: RegA, src: Reg32, dst: Reg32) -> (r: bool)
    requires
        regs.wf(),
    ensures
        r == arith_op_runs(ArithmeticOp::DivA(f, reg, src, dst), regs@),
{
    if !f.signed {
        return true;
    }
    match regs.get_n2(RegAR::A(reg), src, RegAR::A(reg), dst) {
        Some((x, y)) => {
            proof {
                crate::number::lemma_le_val_zero(x@.bytes);
                crate::number::lemma_le_val_zero(y@.bytes);
            }
            if x.is_zero() || y.is_zero() {
                true
            } else {
                let a = crate::arithm::extend_1024(&x, true);
                let b = crate::arithm::extend_1024(&y, true);
                proof {
                    lemma_nonzero_extended(x@, a@);
                    lemma_nonzero_extended(y@, b@);
                }
                !crate::bigint::div_refused_exec(&a, &b)
            }
        },
        None => true,
    }
}

/// Whether a number of at most 16 bytes holds a value below `2^127`.
fn below_half_u128(x: &Number) -> (r: bool)
    requires
        x.wf(),
    ensures
        x@.bytes.len() <= 16 ==> (r == (le_val(x@.bytes) < pow256(16) / 2)),
{
    let n = x.len();
    proof {
        crate::num::lemma_pow256_values();
        crate::num::lemma_le_val_bound(x@.bytes);
        if n > 0 {
            crate::num::lemma_le_val_top(x@.bytes, 128);
        }
        if n < 16 {
            crate::num::lemma_pow256_mono(n as nat, 15);
        }
        assert(pow256(16) == 256 * pow256(15));
    }
    if n < 16 {
        true
    } else if n == 16 {
        x.byte(15) < 128
    } else {
        false
    }
}

/// Remainder of two arithmetic registers (see [`arith_result`]).
fn rem_regs(regs: &CoreRegs, r1: RegA, i1: Reg32, r2: RegA, i2: Reg32) -> (r: Option<Number>)
    requires
        regs.wf(),
        arith_op_runs(ArithmeticOp::Rem(r1, i1, r2, i2), regs@),
    ensures
        opt_model(r) == arith_result(ArithmeticOp::Rem(r1, i1, r2, i2), regs@).2,
        r matches Some(n) ==> n.wf(),
        writable(opt_model(r)),
{
    match regs.get_n2(RegAR::A(r1), i1, RegAR::A(r2), i2) {
        Some((x, y)) => x.rem(y),
        None => None,
    }
}

/// A register with a step added (see [`arith_result`]).
fn step_reg(regs: &CoreRegs, reg: RegA, idx: Reg32, step: i8) -> (r: Option<Number>)
    requires
        regs.wf(),
        step != -128,
    ensures
        opt_model(r) == arith_result(ArithmeticOp::Stp(reg, idx, step), regs@).2,
        r matches Some(n) ==> n.wf(),
        writable(opt_model(r)),
{
    match regs.get_n(RegAR::A(reg), idx) {
        Some(x) => {
            let layout = x.layout();
            let k: i8 = if step < 0 {
                -step
            } else {
                step
            };
            let mut n = Number::from_i8(k);
            proof {
                crate::number::lemma_reshape_keeps_range(n@, layout);
            }
            n.reshape(layout);
            if step < 0 {
                x.int_sub(n, IntFlags { signed: false, wrap: false })
            } else {
                x.int_add(n, IntFlags { signed: false, wrap: false })
            }
        },
        None => None,
    }
}

impl InstructionSet for ArithmeticOp {
    open spec fn src_set(&self) -> Set<Reg> {
        match *self {
            ArithmeticOp::Neg(reg, i) | ArithmeticOp::Abs(reg, i) | ArithmeticOp::Stp(reg, i, _) => set![Reg::A(reg, i)],
            ArithmeticOp::AddA(_, reg, src, srcdst) | ArithmeticOp::SubA(_, reg, src, srcdst)
            | ArithmeticOp::MulA(_, reg, src, srcdst) | ArithmeticOp::DivA(_, reg, src, srcdst) => set![Reg::A(reg, src), Reg::A(reg, srcdst)],
            ArithmeticOp::Rem(r1, i1, r2, i2) => set![Reg::A(r1, i1), Reg::A(r2, i2)],
        }
    }

    open spec fn dst_set(&self) -> Set<Reg> {
        match *self {
            ArithmeticOp::Neg(reg, i) | ArithmeticOp::Abs(reg, i) | ArithmeticOp::Stp(reg, i, _) => set![Reg::A(reg, i)],
            ArithmeticOp::AddA(_, reg, _, srcdst) | ArithmeticOp::SubA(_, reg, _, srcdst)
            | ArithmeticOp::MulA(_, reg, _, srcdst) | ArithmeticOp::DivA(_, reg, _, srcdst) => set![Reg::A(reg, srcdst)],
            ArithmeticOp::Rem(_, _, r2, i2) => set![Reg::A(r2, i2)],
        }
    }

    fn src_regs(&self) -> (r: Vec<Reg>) {
        match *self {
            ArithmeticOp::Neg(reg, i) | ArithmeticOp::Abs(reg, i) | ArithmeticOp::Stp(reg, i, _) => regs_of(vec![Reg::A(reg, i)]),
            ArithmeticOp::AddA(_, reg, src, srcdst) | ArithmeticOp::SubA(_, reg, src, srcdst)
            | ArithmeticOp::MulA(_, reg, src, srcdst) | ArithmeticOp::DivA(_, reg, src, srcdst) => regs_of(vec![Reg::A(reg, src), Reg::A(reg, srcdst)]),
            ArithmeticOp::Rem(r1, i1, r2, i2) => regs_of(vec![Reg::A(r1, i1), Reg::A(r2, i2)]),
        }
    }

    fn dst_regs(&self) -> (r: Vec<Reg>) {
        match *self {
            ArithmeticOp::Neg(reg, i) | ArithmeticOp::Abs(reg, i) | ArithmeticOp::Stp(reg, i, _) => regs_of(vec![Reg::A(reg, i)]),
            ArithmeticOp::AddA(_, reg, _, srcdst) | ArithmeticOp::SubA(_, reg, _, srcdst)
            | ArithmeticOp::MulA(_, reg, _, srcdst) | ArithmeticOp::DivA(_, reg, _, srcdst) => regs_of(vec![Reg::A(reg, srcdst)]),
            ArithmeticOp::Rem(_, _, r2, i2) => regs_of(vec![Reg::A(r2, i2)]),
        }
    }

    fn regs(&self) -> (r: Vec<Reg>) {
        merge_regs(self.src_regs(), self.dst_regs())
    }

    open spec fn runs(&self, m: RegsModel) -> bool {
        arith_op_runs(*self, m)
    }

    fn runs_exec(&self, regs: &CoreRegs) -> (r: bool) {
        match *self {
            ArithmeticOp::DivA(f, reg, src, dst) => div_runs(regs, f, reg, src, dst),
            ArithmeticOp::Rem(r1, i1, r2, i2) => match regs.get_n2(RegAR::A(r1), i1, RegAR::A(r2), i2) {
                Some((x, y)) => r1.bytes() <= 16 && r2.bytes() <= 16 && below_half_u128(&x)
                    && below_half_u128(&y),
                None => true,
            },
            ArithmeticOp::Stp(_, _, step) => step != -128,
            _ => true,
        }
    }

    /// Executes the instruction (see [`arith_step`]).
    fn exec(&self, regs: &mut CoreRegs, _site: LibSite) -> (r: ExecStep)
        ensures
            final(regs).wf(),
            final(regs)@ == arith_step(*self, old(regs)@),
            r == ExecStep::Next,
    {
        let ghost (greg, gidx, gres) = arith_result(*self, regs@);
        let (reg, idx, res) = match *self {
            ArithmeticOp::AddA(f, reg, src, dst) => (reg, dst, add_regs(regs, f, reg, src, dst)),
            ArithmeticOp::SubA(f, reg, src, dst) => (reg, dst, sub_regs(regs, f, reg, src, dst)),
            ArithmeticOp::MulA(f, reg, src, dst) => (reg, dst, mul_regs(regs, f, reg, src, dst)),
            ArithmeticOp::DivA(f, reg, src, dst) => (reg, dst, div_regs(regs, f, reg, src, dst)),
            ArithmeticOp::Rem(r1, i1, r2, i2) => (r2, i2, rem_regs(regs, r1, i1, r2, i2)),
            ArithmeticOp::Stp(reg, idx, step) => (reg, idx, step_reg(regs, reg, idx, step)),
            ArithmeticOp::Neg(reg, idx) => {
                let r = match regs.get_n(RegAR::A(reg), idx) {
                    Some(x) => x.neg(),
                    None => None,
                };
                (reg, idx, r)
            },
            ArithmeticOp::Abs(reg, idx) => {
                let r = match regs.get_n(RegAR::A(reg), idx) {
                    Some(x) => x.abs(),
                    None => None,
                };
                (reg, idx, r)
            },
        };
        assert(reg == greg && idx == gidx && opt_model(res) == gres);
        let is_some = regs.set_n(RegAR::A(reg), idx, res);
        regs.set_st0(is_some);
        ExecStep::Next
    }
}

/// Shift amount an optional register value gives: its unsigned value, zero when unset.
pub open spec fn shift_of(v: Option<NumberModel>) -> nat {
    match v {
        Some(x) => le_val(x.bytes),
        None => 0,
    }
}

/// Whether the most significant bit of a value is set.
pub open spec fn msb_set(x: NumberModel) -> bool {
    x.bytes.last() & 0x80 == 0x80
}

/// Whether the least significant bit of a value is set.
pub open spec fn lsb_set(x: NumberModel) -> bool {
    x.bytes[0] & 1 == 1
}

/// A value divided by `2^e`, in its layout; unlike [`spec_shr`] there is no 1024-bit limit.
pub open spec fn wide_shr(m: NumberModel, e: nat) -> NumberModel {
    NumberModel { layout: m.layout, bytes: le_bytes((le_val(m.bytes) / pow2(e)) as int, m.bytes.len()) }
}

/// Bitwise OR of two values of one width, in the layout of the first.
pub open spec fn or_model(a: NumberModel, b: NumberModel) -> NumberModel {
    NumberModel { layout: a.layout, bytes: Seq::new(a.bytes.len(), |i: int| a.bytes[i] | b.bytes[i]) }
}

/// An optional value with all bits inverted.
pub open spec fn not_opt(v: Option<NumberModel>) -> Option<NumberModel> {
    match v {
        Some(x) => Some(NumberModel { layout: x.layout, bytes: not_bytes(x.bytes) }),
        None => None,
    }
}

/// An optional value with its bits in reverse order.
pub open spec fn rev_opt(v: Option<NumberModel>) -> Option<NumberModel> {
    match v {
        Some(x) => Some(NumberModel { layout: x.layout, bytes: rev_bits(x.bytes) }),
        None => None,
    }
}

/// An optional value shifted by the amount of another optional value, when both are set.
pub open spec fn shifted(
    v: NumberModel,
    s: Option<NumberModel>,
    f: spec_fn(NumberModel, nat) -> NumberModel,
) -> Option<NumberModel> {
    match s {
        Some(a) => Some(f(v, le_val(a.bytes))),
        None => None,
    }
}

/// Registers with an in-place change of a general-purpose register that holds a value, setting
/// the status from the old value; unchanged when it is unset.
pub open spec fn r_in_place(
    m: RegsModel,
    r: RegR,
    idx: Reg32,
    st: spec_fn(NumberModel) -> bool,
    f: spec_fn(NumberModel) -> NumberModel,
) -> RegsModel {
    match num(m, RegAR::R(r), idx) {
        Some(v) => with_num(RegsModel { st0: st(v), ..m }, RegAR::R(r), idx, Some(f(v))),
        None => m,
    }
}

/// Mask operation of an instruction.
pub open spec fn mask_of(op: BitwiseOp) -> MaskOp {
    match op {
        BitwiseOp::Or(..) => MaskOp::Or,
        BitwiseOp::Xor(..) => MaskOp::Xor,
        _ => MaskOp::And,
    }
}

/// Outcome of a bitwise instruction.
pub open spec fn bitwise_step(op: BitwiseOp, m: RegsModel) -> RegsModel {
    match op {
        BitwiseOp::And(reg, s1, s2, d) | BitwiseOp::Or(reg, s1, s2, d) | BitwiseOp::Xor(
            reg,
            s1,
            s2,
            d,
        ) => with_num(m, reg, d, stored(both(
            num(m, reg, s1),
            num(m, reg, s2),
            |x: NumberModel, y: NumberModel| Some(mask_model(mask_of(op), x, y)),
        ), reg)),
        BitwiseOp::Not(reg, idx) => with_num(m, reg, idx, stored(not_opt(num(m, reg, idx)), reg)),
        BitwiseOp::Shl(r1, sh, RegAR::A(a), sd) => {
            let v = num(m, RegAR::A(a), sd).unwrap();
            let n = RegsModel { st0: msb_set(v), ..m };
            with_num(n, RegAR::A(a), sd, stored(shifted(v, num(m, RegAR::A(r1.spec_reg()), sh), |x: NumberModel, e: nat| spec_shl(x, e)), RegAR::A(a)))
        },
        BitwiseOp::Shl(r1, sh, RegAR::R(r), sd) => {
            let e = shift_of(num(m, RegAR::A(r1.spec_reg()), sh));
            r_in_place(m, r, sd, |v: NumberModel| msb_set(v), |v: NumberModel| spec_shl(v, e))
        },
        BitwiseOp::ShrA(flag, r1, sh, reg, sd) => match (num(m, RegAR::A(r1.spec_reg()), sh), num(m, RegAR::A(reg), sd)) {
            (Some(s), Some(v)) => with_num(RegsModel { st0: lsb_set(v), ..m }, RegAR::A(reg), sd, stored(Some(spec_shr(signed_as(v, flag), le_val(s.bytes))), RegAR::A(reg))),
            _ => with_num(m, RegAR::A(reg), sd, None),
        },
        BitwiseOp::ShrR(r1, sh, r, sd) => {
            let e = shift_of(num(m, RegAR::A(r1.spec_reg()), sh));
            r_in_place(m, r, sd, |v: NumberModel| lsb_set(v), |v: NumberModel| wide_shr(v, e))
        },
        BitwiseOp::Scl(r1, sh, RegAR::A(a), sd) => {
            let v = num(m, RegAR::A(a), sd).unwrap();
            let n = RegsModel { st0: msb_set(v), ..m };
            with_num(n, RegAR::A(a), sd, stored(shifted(v, num(m, RegAR::A(r1.spec_reg()), sh), |x: NumberModel, e: nat| spec_scl(x, e)), RegAR::A(a)))
        },
        BitwiseOp::Scl(r1, sh, RegAR::R(r), sd) => {
            let bits = 8 * r.spec_bytes();
            let e = shift_of(num(m, RegAR::A(r1.spec_reg()), sh)) % (bits as nat);
            r_in_place(m, r, sd, |v: NumberModel| msb_set(v), |v: NumberModel| or_model(spec_shl(v, e), wide_shr(v, (bits - e) as nat)))
        },
        BitwiseOp::Scr(r1, sh, RegAR::A(a), sd) => {
            let v = num(m, RegAR::A(a), sd).unwrap();
            let n = RegsModel { st0: lsb_set(v), ..m };
            with_num(n, RegAR::A(a), sd, stored(shifted(v, num(m, RegAR::A(r1.spec_reg()), sh), |x: NumberModel, e: nat| spec_scr(x, e)), RegAR::A(a)))
        },
        BitwiseOp::Scr(r1, sh, RegAR::R(r), sd) => {
            let bits = 8 * r.spec_bytes();
            let e = shift_of(num(m, RegAR::A(r1.spec_reg()), sh)) % (bits as nat);
            r_in_place(m, r, sd, |v: NumberModel| lsb_set(v), |v: NumberModel| or_model(wide_shr(v, e), spec_shl(v, (bits - e) as nat)))
        },
        BitwiseOp::RevA(reg, idx) => with_num(m, RegAR::A(reg), idx, stored(rev_opt(num(m, RegAR::A(reg), idx)), RegAR::A(reg))),
        BitwiseOp::RevR(r, idx) => r_in_place(m, r, idx, |v: NumberModel| m.st0, |v: NumberModel| NumberModel { layout: v.layout, bytes: rev_bits(v.bytes) }),
    }
}

/// Whether a bitwise instruction runs without failing: masks take values of at most 1024 bits,
/// and shifts of arithmetic registers need the shifted register set, as its top or bottom bit
/// is read first.
pub open spec fn bitwise_op_runs(op: BitwiseOp, m: RegsModel) -> bool {
    match op {
        BitwiseOp::And(reg, ..) | BitwiseOp::Or(reg, ..) | BitwiseOp::Xor(reg, ..) => reg.spec_bytes() <= 128,
        BitwiseOp::Shl(_, _, RegAR::A(a), sd) | BitwiseOp::Scl(_, _, RegAR::A(a), sd) | BitwiseOp::Scr(_, _, RegAR::A(a), sd) => num(m, RegAR::A(a), sd) is Some,
        _ => true,
    }
}

/// Shift amount held by an `a8` or `a16` register, zero when unset.
fn shift_amount_of(regs: &CoreRegs, r1: RegA2, sh: Reg32) -> (r: usize)
    requires
        regs.wf(),
    ensures
        r == shift_of(num(regs@, RegAR::A(r1.spec_reg()), sh)),
{
    match regs.a_u16(r1.reg(), sh) {
        Some(v) => v as usize,
        None => 0,
    }
}

/// Bytewise OR of two values of one width.
fn or_numbers(a: &Number, b: &Number) -> (r: Number)
    requires
        a.wf(),
        b.wf(),
        a@.bytes.len() == b@.bytes.len(),
    ensures
        r.wf(),
        r@ == or_model(a@, b@),
{
    let x = a.to_vec();
    let y = b.to_vec();
    let mut out: Vec<u8> = Vec::new();
    let mut i: usize = 0;
    while i < x.len()
        invariant
            i <= x@.len(),
            x@ == a@.bytes,
            y@ == b@.bytes,
            x@.len() == y@.len(),
            out@ == or_model(a@, b@).bytes.subrange(0, i as int),
        decreases x@.len() - i,
    {
        out.push(x[i] | y[i]);
        i = i + 1;
        assert(out@ =~= or_model(a@, b@).bytes.subrange(0, i as int));
    }
    assert(or_model(a@, b@).bytes.subrange(0, x@.len() as int) =~= or_model(a@, b@).bytes);
    Number::from_parts(a.layout(), out)
}

impl InstructionSet for BitwiseOp {
    open spec fn src_set(&self) -> Set<Reg> {
        match *self {
            BitwiseOp::And(reg, i1, i2, _) | BitwiseOp::Or(reg, i1, i2, _) | BitwiseOp::Xor(reg, i1, i2, _) => set![Reg::spec_new(reg, i1), Reg::spec_new(reg, i2)],
            BitwiseOp::Not(reg, i) => set![Reg::spec_new(reg, i)],
            BitwiseOp::Shl(a2, sh, reg, i) | BitwiseOp::Scl(a2, sh, reg, i) | BitwiseOp::Scr(a2, sh, reg, i) => set![Reg::A(a2.spec_reg(), sh), Reg::spec_new(reg, i)],
            BitwiseOp::ShrA(_, a2, sh, reg, i) => set![Reg::A(a2.spec_reg(), sh), Reg::A(reg, i)],
            BitwiseOp::ShrR(a2, sh, reg, i) => set![Reg::A(a2.spec_reg(), sh), Reg::R(reg, i)],
            BitwiseOp::RevA(reg, i) => set![Reg::A(reg, i)],
            BitwiseOp::RevR(reg, i) => set![Reg::R(reg, i)],
        }
    }

    open spec fn dst_set(&self) -> Set<Reg> {
        match *self {
            BitwiseOp::And(reg, _, _, d) | BitwiseOp::Or(reg, _, _, d) | BitwiseOp::Xor(reg, _, _, d) => set![Reg::spec_new(reg, d)],
            BitwiseOp::Not(reg, i) => set![Reg::spec_new(reg, i)],
            BitwiseOp::Shl(_, _, reg, i) | BitwiseOp::Scl(_, _, reg, i) | BitwiseOp::Scr(_, _, reg, i) => set![Reg::spec_new(reg, i)],
            BitwiseOp::ShrA(_, _, _, reg, i) => set![Reg::A(reg, i)],
            BitwiseOp::ShrR(_, _, reg, i) => set![Reg::R(reg, i)],
            BitwiseOp::RevA(reg, i) => set![Reg::A(reg, i)],
            BitwiseOp::RevR(reg, i) => set![Reg::R(reg, i)],
        }
    }

    fn src_regs(&self) -> (r: Vec<Reg>) {
        match *self {
            BitwiseOp::And(reg, i1, i2, _) | BitwiseOp::Or(reg, i1, i2, _) | BitwiseOp::Xor(reg, i1, i2, _) => regs_of(vec![Reg::new(reg, i1), Reg::new(reg, i2)]),
            BitwiseOp::Not(reg, i) => regs_of(vec![Reg::new(reg, i)]),
            BitwiseOp::Shl(a2, sh, reg, i) | BitwiseOp::Scl(a2, sh, reg, i) | BitwiseOp::Scr(a2, sh, reg, i) => regs_of(vec![Reg::A(a2.reg(), sh), Reg::new(reg, i)]),
            BitwiseOp::ShrA(_, a2, sh, reg, i) => regs_of(vec![Reg::A(a2.reg(), sh), Reg::A(reg, i)]),
            BitwiseOp::ShrR(a2, sh, reg, i) => regs_of(vec![Reg::A(a2.reg(), sh), Reg::R(reg, i)]),
            BitwiseOp::RevA(reg, i) => regs_of(vec![Reg::A(reg, i)]),
            BitwiseOp::RevR(reg, i) => regs_of(vec![Reg::R(reg, i)]),
        }
    }

    fn dst_regs(&self) -> (r: Vec<Reg>) {
        match *self {
            BitwiseOp::And(reg, _, _, d) | BitwiseOp::Or(reg, _, _, d) | BitwiseOp::Xor(reg, _, _, d) => regs_of(vec![Reg::new(reg, d)]),
            BitwiseOp::Not(reg, i) => regs_of(vec![Reg::new(reg, i)]),
            BitwiseOp::Shl(_, _, reg, i) | BitwiseOp::Scl(_, _, reg, i) | BitwiseOp::Scr(_, _, reg, i) => regs_of(vec![Reg::new(reg, i)]),
            BitwiseOp::ShrA(_, _, _, reg, i) => regs_of(vec![Reg::A(reg, i)]),
            BitwiseOp::ShrR(_, _, reg, i) => regs_of(vec![Reg::R(reg, i)]),
            BitwiseOp::RevA(reg, i) => regs_of(vec![Reg::A(reg, i)]),
            BitwiseOp::RevR(reg, i) => regs_of(vec![Reg::R(reg, i)]),
        }
    }

    fn regs(&self) -> (r: Vec<Reg>) {
        merge_regs(self.src_regs(), self.dst_regs())
    }

    open spec fn runs(&self, m: RegsModel) -> bool {
        bitwise_op_runs(*self, m)
    }

    fn runs_exec(&self, regs: &CoreRegs) -> (r: bool) {
        match *self {
            BitwiseOp::And(reg, ..) | BitwiseOp::Or(reg, ..) | BitwiseOp::Xor(reg, ..) => reg.bytes() <= 128,
            BitwiseOp::Shl(_, _, RegAR::A(a), sd) | BitwiseOp::Scl(_, _, RegAR::A(a), sd)
            | BitwiseOp::Scr(_, _, RegAR::A(a), sd) => regs.get_n(RegAR::A(a), sd).is_some(),
            _ => true,
        }
    }

    /// Executes the instruction (see [`bitwise_step`]).
    fn exec(&self, regs: &mut CoreRegs, _site: LibSite) -> (r: ExecStep)
        ensures
            final(regs).wf(),
            final(regs)@ == bitwise_step(*self, old(regs)@),
            r == ExecStep::Next,
    {
        match *self {
            BitwiseOp::And(reg, s1, s2, d) => mask_regs(regs, MaskOp::And, reg, s1, s2, d),
            BitwiseOp::Or(reg, s1, s2, d) => mask_regs(regs, MaskOp::Or, reg, s1, s2, d),
            BitwiseOp::Xor(reg, s1, s2, d) => mask_regs(regs, MaskOp::Xor, reg, s1, s2, d),
            BitwiseOp::Not(reg, idx) => {
                let v = match regs.get_n(reg, idx) {
                    Some(x) => Some(x.not()),
                    None => None,
                };
                regs.set_n(reg, idx, v);
            },
            BitwiseOp::RevA(reg, idx) => {
                let v = match regs.get_n(RegAR::A(reg), idx) {
                    Some(x) => Some(x.reverse_bits()),
                    None => None,
                };
                regs.set_n(RegAR::A(reg), idx, v);
            },
            BitwiseOp::RevR(r, idx) => {
                match regs.get_n(RegAR::R(r), idx) {
                    Some(x) => {
                        let ghost st = regs@.st0;
                        let y = x.reverse_bits();
                        regs.set_n(RegAR::R(r), idx, Some(y));
                        proof {
                            assert(RegsModel { st0: st, ..regs@ } == regs@);
                        }
                    },
                    None => {},
                }
            },
            _ => shift_regs(regs, *self),
        }
        ExecStep::Next
    }
}

/// Executes a mask instruction.
fn mask_regs(regs: &mut CoreRegs, op: MaskOp, reg: RegAR, s1: Reg32, s2: Reg32, d: Reg32)
    requires
        old(regs).wf(),
        reg.spec_bytes() <= 128,
    ensures
        final(regs).wf(),
        final(regs)@ == with_num(old(regs)@, reg, d, stored(both(
            num(old(regs)@, reg, s1),
            num(old(regs)@, reg, s2),
            |x: NumberModel, y: NumberModel| Some(mask_model(op, x, y)),
        ), reg)),
{
    let v = match regs.get_n2(reg, s1, reg, s2) {
        Some((x, y)) => Some(x.mask(y, op)),
        None => None,
    };
    regs.set_n(reg, d, v);
}

/// Executes a shift or rotation instruction.
fn shift_regs(regs: &mut CoreRegs, op: BitwiseOp)
    requires
        old(regs).wf(),
        bitwise_op_runs(op, old(regs)@),
        op is Shl || op is ShrA || op is ShrR || op is Scl || op is Scr,
    ensures
        final(regs).wf(),
        final(regs)@ == bitwise_step(op, old(regs)@),
{
    match op {
        BitwiseOp::Shl(r1, sh, RegAR::A(a), sd) => shl_a(regs, r1, sh, a, sd),
        BitwiseOp::Shl(r1, sh, RegAR::R(r), sd) => shl_r(regs, r1, sh, r, sd),
        BitwiseOp::ShrA(flag, r1, sh, reg, sd) => shr_a(regs, flag, r1, sh, reg, sd),
        BitwiseOp::ShrR(r1, sh, r, sd) => shr_r(regs, r1, sh, r, sd),
        BitwiseOp::Scl(r1, sh, RegAR::A(a), sd) => scl_a(regs, r1, sh, a, sd),
        BitwiseOp::Scr(r1, sh, RegAR::A(a), sd) => scr_a(regs, r1, sh, a, sd),
        BitwiseOp::Scl(r1, sh, RegAR::R(r), sd) => scl_r(regs, r1, sh, r, sd),
        BitwiseOp::Scr(r1, sh, RegAR::R(r), sd) => scr_r(regs, r1, sh, r, sd),
        _ => {},
    }
}

/// Executes `Shl` on an arithmetic register.
fn shl_a(regs: &mut CoreRegs, r1: RegA2, sh: Reg32, a: RegA, sd: Reg32)
    requires
        old(regs).wf(),
        bitwise_op_runs(BitwiseOp::Shl(r1, sh, RegAR::A(a), sd), old(regs)@),
    ensures
        final(regs).wf(),
        final(regs)@ == bitwise_step(BitwiseOp::Shl(r1, sh, RegAR::A(a), sd), old(regs)@),
{
        let v = regs.get_n(RegAR::A(a), sd).unwrap();
        let top = v.byte(v.len() - 1);
        regs.set_st0(top & 0x80 == 0x80);
        let res = match regs.a_u16(r1.reg(), sh) {
            Some(e) => Some(v.shift_left(e as u32)),
            None => None,
        };
        regs.set_n(RegAR::A(a), sd, res);
}

/// Executes `Shl` on a general-purpose register.
fn shl_r(regs: &mut CoreRegs, r1: RegA2, sh: Reg32, r: RegR, sd: Reg32)
    requires
        old(regs).wf(),
        bitwise_op_runs(BitwiseOp::Shl(r1, sh, RegAR::R(r), sd), old(regs)@),
    ensures
        final(regs).wf(),
        final(regs)@ == bitwise_step(BitwiseOp::Shl(r1, sh, RegAR::R(r), sd), old(regs)@),
{
        let e = shift_amount_of(regs, r1, sh);
        match regs.get_n(RegAR::R(r), sd) {
            Some(v) => {
                let top = v.byte(v.len() - 1);
                let bytes = shl_bytes(&v.to_vec(), e);
                let w = Number::from_parts(v.layout(), bytes);
                regs.set_st0(top & 0x80 == 0x80);
                regs.set_n(RegAR::R(r), sd, Some(w));
            },
            None => {},
        }
}

/// Executes `ShrA` on an arithmetic register.
fn shr_a(regs: &mut CoreRegs, flag: SignFlag, r1: RegA2, sh: Reg32, reg: RegA, sd: Reg32)
    requires
        old(regs).wf(),
        bitwise_op_runs(BitwiseOp::ShrA(flag, r1, sh, reg, sd), old(regs)@),
    ensures
        final(regs).wf(),
        final(regs)@ == bitwise_step(BitwiseOp::ShrA(flag, r1, sh, reg, sd), old(regs)@),
{
        match (regs.a_u16(r1.reg(), sh), regs.get_n(RegAR::A(reg), sd)) {
            (Some(e), Some(v)) => {
                let low = v.byte(0);
                regs.set_st0(low & 1 == 1);
                let x = match flag {
                    SignFlag::Signed => v.into_signed(),
                    SignFlag::Unsigned => v,
                };
                let w = x.shift_right(e as u32);
                regs.set_n(RegAR::A(reg), sd, Some(w));
            },
            _ => {
                regs.set_n(RegAR::A(reg), sd, None);
            },
        }
}

/// Executes `ShrR` on a general-purpose register.
fn shr_r(regs: &mut CoreRegs, r1: RegA2, sh: Reg32, r: RegR, sd: Reg32)
    requires
        old(regs).wf(),
        bitwise_op_runs(BitwiseOp::ShrR(r1, sh, r, sd), old(regs)@),
    ensures
        final(regs).wf(),
        final(regs)@ == bitwise_step(BitwiseOp::ShrR(r1, sh, r, sd), old(regs)@),
{
        let e = shift_amount_of(regs, r1, sh);
        match regs.get_n(RegAR::R(r), sd) {
            Some(v) => {
                let low = v.byte(0);
                let bytes = shr_bytes(&v.to_vec(), e);
                let w = Number::from_parts(v.layout(), bytes);
                regs.set_st0(low & 1 == 1);
                regs.set_n(RegAR::R(r), sd, Some(w));
            },
            None => {},
        }
}

/// Executes `Scl` on an arithmetic register.
fn scl_a(regs: &mut CoreRegs, r1: RegA2, sh: Reg32, a: RegA, sd: Reg32)
    requires
        old(regs).wf(),
        bitwise_op_runs(BitwiseOp::Scl(r1, sh, RegAR::A(a), sd), old(regs)@),
    ensures
        final(regs).wf(),
        final(regs)@ == bitwise_step(BitwiseOp::Scl(r1, sh, RegAR::A(a), sd), old(regs)@),
{
        let v = regs.get_n(RegAR::A(a), sd).unwrap();
        let top = v.byte(v.len() - 1);
        regs.set_st0(top & 0x80 == 0x80);
        let res = match regs.get_n(RegAR::A(r1.reg()), sh) {
            Some(s) => {
                proof {
                    crate::num::lemma_le_val_bound(s@.bytes);
                    crate::num::lemma_pow256_values();
                    crate::num::lemma_pow256_mono(s@.bytes.len(), 2);
                }
                Some(v.scl(s))
            },
            None => None,
        };
        regs.set_n(RegAR::A(a), sd, res);
}

/// Executes `Scr` on an arithmetic register.
fn scr_a(regs: &mut CoreRegs, r1: RegA2, sh: Reg32, a: RegA, sd: Reg32)
    requires
        old(regs).wf(),
        bitwise_op_runs(BitwiseOp::Scr(r1, sh, RegAR::A(a), sd), old(regs)@),
    ensures
        final(regs).wf(),
        final(regs)@ == bitwise_step(BitwiseOp::Scr(r1, sh, RegAR::A(a), sd), old(regs)@),
{
        let v = regs.get_n(RegAR::A(a), sd).unwrap();
        let low = v.byte(0);
        regs.set_st0(low & 1 == 1);
        let res = match regs.get_n(RegAR::A(r1.reg()), sh) {
            Some(s) => {
                proof {
                    crate::num::lemma_le_val_bound(s@.bytes);
                    crate::num::lemma_pow256_values();
                    crate::num::lemma_pow256_mono(s@.bytes.len(), 2);
                }
                Some(v.scr(s))
            },
            None => None,
        };
        regs.set_n(RegAR::A(a), sd, res);
}

/// Executes `Scl` on a general-purpose register.
fn scl_r(regs: &mut CoreRegs, r1: RegA2, sh: Reg32, r: RegR, sd: Reg32)
    requires
        old(regs).wf(),
        bitwise_op_runs(BitwiseOp::Scl(r1, sh, RegAR::R(r), sd), old(regs)@),
    ensures
        final(regs).wf(),
        final(regs)@ == bitwise_step(BitwiseOp::Scl(r1, sh, RegAR::R(r), sd), old(regs)@),
{
        let bits = r.bytes() as usize * 8;
        let e = shift_amount_of(regs, r1, sh) % bits;
        match regs.get_n(RegAR::R(r), sd) {
            Some(v) => {
                let top = v.byte(v.len() - 1);
                let hi = Number::from_parts(v.layout(), shl_bytes(&v.to_vec(), e));
                let lo = Number::from_parts(v.layout(), shr_bytes(&v.to_vec(), bits - e));
                let w = or_numbers(&hi, &lo);
                regs.set_st0(top & 0x80 == 0x80);
                regs.set_n(RegAR::R(r), sd, Some(w));
            },
            None => {},
        }
}

/// Executes `Scr` on a general-purpose register.
fn scr_r(regs: &mut CoreRegs, r1: RegA2, sh: Reg32, r: RegR, sd: Reg32)
    requires
        old(regs).wf(),
        bitwise_op_runs(BitwiseOp::Scr(r1, sh, RegAR::R(r), sd), old(regs)@),
    ensures
        final(regs).wf(),
        final(regs)@ == bitwise_step(BitwiseOp::Scr(r1, sh, RegAR::R(r), sd), old(regs)@),
{
        let bits = r.bytes() as usize * 8;
        let e = shift_amount_of(regs, r1, sh) % bits;
        match regs.get_n(RegAR::R(r), sd) {
            Some(v) => {
                let low = v.byte(0);
                let lo = Number::from_parts(v.layout(), shr_bytes(&v.to_vec(), e));
                let hi = Number::from_parts(v.layout(), shl_bytes(&v.to_vec(), bits - e));
                let w = or_numbers(&lo, &hi);
                regs.set_st0(low & 1 == 1);
                regs.set_n(RegAR::R(r), sd, Some(w));
            },
            None => {},
        }
}
} // verus!
