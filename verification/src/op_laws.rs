//! Laws on what single instructions do: control flow jumps, register comparison, the order of
//! numbers, stepping a register, and the operation codes of arithmetic.

use vstd::prelude::*;

use crate::alu64::{lemma_idx_position, IdxA};
use crate::cmp::{nat_order, number_order};
use crate::ctrl::{ctrl_step, reg_step, CtrlInstr, ExecStep, MaybeU128, RegInstr};
use crate::cursor::{write_u8_step, CursorModel};
use crate::exec_alu::{arith_result, step_model};
use crate::fields::{fields_ok, fields_room, fields_step, Field};
use crate::isa::ArithmeticOp;
use crate::layout::{IntLayout, Layout};
use crate::num::{le_bytes, pow256};
use crate::reg::{Reg32, RegAR};
use crate::regs::{num, RegsModel};
use crate::microcode::{core_a, CoreModel, RegA, Site, SiteId};
use crate::num::{le_val, sle_val};
use crate::number::NumberModel;

verus! {

/// A relative jump taken at site offset `o` by `shift` lands on `o + shift` when that is a
/// position, and halts with a failure when it is not. `sh` always jumps; `sh.ne` jumps when
/// the test register is set and goes on otherwise; `sh.fail` jumps when the check register
/// records a failure and goes on otherwise. The core is left as it was.
pub proof fn law_relative_jumps<Id: SiteId>(shift: i8, m: CoreModel<Id>, current: Site<Id>, cap: nat)
    ensures
        ({
            let target = current.offset + shift;
            let jump = if 0 <= target <= u16::MAX {
                ExecStep::<Site<Id>>::Jump(target as u16)
            } else {
                ExecStep::FailHalt
            };
            let failed = m.ck == crate::alu64::Status::Fail;
            &&& ctrl_step(CtrlInstr::Sh { shift }, m, current, cap) == (m, jump)
            &&& ctrl_step(CtrlInstr::ShNe { shift }, m, current, cap) == (m, if m.co { jump } else { ExecStep::Next })
            &&& ctrl_step(CtrlInstr::ShFail { shift }, m, current, cap) == (m, if failed { jump } else { ExecStep::Next })
        }),
{
}

/// An absolute jump lands on its position: `jmp` always, `jif.ne` when the test register is
/// set, `jif.fail` when the check register records a failure; otherwise the program goes on.
/// The core is left as it was.
pub proof fn law_absolute_jumps<Id: SiteId>(pos: u16, m: CoreModel<Id>, current: Site<Id>, cap: nat)
    ensures
        ({
            let failed = m.ck == crate::alu64::Status::Fail;
            &&& ctrl_step(CtrlInstr::Jmp { pos }, m, current, cap) == (m, ExecStep::<Site<Id>>::Jump(pos))
            &&& ctrl_step(CtrlInstr::JiNe { pos }, m, current, cap) == (m, if m.co { ExecStep::<Site<Id>>::Jump(pos) } else { ExecStep::Next })
            &&& ctrl_step(CtrlInstr::JiFail { pos }, m, current, cap) == (m, if failed { ExecStep::<Site<Id>>::Jump(pos) } else { ExecStep::Next })
        }),
{
}

/// Comparing two registers sets the test register to whether they hold equal values (both
/// holding none counts as equal), and changes nothing else; the program goes on.
pub proof fn law_eq_compares_values<Id: SiteId>(m: CoreModel<Id>, src1: RegA, src2: RegA)
    ensures
        reg_step(RegInstr::Eq { src1, src2 }, m).1 == ExecStep::<Site<Id>>::Next,
        reg_step(RegInstr::Eq { src1, src2 }, m).0 == (CoreModel {
            co: core_a(m, src1) == core_a(m, src2),
            ..m
        }),
        core_a(m, src1) is Some && core_a(m, src2) is Some ==> (reg_step(
            RegInstr::Eq { src1, src2 },
            m,
        ).0.co <==> core_a(m, src1)->0 == core_a(m, src2)->0),
{
}

/// Putting `v` into one 128-bit register and `w` into another, then comparing the two, sets
/// the test register exactly when `v == w`.
pub proof fn law_eq_after_puts<Id: SiteId>(m: CoreModel<Id>, i: IdxA, j: IdxA, v: u128, w: u128)
    requires
        m.a128.len() == 32,
        i != j,
    ensures
        ({
            let m1 = reg_step(RegInstr::Put { dst: RegA::A128(i), val: MaybeU128::U128(v) }, m).0;
            let m2 = reg_step(RegInstr::Put { dst: RegA::A128(j), val: MaybeU128::U128(w) }, m1).0;
            reg_step(RegInstr::Eq { src1: RegA::A128(i), src2: RegA::A128(j) }, m2).0.co == (v == w)
        }),
{
    lemma_idx_position(i);
    lemma_idx_position(j);
    assert(i.spec_pos() != j.spec_pos());
}

/// Numbers of an unsigned integer layout are ordered as their values.
pub proof fn law_unsigned_order(a: NumberModel, b: NumberModel)
    requires
        a.layout == b.layout,
        a.layout matches Layout::Integer(l) && !l.signed,
    ensures
        number_order(a, b) == nat_order(le_val(a.bytes), le_val(b.bytes)),
{
}

/// Numbers of a signed integer layout are ordered as their two's complement values: a negative
/// number is below every non-negative one.
pub proof fn law_signed_order(a: NumberModel, b: NumberModel)
    requires
        a.layout == b.layout,
        a.layout matches Layout::Integer(l) && l.signed,
        a.bytes.len() == b.bytes.len(),
        a.bytes.len() >= 1,
    ensures
        number_order(a, b) == core::cmp::Ordering::Less <==> sle_val(a.bytes) < sle_val(b.bytes),
        number_order(a, b) == core::cmp::Ordering::Greater <==> sle_val(a.bytes) > sle_val(b.bytes),
        number_order(a, b) == core::cmp::Ordering::Equal <==> sle_val(a.bytes) == sle_val(b.bytes),
{
    let x = a.bytes.last();
    let y = b.bytes.last();
    assert((x & 0x80u8 != 0) == (x >= 0x80u8)) by (bit_vector);
    assert((y & 0x80u8 != 0) == (y >= 0x80u8)) by (bit_vector);
    crate::num::lemma_le_val_bound(a.bytes);
    crate::num::lemma_le_val_bound(b.bytes);
}

/// The last step of unsigned addition and subtraction without wrapping: a result exactly when
/// the value fits `n` bytes, holding that value.
proof fn lemma_unsigned_finish(v: int, n: u16)
    requires
        1 <= n <= 128,
    ensures
        crate::arithm::int_finish(crate::arithm::u1024_outcome(v), false, n, false) is Some
            <==> 0 <= v < pow256(n as nat),
        crate::arithm::int_finish(crate::arithm::u1024_outcome(v), false, n, false) matches Some(r)
            ==> le_val(r.bytes) == v && r.bytes.len() == n && r.layout == Layout::Integer(
            IntLayout { signed: false, bytes: n },
        ),
{
    crate::num::lemma_pow256_mono(n as nat, 128);
    if 0 <= v < pow256(128) {
        let w = le_bytes(v, 128);
        crate::number::lemma_le_val_le_bytes(v, 128);
        let m = crate::arithm::wide_model(w, false);
        let to = Layout::Integer(IntLayout { signed: false, bytes: n });
        crate::num::lemma_le_bytes_len(v, 128);
        assert(crate::number::model_wf(m));
        crate::number::lemma_reshape_keeps_range(m, to);
        if v < pow256(n as nat) {
            crate::number::lemma_le_val_le_bytes(v, n as nat);
            crate::num::lemma_le_bytes_len(v, n as nat);
        }
    }
}

/// Stepping an arithmetic register holding `x` by `step` gives the value `x + step` in the same
/// layout: a negative step counts down, a positive one up. There is a result exactly when
/// `x + step` lies in the register's range.
pub proof fn law_step_moves_value(m: RegsModel, reg: crate::reg::RegA, idx: Reg32, step: i8, x: NumberModel)
    requires
        num(m, RegAR::A(reg), idx) == Some(x),
        x.layout matches Layout::Integer(l) && !l.signed && 1 <= l.bytes <= 128,
        x.bytes.len() == x.layout.spec_bytes(),
        step != -128,
    ensures
        ({
            let r = arith_result(ArithmeticOp::Stp(reg, idx, step), m);
            let target = le_val(x.bytes) + step;
            &&& r.0 == reg
            &&& r.1 == idx
            &&& (r.2 is Some <==> 0 <= target < pow256(x.bytes.len()))
            &&& r.2 is Some ==> le_val(r.2->0.bytes) == target && r.2->0.layout == x.layout
                && r.2->0.bytes.len() == x.bytes.len()
        }),
{
    let n = x.layout.spec_bytes();
    let k: int = if step < 0 { -step } else { step as int };
    crate::num::lemma_pow256_mono(1, n as nat);
    crate::num::lemma_pow256_values();
    crate::number::lemma_le_val_le_bytes(k, n as nat);
    assert(le_val(step_model(x.layout, k).bytes) == k);
    if step < 0 {
        lemma_unsigned_finish(le_val(x.bytes) - k, n);
    } else {
        assert(k == step as int);
        lemma_unsigned_finish(le_val(x.bytes) + k, n);
    }
}

/// A step up by `k` then a step down by `k` gives back the register's value: whenever the step
/// up has a result and a register holding it is stepped down.
pub proof fn law_step_up_then_down(
    m: RegsModel,
    m1: RegsModel,
    reg: crate::reg::RegA,
    idx: Reg32,
    k: i8,
    x: NumberModel,
)
    requires
        num(m, RegAR::A(reg), idx) == Some(x),
        x.layout matches Layout::Integer(l) && !l.signed && 1 <= l.bytes <= 128,
        x.bytes.len() == x.layout.spec_bytes(),
        0 <= k,
        arith_result(ArithmeticOp::Stp(reg, idx, k), m).2 is Some,
        num(m1, RegAR::A(reg), idx) == arith_result(ArithmeticOp::Stp(reg, idx, k), m).2,
    ensures
        arith_result(ArithmeticOp::Stp(reg, idx, (-k) as i8), m1).2 is Some,
        le_val(arith_result(ArithmeticOp::Stp(reg, idx, (-k) as i8), m1).2->0.bytes) == le_val(x.bytes),
{
    law_step_moves_value(m, reg, idx, k, x);
    let y = arith_result(ArithmeticOp::Stp(reg, idx, k), m).2->0;
    law_step_moves_value(m1, reg, idx, (-k) as i8, y);
}

/// Writing fields leaves the bytes before the cursor as they were.
proof fn lemma_fields_keep_front(m: CursorModel, fs: Seq<Field>)
    requires
        !m.eof,
        m.bit_pos == 0,
        fields_ok(fs),
        m.byte_pos + fields_room(fs) <= m.bytes.len(),
        m.bytes.len() <= u16::MAX,
    ensures
        forall|i: int| 0 <= i < m.byte_pos ==> fields_step(m, fs).0.bytes[i] == m.bytes[i],
    decreases fs.len(),
{
    if fs.len() > 0 {
        let p = fs.drop_last();
        crate::fields::lemma_fields_write(m, fs);
        assert(fields_ok(p));
        assert(fields_room(p) <= fields_room(fs)) by {
            assert(crate::fields::fields_bits(p) <= crate::fields::fields_bits(fs));
        }
        lemma_fields_keep_front(m, p);
        crate::fields::lemma_fields_write(m, p);
    }
}

/// Each arithmetic instruction is written starting with its own operation code: `neg`
/// `0b00_100_000`, `stp` `0b00_100_001`, `add` `0b00_100_010`, `sub` `0b00_100_011`, `mul`
/// `0b00_100_100`, `div` `0b00_100_101`, `rem` `0b00_100_110`, `abs` `0b00_100_111`.
pub proof fn law_arith_code_written(op: crate::op_codes::ArithmeticOp, m: CursorModel)
    requires
        !m.eof,
        m.bit_pos == 0,
        m.byte_pos + crate::program::instr_room(crate::program::Instr::Arithmetic(op)) <= m.bytes.len(),
        m.bytes.len() <= u16::MAX,
    ensures
        crate::op_codes::arith_write_step(op, m).1 is Ok,
        ({
            let b = crate::op_codes::arith_write_step(op, m).0.bytes[m.byte_pos as int];
            &&& op is Neg ==> b == 0b00_100_000
            &&& op is Stp ==> b == 0b00_100_001
            &&& op is Add ==> b == 0b00_100_010
            &&& op is Sub ==> b == 0b00_100_011
            &&& op is Mul ==> b == 0b00_100_100
            &&& op is Div ==> b == 0b00_100_101
            &&& op is Rem ==> b == 0b00_100_110
            &&& op is Abs ==> b == 0b00_100_111
        }),
{
    crate::program::lemma_arith_fields(op);
    let code = crate::op_codes::arith_code(op);
    let fs = crate::op_codes::arith_fields(op);
    let m1 = write_u8_step(m, code).0;
    assert(m1.bytes[m.byte_pos as int] == code);
    assert(m1.byte_pos == m.byte_pos + 1 && m1.bit_pos == 0 && !m1.eof);
    lemma_fields_keep_front(m1, fs);
    crate::fields::lemma_fields_write(m1, fs);
}

/// A read arithmetic instruction is the one its operation code names: `0b00_100_000` is `neg`,
/// `0b00_100_001` `stp`, `0b00_100_010` `add`, `0b00_100_011` `sub`, `0b00_100_100` `mul`,
/// `0b00_100_101` `div`, `0b00_100_110` `rem` and `0b00_100_111` `abs`.
pub proof fn law_arith_code_read(m: CursorModel)
    ensures
        crate::op_codes::arith_read_step(m).1 is Ok ==> ({
            let op = crate::op_codes::arith_read_step(m).1->Ok_0;
            let b = m.bytes[m.byte_pos as int];
            &&& b == 0b00_100_000 ==> op is Neg
            &&& b == 0b00_100_001 ==> op is Stp
            &&& b == 0b00_100_010 ==> op is Add
            &&& b == 0b00_100_011 ==> op is Sub
            &&& b == 0b00_100_100 ==> op is Mul
            &&& b == 0b00_100_101 ==> op is Div
            &&& b == 0b00_100_110 ==> op is Rem
            &&& b == 0b00_100_111 ==> op is Abs
        }),
{
}

/// Adding, subtracting or multiplying arithmetic registers as unsigned values without wrapping
/// gives the sum `x + y`, the difference `x - y` or the product `x * y` of the first register
/// `x` and the second `y`, stored in the second; there is a result exactly when it lies in the
/// register's range.
pub proof fn law_unsigned_arith_values(
    m: RegsModel,
    reg: crate::reg::RegA,
    src: Reg32,
    dst: Reg32,
    x: NumberModel,
    y: NumberModel,
)
    requires
        num(m, RegAR::A(reg), src) == Some(x),
        num(m, RegAR::A(reg), dst) == Some(y),
        x.layout matches Layout::Integer(l) && !l.signed && 1 <= l.bytes <= 128,
        x.bytes.len() == x.layout.spec_bytes(),
    ensures
        ({
            let f = crate::flags::IntFlags { signed: false, wrap: false };
            let n = pow256(x.layout.spec_bytes() as nat);
            let a = le_val(x.bytes) as int;
            let b = le_val(y.bytes) as int;
            let add = arith_result(ArithmeticOp::AddA(f, reg, src, dst), m);
            let sub = arith_result(ArithmeticOp::SubA(f, reg, src, dst), m);
            let mul = arith_result(ArithmeticOp::MulA(f, reg, src, dst), m);
            &&& add.0 == reg && add.1 == dst && sub.0 == reg && sub.1 == dst && mul.0 == reg
                && mul.1 == dst
            &&& (add.2 is Some <==> a + b < n)
            &&& add.2 is Some ==> le_val(add.2->0.bytes) == a + b && add.2->0.layout == x.layout
            &&& (sub.2 is Some <==> a >= b)
            &&& sub.2 is Some ==> le_val(sub.2->0.bytes) == a - b && sub.2->0.layout == x.layout
            &&& (mul.2 is Some <==> a * b < n)
            &&& mul.2 is Some ==> le_val(mul.2->0.bytes) == a * b && mul.2->0.layout == x.layout
        }),
{
    let k = x.layout.spec_bytes();
    let a = le_val(x.bytes) as int;
    let b = le_val(y.bytes) as int;
    crate::num::lemma_le_val_bound(x.bytes);
    lemma_unsigned_finish(a + b, k);
    lemma_unsigned_finish(a - b, k);
    assert(a * b >= 0) by (nonlinear_arith)
        requires
            a >= 0,
            b >= 0,
    ;
    lemma_unsigned_finish(a * b, k);
}

/// What register instructions do to a core with its register blocks in place: `put` stores the
/// value cut to the register and tells in the test register whether it held one; `put.if`
/// stores it only into an unset register, clearing the test register; `put` of no
/// value records a failure; `clr` clears the register, telling whether it held one; `test`
/// tells whether a register holds a value; `cpy` copies a register into another, telling
/// whether the destination held one; `swp` of two registers holding values exchanges them. No
/// other register changes, and the program goes on (`put` of no value stops it when the core
/// halts on failures).
pub proof fn law_register_instructions<Id: SiteId>(m: CoreModel<Id>, dst: RegA, src: RegA, v: u128, other: RegA)
    requires
        m.a8.len() == 32,
        m.a16.len() == 32,
        m.a32.len() == 32,
        m.a64.len() == 32,
        m.a128.len() == 32,
    ensures
        ({
            let put = reg_step(RegInstr::Put { dst, val: MaybeU128::U128(v) }, m);
            &&& core_a(put.0, dst) == Some(crate::microcode::fit_a(dst, v))
            &&& put.0.co == core_a(m, dst) is Some
            &&& other != dst ==> core_a(put.0, other) == core_a(m, other)
            &&& put.1 == ExecStep::<Site<Id>>::Next
        }),
        ({
            let nodata = reg_step(RegInstr::Put { dst, val: MaybeU128::NoData }, m);
            &&& nodata.0 == (CoreModel { ck: crate::alu64::Status::Fail, cf: (m.cf + 1) as u64, ..m })
            &&& nodata.1 == if m.ch { ExecStep::<Site<Id>>::Stop } else { ExecStep::Next }
        }),
        ({
            let clr = reg_step(RegInstr::Clr { dst }, m);
            &&& core_a(clr.0, dst) is None
            &&& clr.0.co == core_a(m, dst) is Some
            &&& other != dst ==> core_a(clr.0, other) == core_a(m, other)
            &&& clr.1 == ExecStep::<Site<Id>>::Next
        }),
        ({
            let pif = reg_step(RegInstr::Pif { dst, val: MaybeU128::U128(v) }, m);
            &&& core_a(m, dst) is None ==> core_a(pif.0, dst) == Some(crate::microcode::fit_a(dst, v))
                && !pif.0.co && (other != dst ==> core_a(pif.0, other) == core_a(m, other))
            &&& core_a(m, dst) is Some ==> pif.0 == m
            &&& pif.1 == ExecStep::<Site<Id>>::Next
        }),
        reg_step(RegInstr::Test { src }, m) == (CoreModel { co: core_a(m, src) is Some, ..m }, ExecStep::<
            Site<Id>,
        >::Next),
        ({
            let cpy = reg_step(RegInstr::Cpy { dst, src }, m);
            &&& core_a(cpy.0, dst) == match core_a(m, src) {
                Some(w) => Some(crate::microcode::fit_a(dst, w)),
                None => None,
            }
            &&& cpy.0.co == core_a(m, dst) is Some
            &&& other != dst ==> core_a(cpy.0, other) == core_a(m, other)
        }),
        ({
            let swp = reg_step(RegInstr::Swp { src_dst1: dst, src_dst2: src }, m);
            (dst != src && core_a(m, dst) is Some && core_a(m, src) is Some) ==> {
                &&& core_a(swp.0, dst) == Some(crate::microcode::fit_a(dst, core_a(m, src)->0))
                &&& core_a(swp.0, src) == Some(crate::microcode::fit_a(src, core_a(m, dst)->0))
                &&& (other != dst && other != src) ==> core_a(swp.0, other) == core_a(m, other)
            }
        }),
{
    crate::microcode::law_core_write_read(m, dst, v, other);
    crate::microcode::law_core_write_read(m, dst, v, dst);
    match core_a(m, src) {
        Some(w) => crate::microcode::law_core_write_read(m, dst, w, other),
        None => {},
    }
    if dst != src && core_a(m, dst) is Some && core_a(m, src) is Some {
        let a = core_a(m, dst)->0;
        let b = core_a(m, src)->0;
        let m1 = crate::microcode::core_put_a(m, dst, None);
        crate::microcode::law_core_write_read(m, dst, a, src);
        crate::microcode::law_core_write_read(m, dst, a, other);
        lemma_core_lengths(m, dst, None);
        crate::microcode::law_core_write_read(m1, src, a, dst);
        crate::microcode::law_core_write_read(m1, src, a, other);
        let m2 = crate::microcode::core_put_a(m1, src, Some(a));
        lemma_core_lengths(m1, src, Some(a));
        crate::microcode::law_core_write_read(m2, dst, b, src);
        crate::microcode::law_core_write_read(m2, dst, b, other);
    }
}

/// Writing a register keeps the register blocks in place.
proof fn lemma_core_lengths<Id: SiteId>(m: CoreModel<Id>, reg: RegA, v: Option<u128>)
    requires
        m.a8.len() == 32,
        m.a16.len() == 32,
        m.a32.len() == 32,
        m.a64.len() == 32,
        m.a128.len() == 32,
    ensures
        ({
            let w = crate::microcode::core_put_a(m, reg, v);
            w.a8.len() == 32 && w.a16.len() == 32 && w.a32.len() == 32 && w.a64.len() == 32
                && w.a128.len() == 32
        }),
{
    lemma_idx_position(reg.spec_idx());
}

/// A code byte written before aligned fields, with room for them, stays where it was written.
proof fn lemma_code_stays(m: CursorModel, code: u8, fs: Seq<Field>)
    requires
        !m.eof,
        m.bit_pos == 0,
        crate::program::aligned_fields(fs),
        m.byte_pos + 1 + crate::fields::fields_bits(fs) / 8 <= m.bytes.len(),
        m.bytes.len() <= u16::MAX,
    ensures
        crate::op_codes::code_then_fields(m, code, fs).1 is Ok,
        crate::op_codes::code_then_fields(m, code, fs).0.bytes[m.byte_pos as int] == code,
{
    let m1 = write_u8_step(m, code).0;
    assert(m1.bytes[m.byte_pos as int] == code);
    assert(m1.byte_pos == m.byte_pos + 1 && m1.bit_pos == 0 && !m1.eof);
    assert(fields_room(fs) == crate::fields::fields_bits(fs) / 8);
    lemma_fields_keep_front(m1, fs);
    crate::fields::lemma_fields_write(m1, fs);
}

/// Each move instruction is written starting with its own operation code: `swpa` `0b00_010_000`, `swpr` `0b00_010_001`, `swpar` `0b00_010_010`, `amov` `0b00_010_011`, `mova` `0b00_010_100`, `movr` `0b00_010_101`, `movar` `0b00_010_110`, `movra` `0b00_010_111`.
pub proof fn law_move_code_written(op: crate::op_codes::MoveOp, m: CursorModel)
    requires
        !m.eof,
        m.bit_pos == 0,
        m.byte_pos + crate::program::instr_room(crate::program::Instr::Move(op)) <= m.bytes.len(),
        m.bytes.len() <= u16::MAX,
    ensures
        crate::op_codes::move_write_step(op, m).1 is Ok,
        ({
            let b = crate::op_codes::move_write_step(op, m).0.bytes[m.byte_pos as int];
            &&& op is SwpA ==> b == 0b00_010_000
            &&& op is SwpR ==> b == 0b00_010_001
            &&& op is SwpAR ==> b == 0b00_010_010
            &&& op is AMov ==> b == 0b00_010_011
            &&& op is MovA ==> b == 0b00_010_100
            &&& op is MovR ==> b == 0b00_010_101
            &&& op is MovAR ==> b == 0b00_010_110
            &&& op is MovRA ==> b == 0b00_010_111
        }),
{
    crate::program::lemma_move_fields(op);
    lemma_code_stays(m, crate::op_codes::move_code(op), crate::op_codes::move_fields(op));
}

/// A read move instruction is the one its operation code names (see [`law_move_code_written`]).
pub proof fn law_move_code_read(m: CursorModel)
    ensures
        crate::op_codes::move_read_step(m).1 is Ok ==> ({
            let op = crate::op_codes::move_read_step(m).1->Ok_0;
            let b = m.bytes[m.byte_pos as int];
            &&& b == 0b00_010_000 ==> op is SwpA
            &&& b == 0b00_010_001 ==> op is SwpR
            &&& b == 0b00_010_010 ==> op is SwpAR
            &&& b == 0b00_010_011 ==> op is AMov
            &&& b == 0b00_010_100 ==> op is MovA
            &&& b == 0b00_010_101 ==> op is MovR
            &&& b == 0b00_010_110 ==> op is MovAR
            &&& b == 0b00_010_111 ==> op is MovRA
        }),
{
}

/// Each bitwise instruction is written starting with its own operation code: `and` `0b00_101_000`, `or` `0b00_101_001`, `xor` `0b00_101_010`, `not` `0b00_101_011`, `shl` `0b00_101_100`, `shr` `0b00_101_101`, `scl` `0b00_101_110`, `scr` `0b00_101_111`.
pub proof fn law_bitwise_code_written(op: crate::op_codes::BitwiseOp, m: CursorModel)
    requires
        !m.eof,
        m.bit_pos == 0,
        m.byte_pos + crate::program::instr_room(crate::program::Instr::Bitwise(op)) <= m.bytes.len(),
        m.bytes.len() <= u16::MAX,
    ensures
        crate::op_codes::bitwise_write_step(op, m).1 is Ok,
        ({
            let b = crate::op_codes::bitwise_write_step(op, m).0.bytes[m.byte_pos as int];
            &&& op is And ==> b == 0b00_101_000
            &&& op is Or ==> b == 0b00_101_001
            &&& op is Xor ==> b == 0b00_101_010
            &&& op is Not ==> b == 0b00_101_011
            &&& op is Shl ==> b == 0b00_101_100
            &&& op is Shr ==> b == 0b00_101_101
            &&& op is Scl ==> b == 0b00_101_110
            &&& op is Scr ==> b == 0b00_101_111
        }),
{
    crate::program::lemma_bitwise_fields(op);
    lemma_code_stays(m, crate::op_codes::bitwise_code(op), crate::op_codes::bitwise_fields(op));
}

/// A read bitwise instruction is the one its operation code names (see [`law_bitwise_code_written`]).
pub proof fn law_bitwise_code_read(m: CursorModel)
    ensures
        crate::op_codes::bitwise_read_step(m).1 is Ok ==> ({
            let op = crate::op_codes::bitwise_read_step(m).1->Ok_0;
            let b = m.bytes[m.byte_pos as int];
            &&& b == 0b00_101_000 ==> op is And
            &&& b == 0b00_101_001 ==> op is Or
            &&& b == 0b00_101_010 ==> op is Xor
            &&& b == 0b00_101_011 ==> op is Not
            &&& b == 0b00_101_100 ==> op is Shl
            &&& b == 0b00_101_101 ==> op is Shr
            &&& b == 0b00_101_110 ==> op is Scl
            &&& b == 0b00_101_111 ==> op is Scr
        }),
{
}

/// Each digest instruction is written starting with its own operation code: `ripemd` `0b01_000_000`, `sha256` `0b01_000_001`, `sha512` `0b01_000_010`.
pub proof fn law_digest_code_written(op: crate::op_codes::DigestOp, m: CursorModel)
    requires
        !m.eof,
        m.bit_pos == 0,
        m.byte_pos + crate::program::instr_room(crate::program::Instr::Digest(op)) <= m.bytes.len(),
        m.bytes.len() <= u16::MAX,
    ensures
        crate::op_codes::digest_write_step(op, m).1 is Ok,
        ({
            let b = crate::op_codes::digest_write_step(op, m).0.bytes[m.byte_pos as int];
            &&& op is Ripemd ==> b == 0b01_000_000
            &&& op is Sha256 ==> b == 0b01_000_001
            &&& op is Sha512 ==> b == 0b01_000_010
        }),
{
    crate::program::lemma_digest_fields(op);
    lemma_code_stays(m, crate::op_codes::digest_code(op), crate::op_codes::digest_fields(op));
}

/// A read digest instruction is the one its operation code names (see [`law_digest_code_written`]).
pub proof fn law_digest_code_read(m: CursorModel)
    ensures
        crate::op_codes::digest_read_step(m).1 is Ok ==> ({
            let op = crate::op_codes::digest_read_step(m).1->Ok_0;
            let b = m.bytes[m.byte_pos as int];
            &&& b == 0b01_000_000 ==> op is Ripemd
            &&& b == 0b01_000_001 ==> op is Sha256
            &&& b == 0b01_000_010 ==> op is Sha512
        }),
{
}

/// Each compare instruction is written starting with its own operation code: `gta` `0b00_011_000`, `gtr` `0b00_011_000`, `lta` `0b00_011_001`, `ltr` `0b00_011_001`, `eqa` `0b00_011_010`, `eqr` `0b00_011_011`, `len` `0b00_011_100`, `cnt` `0b00_011_101`, `st2a` `0b00_011_110`, `a2st` `0b00_011_111`.
pub proof fn law_compare_code_written(op: crate::op_codes::CmpOp, m: CursorModel)
    requires
        !m.eof,
        m.bit_pos == 0,
        m.byte_pos + crate::program::instr_room(crate::program::Instr::Cmp(op)) <= m.bytes.len(),
        m.bytes.len() <= u16::MAX,
    ensures
        crate::op_codes::compare_write_step(op, m).1 is Ok,
        ({
            let b = crate::op_codes::compare_write_step(op, m).0.bytes[m.byte_pos as int];
            &&& op is GtA ==> b == 0b00_011_000
            &&& op is GtR ==> b == 0b00_011_000
            &&& op is LtA ==> b == 0b00_011_001
            &&& op is LtR ==> b == 0b00_011_001
            &&& op is EqA ==> b == 0b00_011_010
            &&& op is EqR ==> b == 0b00_011_011
            &&& op is Len ==> b == 0b00_011_100
            &&& op is Cnt ==> b == 0b00_011_101
            &&& op is St2A ==> b == 0b00_011_110
            &&& op is A2St ==> b == 0b00_011_111
        }),
{
    crate::program::lemma_compare_fields(op);
    lemma_code_stays(m, crate::op_codes::compare_code(op), crate::op_codes::compare_fields(op));
}

/// A read compare instruction is the one its operation code names (see [`law_compare_code_written`]).
pub proof fn law_compare_code_read(m: CursorModel)
    ensures
        crate::op_codes::compare_read_step(m).1 is Ok ==> ({
            let op = crate::op_codes::compare_read_step(m).1->Ok_0;
            let b = m.bytes[m.byte_pos as int];
            &&& b == 0b00_011_000 ==> op is GtA || op is GtR
            &&& b == 0b00_011_001 ==> op is LtA || op is LtR
            &&& b == 0b00_011_010 ==> op is EqA
            &&& b == 0b00_011_011 ==> op is EqR
            &&& b == 0b00_011_100 ==> op is Len
            &&& b == 0b00_011_101 ==> op is Cnt
            &&& b == 0b00_011_110 ==> op is St2A
            &&& b == 0b00_011_111 ==> op is A2St
        }),
{
}

/// Each byte string instruction other than `put` is written starting with its own operation
/// code: `mov` `0b00_110_001`, `swp` `0b00_110_010`, `fill` `0b00_110_011`, `lens` `0b00_110_100`, `count` `0b00_110_101`, `cmp` `0b00_110_110`, `comm` `0b00_110_111`, `find` `0b00_111_000`, `extr` `0b00_111_001`, `inj` `0b00_111_010`, `join` `0b00_111_011`, `split` `0b00_111_100`, `ins` `0b00_111_110`, `del` `0b00_111_101`, `transl` `0b00_111_111` (`ins` and `del` exchange their codes).
pub proof fn law_bytes_code_written(op: crate::op_codes::BytesOp, m: CursorModel)
    requires
        !(op is Put),
        !m.eof,
        m.bit_pos == 0,
        m.byte_pos + crate::program::instr_room(crate::program::Instr::Bytes(op)) <= m.bytes.len(),
        m.bytes.len() <= u16::MAX,
    ensures
        crate::op_codes::bytes_write_step(op, m).1 is Ok,
        ({
            let b = crate::op_codes::bytes_write_step(op, m).0.bytes[m.byte_pos as int];
            &&& op is Mov ==> b == 0b00_110_001
            &&& op is Swp ==> b == 0b00_110_010
            &&& op is Fill ==> b == 0b00_110_011
            &&& op is LenS ==> b == 0b00_110_100
            &&& op is Count ==> b == 0b00_110_101
            &&& op is Cmp ==> b == 0b00_110_110
            &&& op is Comm ==> b == 0b00_110_111
            &&& op is Find ==> b == 0b00_111_000
            &&& op is Extr ==> b == 0b00_111_001
            &&& op is Inj ==> b == 0b00_111_010
            &&& op is Join ==> b == 0b00_111_011
            &&& op is Split ==> b == 0b00_111_100
            &&& op is Ins ==> b == 0b00_111_110
            &&& op is Del ==> b == 0b00_111_101
            &&& op is Transl ==> b == 0b00_111_111
        }),
{
    crate::program::lemma_bytes_fields(op);
    lemma_code_stays(m, crate::op_codes::bytes_code(op), crate::op_codes::bytes_fields(op));
}

/// A read byte string instruction is the one its operation code names, `0b00_111_101` being
/// read as `ins` and `0b00_111_110` as `del` (see [`law_bytes_code_written`]); `0b00_110_000`
/// is a `put`.
pub proof fn law_bytes_code_read(m: CursorModel)
    ensures
        crate::op_codes::bytes_read_step(m).1 is Ok ==> ({
            let r = crate::op_codes::bytes_read_step(m).1->Ok_0;
            let b = m.bytes[m.byte_pos as int];
            &&& b == 0b00_110_000 ==> r is Put
            &&& b == 0b00_110_001 ==> (r is Op && r->Op_0 is Mov)
            &&& b == 0b00_110_010 ==> (r is Op && r->Op_0 is Swp)
            &&& b == 0b00_110_011 ==> (r is Op && r->Op_0 is Fill)
            &&& b == 0b00_110_100 ==> (r is Op && r->Op_0 is LenS)
            &&& b == 0b00_110_101 ==> (r is Op && r->Op_0 is Count)
            &&& b == 0b00_110_110 ==> (r is Op && r->Op_0 is Cmp)
            &&& b == 0b00_110_111 ==> (r is Op && r->Op_0 is Comm)
            &&& b == 0b00_111_000 ==> (r is Op && r->Op_0 is Find)
            &&& b == 0b00_111_001 ==> (r is Op && r->Op_0 is Extr)
            &&& b == 0b00_111_010 ==> (r is Op && r->Op_0 is Inj)
            &&& b == 0b00_111_011 ==> (r is Op && r->Op_0 is Join)
            &&& b == 0b00_111_100 ==> (r is Op && r->Op_0 is Split)
            &&& b == 0b00_111_110 ==> (r is Op && r->Op_0 is Del)
            &&& b == 0b00_111_101 ==> (r is Op && r->Op_0 is Ins)
            &&& b == 0b00_111_111 ==> (r is Op && r->Op_0 is Transl)
        }),
{
}

/// Each put instruction is written starting with its own operation code: `zeroa` `0b00_001_000`, `zeror` `0b00_001_001`, `cla` `0b00_001_010`, `clr` `0b00_001_011`, `puta` `0b00_001_100`, `putr` `0b00_001_101`, `putifa` `0b00_001_110`, `putifr` `0b00_001_111`.
pub proof fn law_put_code_written(op: crate::op_codes::PutOp, m: CursorModel)
    requires
        !m.eof,
        m.bit_pos == 0,
        m.byte_pos + crate::program::instr_room(crate::program::Instr::Put(op)) <= m.bytes.len(),
        m.bytes.len() <= u16::MAX,
    ensures
        crate::op_codes::put_write_step(op, m).1 is Ok,
        ({
            let b = crate::op_codes::put_write_step(op, m).0.bytes[m.byte_pos as int];
            &&& op is ZeroA ==> b == 0b00_001_000
            &&& op is ZeroR ==> b == 0b00_001_001
            &&& op is ClA ==> b == 0b00_001_010
            &&& op is ClR ==> b == 0b00_001_011
            &&& op is PutA ==> b == 0b00_001_100
            &&& op is PutR ==> b == 0b00_001_101
            &&& op is PutIfA ==> b == 0b00_001_110
            &&& op is PutIfR ==> b == 0b00_001_111
        }),
{
    crate::op_codes::lemma_put_fields(op);
    lemma_code_stays(m, crate::op_codes::put_code(op), crate::op_codes::put_fields(op));
}

/// A read put instruction is the one its operation code names (see [`law_put_code_written`]).
pub proof fn law_put_code_read(m: CursorModel)
    ensures
        crate::op_codes::put_read_step(m).1 is Ok ==> ({
            let p = crate::op_codes::put_read_step(m).1->Ok_0;
            let b = m.bytes[m.byte_pos as int];
            &&& b == 0b00_001_000 ==> p is ZeroA
            &&& b == 0b00_001_001 ==> p is ZeroR
            &&& b == 0b00_001_010 ==> p is ClA
            &&& b == 0b00_001_011 ==> p is ClR
            &&& b == 0b00_001_100 ==> p is PutA
            &&& b == 0b00_001_101 ==> p is PutR
            &&& b == 0b00_001_110 ==> p is PutIfA
            &&& b == 0b00_001_111 ==> p is PutIfR
        }),
{
}

/// A read control flow instruction is the one its operation code names: `0b00_000_000` `fail`, `0b00_000_001` `succ`, `0b00_000_010` `jmp`, `0b00_000_011` `jif`, `0b00_000_100` `routine`, `0b00_000_101` `call`, `0b00_000_110` `exec`, `0b00_000_111` `ret`.
pub proof fn law_control_code_read(m: CursorModel)
    ensures
        crate::bytecode::control_read_step(m).1 is Ok ==> ({
            let op = crate::bytecode::control_read_step(m).1->Ok_0;
            let b = m.bytes[m.byte_pos as int];
            &&& b == 0b00_000_000 ==> op is Fail
            &&& b == 0b00_000_001 ==> op is Succ
            &&& b == 0b00_000_010 ==> op is Jmp
            &&& b == 0b00_000_011 ==> op is Jif
            &&& b == 0b00_000_100 ==> op is Routine
            &&& b == 0b00_000_101 ==> op is Call
            &&& b == 0b00_000_110 ==> op is Exec
            &&& b == 0b00_000_111 ==> op is Ret
        }),
{
}

/// A read Secp256k1 instruction is the one its operation code names: `0b01_001_000` `gen`, `0b01_001_001` `mul`, `0b01_001_010` `add`, `0b01_001_011` `neg`.
pub proof fn law_secp_code_read(m: CursorModel)
    ensures
        crate::bytecode::secp_read_step(m).1 is Ok ==> ({
            let op = crate::bytecode::secp_read_step(m).1->Ok_0;
            let b = m.bytes[m.byte_pos as int];
            &&& b == 0b01_001_000 ==> op is Gen
            &&& b == 0b01_001_001 ==> op is Mul
            &&& b == 0b01_001_010 ==> op is Add
            &&& b == 0b01_001_011 ==> op is Neg
        }),
{
}

/// What the other control flow instructions do: `nop` nothing; `chk` stops the program when
/// the check register records a failure; `not.co` inverts the test register; `fail.ck` records
/// a failure, stopping the program when the core halts on failures; `rset.ck` clears the check
/// register, moving into the test register whether it recorded a failure; `exec` goes on at its
/// site; `fn` and `call` push the current site, when the call stack has room, and go on at
/// their target, failing and halting otherwise; `ret` pops the latest site and goes on there,
/// stopping the program when the stack is empty; `stop` stops it.
pub proof fn law_control_effects<Id: SiteId>(m: CoreModel<Id>, current: Site<Id>, cap: nat, pos: u16, site: Site<Id>)
    ensures
        ctrl_step(CtrlInstr::Nop, m, current, cap) == (m, ExecStep::<Site<Id>>::Next),
        ctrl_step(CtrlInstr::Chk, m, current, cap) == (m, if m.ck == crate::alu64::Status::Fail {
            ExecStep::<Site<Id>>::Stop
        } else {
            ExecStep::Next
        }),
        ctrl_step(CtrlInstr::NotCo, m, current, cap) == (CoreModel { co: !m.co, ..m }, ExecStep::<Site<Id>>::Next),
        ctrl_step(CtrlInstr::FailCk, m, current, cap).0.ck == crate::alu64::Status::Fail,
        ctrl_step(CtrlInstr::FailCk, m, current, cap).0.cf == m.cf + 1 || m.cf == u64::MAX,
        ctrl_step(CtrlInstr::FailCk, m, current, cap).1 == if m.ch { ExecStep::<Site<Id>>::Stop } else { ExecStep::Next },
        ctrl_step(CtrlInstr::RsetCk, m, current, cap) == (CoreModel {
            co: m.ck == crate::alu64::Status::Fail,
            ck: crate::alu64::Status::Success,
            ..m
        }, ExecStep::<Site<Id>>::Next),
        ctrl_step(CtrlInstr::Exec { site }, m, current, cap) == (m, ExecStep::Call(site)),
        m.cs.len() < cap ==> ctrl_step(CtrlInstr::Fn { pos }, m, current, cap) == (CoreModel {
            cs: m.cs.push(current),
            ..m
        }, ExecStep::<Site<Id>>::Jump(pos)),
        m.cs.len() < cap ==> ctrl_step(CtrlInstr::Call { site }, m, current, cap) == (CoreModel {
            cs: m.cs.push(current),
            ..m
        }, ExecStep::Call(site)),
        m.cs.len() >= cap ==> ctrl_step(CtrlInstr::Fn { pos }, m, current, cap) == (m, ExecStep::<Site<Id>>::FailHalt),
        m.cs.len() >= cap ==> ctrl_step(CtrlInstr::Call { site }, m, current, cap) == (m, ExecStep::<Site<Id>>::FailHalt),
        m.cs.len() > 0 ==> ctrl_step(CtrlInstr::Ret, m, current, cap) == (CoreModel {
            cs: m.cs.subrange(0, m.cs.len() - 1),
            ..m
        }, ExecStep::Call(m.cs[m.cs.len() - 1])),
        m.cs.len() == 0 ==> ctrl_step(CtrlInstr::Ret, m, current, cap) == (m, ExecStep::<Site<Id>>::Stop),
        ctrl_step(CtrlInstr::Stop, m, current, cap) == (m, ExecStep::<Site<Id>>::Stop),
{
    if m.cs.len() > 0 {
        assert(m.cs.drop_last() =~= m.cs.subrange(0, m.cs.len() - 1));
    }
}

/// An arithmetic register of a well-formed register file holds, if anything, an unsigned number
/// of the register's width, which storing back into it keeps as it is.
proof fn lemma_a_slot(m: RegsModel, reg: crate::reg::RegA, i: Reg32)
    requires
        crate::regs::regs_wf(m),
    ensures
        0 <= crate::regs::slot(RegAR::A(reg), i) < 256,
        num(m, RegAR::A(reg), i) matches Some(x) ==> x.layout == RegAR::A(reg).spec_layout()
            && crate::number::model_wf(x),
        crate::regs::stored(num(m, RegAR::A(reg), i), RegAR::A(reg)) == num(m, RegAR::A(reg), i),
{
    crate::laws::lemma_reg32_position(i);
    let k = crate::regs::slot(RegAR::A(reg), i);
    assert(k / 32 == reg.spec_block());
    assert(crate::regs::slot_ok(m.a[k], crate::regs::a_width(k / 32)));
}

/// `mov` moves a value from one arithmetic register to another of its block, leaving the first
/// unset; `dup` copies it, keeping the first; `swp` exchanges the two. No other register and not
/// the status change.
pub proof fn law_move_registers(m: RegsModel, reg: crate::reg::RegA, i1: Reg32, i2: Reg32, other: RegAR, oidx: Reg32)
    requires
        crate::regs::regs_wf(m),
        i1 != i2,
    ensures
        ({
            let r = RegAR::A(reg);
            let mov = crate::exec::move_step(crate::isa::MoveOp::MovA(reg, i1, i2), m);
            let dup = crate::exec::move_step(crate::isa::MoveOp::DupA(reg, i1, i2), m);
            let swp = crate::exec::move_step(crate::isa::MoveOp::SwpA(reg, i1, i2), m);
            let untouched = other != r || (oidx != i1 && oidx != i2);
            &&& num(mov, r, i2) == num(m, r, i1)
            &&& num(mov, r, i1) is None
            &&& num(dup, r, i2) == num(m, r, i1)
            &&& num(dup, r, i1) == num(m, r, i1)
            &&& num(swp, r, i2) == num(m, r, i1)
            &&& num(swp, r, i1) == num(m, r, i2)
            &&& untouched ==> num(mov, other, oidx) == num(m, other, oidx)
            &&& untouched ==> num(dup, other, oidx) == num(m, other, oidx)
            &&& untouched ==> num(swp, other, oidx) == num(m, other, oidx)
            &&& mov.st0 == m.st0 && dup.st0 == m.st0 && swp.st0 == m.st0
        }),
{
    let r = RegAR::A(reg);
    lemma_a_slot(m, reg, i1);
    lemma_a_slot(m, reg, i2);
    crate::laws::lemma_slot_distinct(r, i1, r, i2);
    if other != r || (oidx != i1 && oidx != i2) {
        if other is A {
            crate::laws::lemma_slot_distinct(other, oidx, r, i1);
            crate::laws::lemma_slot_distinct(other, oidx, r, i2);
        }
    }
}

/// Comparing two arithmetic registers that both hold values: `gt` and `lt` set the status to
/// whether the first is above, or below, the second, as unsigned values or as two's complement
/// values as the flag says; `eq` to whether they hold the same value. With a register unset,
/// `gt` and `lt` clear the status and `eq` sets it as its flag says. No register changes.
pub proof fn law_compare_registers(m: RegsModel, reg: crate::reg::RegA, i1: Reg32, i2: Reg32, ne: crate::isa::NoneEqFlag)
    requires
        crate::regs::regs_wf(m),
    ensures
        ({
            let r = RegAR::A(reg);
            let a = num(m, r, i1);
            let b = num(m, r, i2);
            let gtu = crate::exec::cmp_step(crate::isa::CmpOp::GtA(crate::isa::SignFlag::Unsigned, reg, i1, i2), m);
            let ltu = crate::exec::cmp_step(crate::isa::CmpOp::LtA(crate::isa::SignFlag::Unsigned, reg, i1, i2), m);
            let gts = crate::exec::cmp_step(crate::isa::CmpOp::GtA(crate::isa::SignFlag::Signed, reg, i1, i2), m);
            let lts = crate::exec::cmp_step(crate::isa::CmpOp::LtA(crate::isa::SignFlag::Signed, reg, i1, i2), m);
            let eq = crate::exec::cmp_step(crate::isa::CmpOp::EqA(ne, reg, i1, i2), m);
            &&& gtu == RegsModel { st0: gtu.st0, ..m }
            &&& ltu == RegsModel { st0: ltu.st0, ..m }
            &&& gts == RegsModel { st0: gts.st0, ..m }
            &&& lts == RegsModel { st0: lts.st0, ..m }
            &&& eq == RegsModel { st0: eq.st0, ..m }
            &&& (a is Some && b is Some) ==> {
                &&& gtu.st0 == (le_val(a->0.bytes) > le_val(b->0.bytes))
                &&& ltu.st0 == (le_val(a->0.bytes) < le_val(b->0.bytes))
                &&& gts.st0 == (sle_val(a->0.bytes) > sle_val(b->0.bytes))
                &&& lts.st0 == (sle_val(a->0.bytes) < sle_val(b->0.bytes))
                &&& eq.st0 == (a->0.bytes == b->0.bytes)
            }
            &&& !(a is Some && b is Some) ==> !gtu.st0 && !ltu.st0 && !gts.st0 && !lts.st0 && eq.st0
                == (ne == crate::isa::NoneEqFlag::Equal)
        }),
{
    let r = RegAR::A(reg);
    lemma_a_slot(m, reg, i1);
    lemma_a_slot(m, reg, i2);
    let a = num(m, r, i1);
    let b = num(m, r, i2);
    if a is Some && b is Some {
        let x = a->0;
        let y = b->0;
        law_unsigned_order(x, y);
        let xs = crate::exec::signed_as(x, crate::isa::SignFlag::Signed);
        let ys = crate::exec::signed_as(y, crate::isa::SignFlag::Signed);
        law_signed_order(xs, ys);
    }
}

/// `and`, `or` and `xor` of two arithmetic registers that hold values store in the destination
/// the bytewise conjunction, disjunction or exclusive disjunction of the two, as many bytes as
/// the registers have; with either register unset, the destination is left unset.
pub proof fn law_mask_registers(m: RegsModel, a: crate::reg::RegA, s1: Reg32, s2: Reg32, d: Reg32)
    requires
        crate::regs::regs_wf(m),
    ensures
        ({
            let r = RegAR::A(a);
            let x = num(m, r, s1);
            let y = num(m, r, s2);
            let w = a.spec_bytes() as int;
            let and = num(crate::exec_alu::bitwise_step(crate::isa::BitwiseOp::And(r, s1, s2, d), m), r, d);
            let or = num(crate::exec_alu::bitwise_step(crate::isa::BitwiseOp::Or(r, s1, s2, d), m), r, d);
            let xor = num(crate::exec_alu::bitwise_step(crate::isa::BitwiseOp::Xor(r, s1, s2, d), m), r, d);
            &&& (x is Some && y is Some) ==> {
                &&& and is Some && or is Some && xor is Some
                &&& and->0.bytes.len() == w && or->0.bytes.len() == w && xor->0.bytes.len() == w
                &&& forall|i: int| 0 <= i < w ==> #[trigger] and->0.bytes[i] == (x->0.bytes[i] & y->0.bytes[i])
                &&& forall|i: int| 0 <= i < w ==> #[trigger] or->0.bytes[i] == (x->0.bytes[i] | y->0.bytes[i])
                &&& forall|i: int| 0 <= i < w ==> #[trigger] xor->0.bytes[i] == (x->0.bytes[i] ^ y->0.bytes[i])
            }
            &&& !(x is Some && y is Some) ==> and is None && or is None && xor is None
        }),
{
    lemma_a_slot(m, a, s1);
    lemma_a_slot(m, a, s2);
    lemma_a_slot(m, a, d);
}

/// The last step of signed addition and subtraction without wrapping, for a value well inside
/// the 1024-bit range: a result exactly when the value fits `n` bytes as a two's complement
/// number, holding that value.
proof fn lemma_signed_finish(v: int, n: u16)
    requires
        1 <= n <= 127,
        -(pow256(127) as int) <= v < pow256(127) as int,
    ensures
        crate::arithm::int_finish(Some(le_bytes(v, 128)), true, n, false) is Some <==> -(pow256(
            n as nat,
        ) as int) / 2 <= v < (pow256(n as nat) as int) / 2,
        crate::arithm::int_finish(Some(le_bytes(v, 128)), true, n, false) matches Some(r) ==> sle_val(
            r.bytes,
        ) == v && r.bytes.len() == n && r.layout == Layout::Integer(IntLayout { signed: true, bytes: n }),
{
    assert(pow256(128) == 256 * pow256(127));
    crate::number::lemma_sle_val_le_bytes(v, 128);
    crate::num::lemma_le_bytes_len(v, 128);
    let m = crate::arithm::wide_model(le_bytes(v, 128), true);
    let to = Layout::Integer(IntLayout { signed: true, bytes: n });
    assert(crate::number::model_wf(m));
    crate::number::lemma_reshape_keeps_range(m, to);
    if -(pow256(n as nat) as int) / 2 <= v < (pow256(n as nat) as int) / 2 {
        crate::number::lemma_sle_val_le_bytes(v, n as nat);
        crate::num::lemma_le_bytes_len(v, n as nat);
    }
}

/// Integer addition, subtraction and multiplication of numbers without wrapping give the
/// exact sum, difference or product of their values: as unsigned values with unsigned flags,
/// there being a result exactly when it lies in `0 .. 256^n`; as two's complement values with
/// signed flags (addition and subtraction), there being a result exactly when it lies in the
/// signed range of `n` bytes.
pub proof fn law_number_arith_values(a: NumberModel, b: NumberModel)
    requires
        a.layout == b.layout,
        a.layout matches Layout::Integer(l) && 1 <= l.bytes <= 127,
        a.bytes.len() == a.layout.spec_bytes(),
        b.bytes.len() == a.layout.spec_bytes(),
    ensures
        ({
            let u = crate::flags::IntFlags { signed: false, wrap: false };
            let sg = crate::flags::IntFlags { signed: true, wrap: false };
            let p = pow256(a.bytes.len());
            let x = le_val(a.bytes) as int;
            let y = le_val(b.bytes) as int;
            let sx = sle_val(a.bytes);
            let sy = sle_val(b.bytes);
            let add = crate::arithm::spec_int_add(a, b, u);
            let sub = crate::arithm::spec_int_sub(a, b, u);
            let mul = crate::arithm::spec_int_mul(a, b, u);
            let sadd = crate::arithm::spec_int_add(a, b, sg);
            let ssub = crate::arithm::spec_int_sub(a, b, sg);
            &&& (add is Some <==> x + y < p)
            &&& add is Some ==> le_val(add->0.bytes) == x + y
            &&& (sub is Some <==> x >= y)
            &&& sub is Some ==> le_val(sub->0.bytes) == x - y
            &&& (mul is Some <==> x * y < p)
            &&& mul is Some ==> le_val(mul->0.bytes) == x * y
            &&& (sadd is Some <==> -(p as int) / 2 <= sx + sy < (p as int) / 2)
            &&& sadd is Some ==> sle_val(sadd->0.bytes) == sx + sy
            &&& (ssub is Some <==> -(p as int) / 2 <= sx - sy < (p as int) / 2)
            &&& ssub is Some ==> sle_val(ssub->0.bytes) == sx - sy
        }),
{
    let n = a.layout.spec_bytes();
    let x = le_val(a.bytes) as int;
    let y = le_val(b.bytes) as int;
    let sx = sle_val(a.bytes);
    let sy = sle_val(b.bytes);
    crate::num::lemma_le_val_bound(a.bytes);
    crate::num::lemma_le_val_bound(b.bytes);
    lemma_unsigned_finish(x + y, n);
    lemma_unsigned_finish(x - y, n);
    assert(x * y >= 0) by (nonlinear_arith)
        requires
            x >= 0,
            y >= 0,
    ;
    lemma_unsigned_finish(x * y, n);
    // signed
    crate::number::lemma_sle_val_range(a.bytes);
    crate::number::lemma_sle_val_range(b.bytes);
    crate::num::lemma_pow256_mono(n as nat, 127);
    assert(pow256(128) == 256 * pow256(127));
    let mn = crate::bigint::i1024_min();
    assert(sx != mn && sy != mn);
    assert(crate::bigint::i1024_wrapping_neg(sy) == -sy);
    let ws = le_bytes(sx + sy, 128);
    let wd = le_bytes(sx - sy, 128);
    crate::number::lemma_sle_val_le_bytes(sx + sy, 128);
    crate::number::lemma_sle_val_le_bytes(sx - sy, 128);
    assert(crate::bigint::i1024_add_outcome(sx, sy) == Some(ws));
    assert(crate::bigint::i1024_add_outcome(sx, -sy) == Some(wd));
    lemma_signed_finish(sx + sy, n);
    lemma_signed_finish(sx - sy, n);
}

/// `mov` of one string register to another leaves the first unset and the second holding what
/// the first held; `swp` exchanges them; `eq` sets the status to whether both hold the same
/// string or both are unset, changing no register. No other string register changes.
pub proof fn law_string_registers(m: RegsModel, r1: u8, r2: u8, other: u8)
    requires
        crate::regs::regs_wf(m),
        r1 != r2,
    ensures
        ({
            let mov = crate::exec_bytes::bytes_step(crate::isa::BytesOp::Mov(r1, r2), m);
            let swp = crate::exec_bytes::bytes_step(crate::isa::BytesOp::Swp(r1, r2), m);
            let eq = crate::exec_bytes::bytes_step(crate::isa::BytesOp::Eq(r1, r2), m);
            &&& mov.s[r2 as int] == m.s[r1 as int]
            &&& mov.s[r1 as int] is None
            &&& swp.s[r1 as int] == m.s[r2 as int]
            &&& swp.s[r2 as int] == m.s[r1 as int]
            &&& (other != r1 && other != r2) ==> mov.s[other as int] == m.s[other as int] && swp.s[
                other as int] == m.s[other as int]
            &&& mov.st0 == m.st0 && swp.st0 == m.st0
            &&& eq == RegsModel { st0: eq.st0, ..m }
            &&& eq.st0 == (m.s[r1 as int] == m.s[r2 as int])
        }),
{
}

} // verus!
