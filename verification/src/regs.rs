//! The register file of the machine: numeric registers, byte string registers, the status
//! flag, the cycle counter and the call stack.

use vstd::prelude::*;

use crate::bytestr::{ByteStr, ByteStrModel, STR_CAP};
use crate::layout::{IntLayout, Layout};
use crate::library::LibSite;
use crate::num::le_val;
use crate::number::{model_wf, opt_model, reshaped_model, Number, NumberModel};
use crate::reg::{RegA, RegAR, Reg32};

verus! {

/// Largest depth of the call stack.
pub const CALL_STACK_MAX: usize = 65535;

/// Abstract content of a [`CoreRegs`].
pub struct RegsModel {
    /// Arithmetic registers, 32 per block, blocks from 8 to 1024 bits.
    pub a: Seq<Option<NumberModel>>,
    /// General-purpose registers, 32 per block, blocks from 128 to 8192 bits.
    pub r: Seq<Option<NumberModel>>,
    /// Byte string registers.
    pub s: Seq<Option<ByteStrModel>>,
    /// Status flag: `false` once an operation failed.
    pub st0: bool,
    /// Number of jumps and calls made.
    pub cy0: u16,
    /// Return sites of the calls in progress, the latest last.
    pub cs: Seq<LibSite>,
}

/// Model of an optional byte string.
pub open spec fn opt_str(o: Option<ByteStr>) -> Option<ByteStrModel> {
    match o {
        Some(s) => Some(s@),
        None => None,
    }
}

/// Position of a numeric register within its register array.
pub open spec fn slot(reg: RegAR, idx: Reg32) -> int {
    match reg {
        RegAR::A(a) => a.spec_block() * 32 + idx.spec_to_usize(),
        RegAR::R(r) => r.spec_block() * 32 + idx.spec_to_usize(),
    }
}

/// Width in bytes of the registers of block `b` of the arithmetic array.
pub open spec fn a_width(b: int) -> u16 {
    if b == 0 {
        1
    } else if b == 1 {
        2
    } else if b == 2 {
        4
    } else if b == 3 {
        8
    } else if b == 4 {
        16
    } else if b == 5 {
        32
    } else if b == 6 {
        64
    } else {
        128
    }
}

/// Width in bytes of the registers of block `b` of the general-purpose array.
pub open spec fn r_width(b: int) -> u16 {
    if b == 0 {
        16
    } else if b == 1 {
        20
    } else if b == 2 {
        32
    } else if b == 3 {
        64
    } else if b == 4 {
        128
    } else if b == 5 {
        256
    } else if b == 6 {
        512
    } else {
        1024
    }
}

/// Whether a register slot holds nothing or a well-formed unsigned value of the given width.
pub open spec fn slot_ok(o: Option<NumberModel>, width: u16) -> bool {
    o matches Some(n) ==> model_wf(n) && n.layout == Layout::Integer(
        IntLayout { signed: false, bytes: width },
    )
}

/// Whether a register model is well formed.
pub open spec fn regs_wf(m: RegsModel) -> bool {
    &&& m.a.len() == 256
    &&& m.r.len() == 256
    &&& m.s.len() == 256
    &&& m.cs.len() <= CALL_STACK_MAX
    &&& forall|k: int| 0 <= k < 256 ==> #[trigger] slot_ok(m.a[k], a_width(k / 32))
    &&& forall|k: int| 0 <= k < 256 ==> #[trigger] slot_ok(m.r[k], r_width(k / 32))
    &&& forall|k: int|
        0 <= k < 256 ==> (#[trigger] m.s[k] matches Some(b) ==> b.buf.len() == STR_CAP && b.len
            <= STR_CAP)
}

/// Value of a numeric register.
pub open spec fn num(m: RegsModel, reg: RegAR, idx: Reg32) -> Option<NumberModel> {
    match reg {
        RegAR::A(_) => m.a[slot(reg, idx)],
        RegAR::R(_) => m.r[slot(reg, idx)],
    }
}

/// Registers with a numeric register replaced.
pub open spec fn with_num(m: RegsModel, reg: RegAR, idx: Reg32, v: Option<NumberModel>) -> RegsModel {
    match reg {
        RegAR::A(_) => RegsModel { a: m.a.update(slot(reg, idx), v), ..m },
        RegAR::R(_) => RegsModel { r: m.r.update(slot(reg, idx), v), ..m },
    }
}

/// Value a register keeps when `v` is written to it: the value cut or extended to its width.
pub open spec fn stored(v: Option<NumberModel>, reg: RegAR) -> Option<NumberModel> {
    match v {
        Some(n) => Some(reshaped_model(n, reg.spec_layout())),
        None => None,
    }
}

/// Whether a value can be written to a numeric register: nothing, or a well-formed integer.
pub open spec fn writable(v: Option<NumberModel>) -> bool {
    v matches Some(n) ==> model_wf(n) && n.layout is Integer
}

/// Registers with a byte string register replaced.
pub open spec fn with_str(m: RegsModel, i: u8, v: Option<ByteStrModel>) -> RegsModel {
    RegsModel { s: m.s.update(i as int, v), ..m }
}

/// Outcome of counting a jump: the cycle counter grows, or the status is cleared when it is
/// exhausted. The flag tells whether the jump may proceed.
pub open spec fn jmp_model(m: RegsModel) -> (RegsModel, bool) {
    if m.cy0 < u16::MAX {
        (RegsModel { cy0: (m.cy0 + 1) as u16, ..m }, true)
    } else {
        (RegsModel { st0: false, ..m }, false)
    }
}

/// Outcome of counting a call to `site`: the cycle counter grows and the site is pushed, or the
/// status is cleared when the counter is exhausted or the stack is full.
pub open spec fn call_model(m: RegsModel, site: LibSite) -> (RegsModel, bool) {
    if m.cy0 == u16::MAX {
        (RegsModel { st0: false, ..m }, false)
    } else if m.cs.len() >= CALL_STACK_MAX {
        (RegsModel { cy0: (m.cy0 + 1) as u16, st0: false, ..m }, false)
    } else {
        (RegsModel { cy0: (m.cy0 + 1) as u16, cs: m.cs.push(site), ..m }, true)
    }
}

/// Outcome of a return: the latest call site is popped, if there is one.
pub open spec fn ret_model(m: RegsModel) -> (RegsModel, Option<LibSite>) {
    if m.cs.len() == 0 {
        (m, None)
    } else {
        (RegsModel { cs: m.cs.drop_last(), ..m }, Some(m.cs.last()))
    }
}

/// The register file.
pub struct CoreRegs {
    a: Vec<Option<Number>>,
    r: Vec<Option<Number>>,
    s: Vec<Option<ByteStr>>,
    st0: bool,
    cy0: u16,
    cs: Vec<LibSite>,
}

impl View for CoreRegs {
    type V = RegsModel;

    closed spec fn view(&self) -> RegsModel {
        RegsModel {
            a: self.a@.map_values(|o: Option<Number>| opt_model(o)),
            r: self.r@.map_values(|o: Option<Number>| opt_model(o)),
            s: self.s@.map_values(|o: Option<ByteStr>| opt_str(o)),
            st0: self.st0,
            cy0: self.cy0,
            cs: self.cs@,
        }
    }
}

/// Copy of an optional number.
fn clone_opt(o: &Option<Number>) -> (r: Option<Number>)
    ensures
        opt_model(r) == opt_model(*o),
{
    match o {
        Some(n) => Some(n.clone_number()),
        None => None,
    }
}

/// Copy of an optional byte string.
fn clone_opt_str(o: &Option<ByteStr>) -> (r: Option<ByteStr>)
    ensures
        opt_str(r) == opt_str(*o),
{
    match o {
        Some(s) => Some(s.clone_str()),
        None => None,
    }
}

impl CoreRegs {
    /// Whether the register file is well formed.
    pub open spec fn wf(&self) -> bool {
        regs_wf(self@)
    }

    /// Empty registers: every register unset, the status set, no cycles and no calls.
    pub fn new() -> (r: CoreRegs)
        ensures
            r.wf(),
            r@.a == Seq::new(256, |k: int| None::<NumberModel>),
            r@.r == Seq::new(256, |k: int| None::<NumberModel>),
            r@.s == Seq::new(256, |k: int| None::<ByteStrModel>),
            r@.st0,
            r@.cy0 == 0,
            r@.cs == Seq::<LibSite>::empty(),
    {
        let mut a: Vec<Option<Number>> = Vec::new();
        let mut r: Vec<Option<Number>> = Vec::new();
        let mut s: Vec<Option<ByteStr>> = Vec::new();
        let mut i: usize = 0;
        while i < 256
            invariant
                i <= 256,
                a@.len() == i,
                r@.len() == i,
                s@.len() == i,
                forall|k: int| 0 <= k < i ==> #[trigger] a@[k] is None,
                forall|k: int| 0 <= k < i ==> #[trigger] r@[k] is None,
                forall|k: int| 0 <= k < i ==> #[trigger] s@[k] is None,
            decreases 256 - i,
        {
            a.push(None);
            r.push(None);
            s.push(None);
            i = i + 1;
        }
        let regs = CoreRegs { a, r, s, st0: true, cy0: 0, cs: Vec::new() };
        assert(regs@.a =~= Seq::new(256, |k: int| None::<NumberModel>));
        assert(regs@.r =~= Seq::new(256, |k: int| None::<NumberModel>));
        assert(regs@.s =~= Seq::new(256, |k: int| None::<ByteStrModel>));
        regs
    }

    /// Status flag.
    pub fn st0(&self) -> (r: bool)
        ensures
            r == self@.st0,
    {
        self.st0
    }

    /// Sets the status flag.
    pub fn set_st0(&mut self, st0: bool)
        ensures
            final(self)@ == (RegsModel { st0, ..old(self)@ }),
    {
        self.st0 = st0;
        proof {
            assert(self@.a =~= old(self)@.a);
            assert(self@.r =~= old(self)@.r);
            assert(self@.s =~= old(self)@.s);
        }
    }

    /// Number of jumps and calls made.
    pub fn cy0(&self) -> (r: u16)
        ensures
            r == self@.cy0,
    {
        self.cy0
    }

    /// Depth of the call stack.
    pub fn cp0(&self) -> (r: usize)
        ensures
            r == self@.cs.len(),
    {
        self.cs.len()
    }

    /// Value of a numeric register.
    pub fn get_n(&self, reg: RegAR, idx: Reg32) -> (r: Option<Number>)
        requires
            self.wf(),
        ensures
            opt_model(r) == num(self@, reg, idx),
            r matches Some(n) ==> n.wf() && n@.layout == reg.spec_layout(),
    {
        let k = match reg {
            RegAR::A(a) => a.block() * 32 + idx.to_usize(),
            RegAR::R(r) => r.block() * 32 + idx.to_usize(),
        };
        let v = match reg {
            RegAR::A(_) => clone_opt(&self.a[k]),
            RegAR::R(_) => clone_opt(&self.r[k]),
        };
        proof {
            match reg {
                RegAR::A(a) => {
                    assert(slot_ok(self@.a[k as int], a_width(k as int / 32)));
                    assert(k / 32 == a.spec_block());
                },
                RegAR::R(r) => {
                    assert(slot_ok(self@.r[k as int], r_width(k as int / 32)));
                    assert(k / 32 == r.spec_block());
                },
            }
        }
        v
    }

    /// Values of two numeric registers, when both are set.
    pub fn get_n2(&self, reg1: RegAR, idx1: Reg32, reg2: RegAR, idx2: Reg32) -> (r: Option<
        (Number, Number),
    >)
        requires
            self.wf(),
        ensures
            r is Some <==> (num(self@, reg1, idx1) is Some && num(self@, reg2, idx2) is Some),
            r matches Some((x, y)) ==> Some(x@) == num(self@, reg1, idx1) && Some(y@) == num(
                self@,
                reg2,
                idx2,
            ) && x.wf() && y.wf() && x@.layout == reg1.spec_layout() && y@.layout
                == reg2.spec_layout(),
    {
        match (self.get_n(reg1, idx1), self.get_n(reg2, idx2)) {
            (Some(x), Some(y)) => Some((x, y)),
            _ => None,
        }
    }

    /// Writes a value to a numeric register, cutting or extending it to the register's width;
    /// `None` clears the register. Returns whether a value was written.
    pub fn set_n(&mut self, reg: RegAR, idx: Reg32, value: Option<Number>) -> (r: bool)
        requires
            old(self).wf(),
            writable(opt_model(value)),
        ensures
            final(self).wf(),
            final(self)@ == with_num(old(self)@, reg, idx, stored(opt_model(value), reg)),
            r == value is Some,
    {
        let is_some = value.is_some();
        let v = match value {
            Some(n) => {
                let mut n = n;
                n.reshape(reg.layout());
                Some(n)
            },
            None => None,
        };
        let k = match reg {
            RegAR::A(a) => a.block() * 32 + idx.to_usize(),
            RegAR::R(r) => r.block() * 32 + idx.to_usize(),
        };
        let ghost old_m = self@;
        match reg {
            RegAR::A(_) => {
                self.a.set(k, v);
            },
            RegAR::R(_) => {
                self.r.set(k, v);
            },
        }
        proof {
            let target = with_num(old_m, reg, idx, stored(opt_model(value), reg));
            assert(self@.a =~= target.a);
            assert(self@.r =~= target.r);
            assert(self@.s =~= target.s);
            assert forall|j: int| 0 <= j < 256 implies #[trigger] slot_ok(
                self@.a[j],
                a_width(j / 32),
            ) by {
                if j != k {
                    assert(slot_ok(old_m.a[j], a_width(j / 32)));
                }
            }
            assert forall|j: int| 0 <= j < 256 implies #[trigger] slot_ok(
                self@.r[j],
                r_width(j / 32),
            ) by {
                if j != k {
                    assert(slot_ok(old_m.r[j], r_width(j / 32)));
                }
            }
            assert forall|j: int| 0 <= j < 256 implies (#[trigger] self@.s[j] matches Some(b)
                ==> b.buf.len() == STR_CAP && b.len <= STR_CAP) by {
                assert(self@.s[j] == old_m.s[j]);
            }
        }
        is_some
    }

    /// Writes a value to a numeric register only when it is unset. Returns whether a value was
    /// written.
    pub fn set_n_if(&mut self, reg: RegAR, idx: Reg32, value: Option<Number>) -> (r: bool)
        requires
            old(self).wf(),
            writable(opt_model(value)),
        ensures
            final(self).wf(),
            num(old(self)@, reg, idx) is None ==> final(self)@ == with_num(
                old(self)@,
                reg,
                idx,
                stored(opt_model(value), reg),
            ) && r == value is Some,
            num(old(self)@, reg, idx) is Some ==> final(self)@ == old(self)@ && !r,
    {
        if self.get_n(reg, idx).is_none() {
            self.set_n(reg, idx, value)
        } else {
            false
        }
    }

    /// Value of an arithmetic register read as a 16-bit unsigned integer.
    pub fn a_u16(&self, reg: RegA, idx: Reg32) -> (r: Option<u16>)
        requires
            self.wf(),
            reg.spec_bytes() <= 2,
        ensures
            r is Some <==> num(self@, RegAR::A(reg), idx) is Some,
            r matches Some(v) ==> v == le_val(num(self@, RegAR::A(reg), idx).unwrap().bytes),
    {
        match self.get_n(RegAR::A(reg), idx) {
            Some(n) => {
                proof {
                    crate::num::lemma_le_val_bound(n@.bytes);
                    crate::num::lemma_pow256_values();
                    if n@.bytes.len() == 1 {
                        crate::num::lemma_pow256_mono(1, 2);
                    }
                }
                Some(n.shift_amount())
            },
            None => None,
        }
    }

    /// Byte string register.
    pub fn get_s(&self, i: u8) -> (r: Option<ByteStr>)
        requires
            self.wf(),
        ensures
            opt_str(r) == self@.s[i as int],
            r matches Some(b) ==> b.wf(),
    {
        let r = clone_opt_str(&self.s[i as usize]);
        proof {
            assert(self@.s[i as int] == opt_str(self.s@[i as int]));
        }
        r
    }

    /// Sets or clears a byte string register.
    pub fn set_s(&mut self, i: u8, v: Option<ByteStr>)
        requires
            old(self).wf(),
            v matches Some(b) ==> b.wf(),
        ensures
            final(self).wf(),
            final(self)@ == with_str(old(self)@, i, opt_str(v)),
    {
        let ghost old_m = self@;
        self.s.set(i as usize, v);
        proof {
            let target = with_str(old_m, i, opt_str(v));
            assert(self@.a =~= target.a);
            assert(self@.r =~= target.r);
            assert(self@.s =~= target.s);
            assert forall|j: int| 0 <= j < 256 implies #[trigger] slot_ok(
                self@.a[j],
                a_width(j / 32),
            ) by {
                assert(self@.a[j] == old_m.a[j]);
            }
            assert forall|j: int| 0 <= j < 256 implies #[trigger] slot_ok(
                self@.r[j],
                r_width(j / 32),
            ) by {
                assert(self@.r[j] == old_m.r[j]);
            }
        }
    }

    /// Counts a jump. Fails, clearing the status, when the cycle counter is exhausted.
    pub fn jmp(&mut self) -> (r: bool)
        requires
            old(self).wf(),
        ensures
            final(self).wf(),
            (final(self)@, r) == jmp_model(old(self)@),
    {
        let ghost old_m = self@;
        if self.cy0 < u16::MAX {
            self.cy0 = self.cy0 + 1;
            assert(self@.a =~= old_m.a);
            assert(self@.r =~= old_m.r);
            assert(self@.s =~= old_m.s);
            true
        } else {
            self.st0 = false;
            assert(self@.a =~= old_m.a);
            assert(self@.r =~= old_m.r);
            assert(self@.s =~= old_m.s);
            false
        }
    }

    /// Counts a call and pushes `site` onto the call stack. Fails, clearing the status, when
    /// the cycle counter is exhausted or the stack is full.
    pub fn call(&mut self, site: LibSite) -> (r: bool)
        requires
            old(self).wf(),
        ensures
            final(self).wf(),
            (final(self)@, r) == call_model(old(self)@, site),
    {
        let ghost old_m = self@;
        if self.cy0 == u16::MAX {
            self.st0 = false;
            assert(self@.a =~= old_m.a);
            assert(self@.r =~= old_m.r);
            assert(self@.s =~= old_m.s);
            return false;
        }
        self.cy0 = self.cy0 + 1;
        if self.cs.len() >= CALL_STACK_MAX {
            self.st0 = false;
            assert(self@.a =~= old_m.a);
            assert(self@.r =~= old_m.r);
            assert(self@.s =~= old_m.s);
            return false;
        }
        self.cs.push(site);
        assert(self@.a =~= old_m.a);
        assert(self@.r =~= old_m.r);
        assert(self@.s =~= old_m.s);
        true
    }

    /// Pops the latest return site from the call stack, if any.
    pub fn ret(&mut self) -> (r: Option<LibSite>)
        requires
            old(self).wf(),
        ensures
            final(self).wf(),
            (final(self)@, r) == ret_model(old(self)@),
    {
        let ghost old_m = self@;
        let r = if self.cs.len() > 0 {
            self.cs.pop()
        } else {
            None
        };
        assert(self@.a =~= old_m.a);
        assert(self@.r =~= old_m.r);
        assert(self@.s =~= old_m.s);
        proof {
            if old_m.cs.len() > 0 {
                assert(self@.cs =~= old_m.cs.drop_last());
            } else {
                assert(self@.cs =~= old_m.cs);
            }
        }
        r
    }
}

impl Default for CoreRegs {
    fn default() -> (r: CoreRegs)
        ensures
            r.wf(),
            r@.a == Seq::new(256, |k: int| None::<NumberModel>),
            r@.r == Seq::new(256, |k: int| None::<NumberModel>),
            r@.s == Seq::new(256, |k: int| None::<ByteStrModel>),
            r@.st0,
            r@.cy0 == 0,
            r@.cs == Seq::<LibSite>::empty(),
    {
        CoreRegs::new()
    }
}

/// Value read from any register: a number register's or a string register's.
#[derive(Debug)]
pub enum RegValue {
    /// Value of a numeric register.
    Number(Option<Number>),
    /// Value of a byte string register.
    String(Option<ByteStr>),
}

} // verus!
