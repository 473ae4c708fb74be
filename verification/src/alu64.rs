//! Arithmetic core of up to 64-bit registers, with check and complexity registers.

use vstd::prelude::*;

use crate::reg::Reg32;

verus! {

/// Result of an operation, as the check register keeps it.
#[derive(Clone, Copy, PartialEq, Eq, Structural, Debug, Hash)]
pub enum Status {
    /// No failure.
    Success,
    /// A failure happened.
    Fail,
}

impl Status {
    /// Whether the status is [`Status::Success`].
    pub fn is_ok(self) -> (r: bool)
        ensures
            r == (self == Status::Success),
    {
        match self {
            Status::Success => true,
            Status::Fail => false,
        }
    }
}

/// Arithmetic register blocks of the core, by width.
#[derive(Clone, Copy, PartialEq, Eq, Structural, Debug, Hash)]
pub enum A {
    /// 8-bit registers.
    A8,
    /// 16-bit registers.
    A16,
    /// 32-bit registers.
    A32,
    /// 64-bit registers.
    A64,
}

impl A {
    /// Block with the given 3-bit code, which must be below 4: higher blocks are not part of
    /// this core.
    pub fn from_u3(v: u8) -> (r: A)
        requires
            v < 4,
        ensures
            v == 0 ==> r == A::A8,
            v == 1 ==> r == A::A16,
            v == 2 ==> r == A::A32,
            v == 3 ==> r == A::A64,
    {
        match v {
            0 => A::A8,
            1 => A::A16,
            2 => A::A32,
            _ => A::A64,
        }
    }
}

/// Index of an arithmetic register within its block of 32.
#[derive(Clone, Copy, PartialEq, Eq, Structural, Debug, Hash)]
pub struct IdxA {
    idx: Reg32,
}

impl IdxA {
    /// Index at a position below 32.
    pub closed spec fn spec_at(i: nat) -> IdxA {
        IdxA { idx: Reg32::spec_with(i) }
    }

    /// Position of the register.
    pub closed spec fn spec_pos(&self) -> usize {
        self.idx.spec_to_usize()
    }

    /// Position of the register.
    pub fn pos(&self) -> (r: usize)
        ensures
            r == self.spec_pos(),
            r < 32,
    {
        self.idx.to_usize()
    }

    /// Index at a position below 32.
    pub fn from_expected(val: usize) -> (r: IdxA)
        requires
            val < 32,
        ensures
            r.spec_pos() == val,
            r == IdxA::spec_at(val as nat),
    {
        IdxA { idx: Reg32::with(val as u8) }
    }

    /// 5-bit code of the index: its position.
    pub fn to_u5(&self) -> (r: u8)
        ensures
            r == self.spec_pos(),
            r < 32,
    {
        self.idx.to_usize() as u8
    }

    /// Index from a 5-bit value.
    pub fn from_u5(v: u8) -> (r: IdxA)
        requires
            v < 32,
        ensures
            r.spec_pos() == v,
    {
        IdxA { idx: Reg32::with(v) }
    }
}

/// An arithmetic register: block and index.
#[derive(Clone, Copy, PartialEq, Eq, Structural, Debug, Hash)]
pub enum RegA {
    /// 8-bit register.
    A8(IdxA),
    /// 16-bit register.
    A16(IdxA),
    /// 32-bit register.
    A32(IdxA),
    /// 64-bit register.
    A64(IdxA),
}

impl RegA {
    /// Register of block `a` at index `idx`.
    pub fn with(a: A, idx: IdxA) -> (r: RegA)
        ensures
            r == (match a {
                A::A8 => RegA::A8(idx),
                A::A16 => RegA::A16(idx),
                A::A32 => RegA::A32(idx),
                A::A64 => RegA::A64(idx),
            }),
    {
        match a {
            A::A8 => RegA::A8(idx),
            A::A16 => RegA::A16(idx),
            A::A32 => RegA::A32(idx),
            A::A64 => RegA::A64(idx),
        }
    }

    /// Size figure of the register's block: 1 for `a8` and the bit width for the others.
    pub open spec fn spec_bytes(self) -> u16 {
        match self {
            RegA::A8(_) => 1,
            RegA::A16(_) => 16,
            RegA::A32(_) => 32,
            RegA::A64(_) => 64,
        }
    }

    /// Size figure of the register's block: 1 for `a8` and the bit width for the others.
    #[verifier::when_used_as_spec(spec_bytes)]
    pub fn bytes(self) -> (r: u16)
        ensures
            r == self.spec_bytes(),
    {
        match self {
            RegA::A8(_) => 1,
            RegA::A16(_) => 16,
            RegA::A32(_) => 32,
            RegA::A64(_) => 64,
        }
    }
}

/// A register of the core.
#[derive(Clone, Copy, PartialEq, Eq, Structural, Debug, Hash)]
pub enum Reg {
    /// Arithmetic register.
    A(RegA),
}

impl Reg {
    /// Size figure of the register (see [`RegA::bytes`]).
    pub fn bytes(self) -> (r: u16)
        ensures
            r == (match self {
                Reg::A(a) => a.spec_bytes(),
            }),
    {
        match self {
            Reg::A(a) => a.bytes(),
        }
    }
}

/// Abstract content of an [`AluCore`].
pub struct AluModel {
    /// `a8` registers.
    pub a8: Seq<Option<u8>>,
    /// `a16` registers.
    pub a16: Seq<Option<u16>>,
    /// `a32` registers.
    pub a32: Seq<Option<u32>>,
    /// `a64` registers.
    pub a64: Seq<Option<u64>>,
    /// Check register.
    pub ck: Status,
    /// Complexity accumulator.
    pub ca: u64,
    /// Complexity limit.
    pub cl: Option<u64>,
}

/// Arithmetic core: 32 registers in each of the 8- to 64-bit blocks, the check register and
/// the complexity accumulator with its optional limit.
pub struct AluCore {
    a8: Vec<Option<u8>>,
    a16: Vec<Option<u16>>,
    a32: Vec<Option<u32>>,
    a64: Vec<Option<u64>>,
    ck: Status,
    ca: u64,
    cl: Option<u64>,
}

impl View for AluCore {
    type V = AluModel;

    closed spec fn view(&self) -> AluModel {
        AluModel {
            a8: self.a8@,
            a16: self.a16@,
            a32: self.a32@,
            a64: self.a64@,
            ck: self.ck,
            ca: self.ca,
            cl: self.cl,
        }
    }
}

/// Value of a register of the model, widened to 64 bits.
pub open spec fn alu_get(m: AluModel, reg: Reg) -> Option<u64> {
    match reg {
        Reg::A(RegA::A8(i)) => match m.a8[i.spec_pos() as int] {
            Some(v) => Some(v as u64),
            None => None,
        },
        Reg::A(RegA::A16(i)) => match m.a16[i.spec_pos() as int] {
            Some(v) => Some(v as u64),
            None => None,
        },
        Reg::A(RegA::A32(i)) => match m.a32[i.spec_pos() as int] {
            Some(v) => Some(v as u64),
            None => None,
        },
        Reg::A(RegA::A64(i)) => m.a64[i.spec_pos() as int],
    }
}

/// A register value widened to 64 bits.
pub open spec fn widen8(o: Option<u8>) -> Option<u64> {
    match o {
        Some(v) => Some(v as u64),
        None => None,
    }
}

/// A register value widened to 64 bits.
pub open spec fn widen16(o: Option<u16>) -> Option<u64> {
    match o {
        Some(v) => Some(v as u64),
        None => None,
    }
}

/// A register value widened to 64 bits.
pub open spec fn widen32(o: Option<u32>) -> Option<u64> {
    match o {
        Some(v) => Some(v as u64),
        None => None,
    }
}

/// The set registers among the first `n` of a block, each named as an `a8` register with its
/// index, with its value.
pub open spec fn present(s: Seq<Option<u64>>, n: nat) -> Seq<(RegA, u64)>
    decreases n,
{
    if n == 0 {
        Seq::empty()
    } else {
        present(s, (n - 1) as nat) + match s[n - 1] {
            Some(v) => seq![(RegA::A8(IdxA::spec_at((n - 1) as nat)), v)],
            None => Seq::empty(),
        }
    }
}

/// The set registers of all blocks, in block order (see [`present`]).
pub open spec fn a_values_model(m: AluModel) -> Seq<(RegA, u64)> {
    present(m.a8.map_values(|o: Option<u8>| widen8(o)), 32) + present(
        m.a16.map_values(|o: Option<u16>| widen16(o)),
        32,
    ) + present(m.a32.map_values(|o: Option<u32>| widen32(o)), 32) + present(m.a64, 32)
}

impl AluCore {
    /// Whether each block has 32 registers.
    pub open spec fn wf(&self) -> bool {
        self@.a8.len() == 32 && self@.a16.len() == 32 && self@.a32.len() == 32 && self@.a64.len()
            == 32
    }

    /// Core with all registers unset, the check register `Ok`, no complexity and the given
    /// complexity limit.
    pub fn with_limit(cl: Option<u64>) -> (r: AluCore)
        ensures
            r.wf(),
            r@.a8 == Seq::new(32, |i: int| None::<u8>),
            r@.a16 == Seq::new(32, |i: int| None::<u16>),
            r@.a32 == Seq::new(32, |i: int| None::<u32>),
            r@.a64 == Seq::new(32, |i: int| None::<u64>),
            r@.ck == Status::Success,
            r@.ca == 0,
            r@.cl == cl,
    {
        let mut a8: Vec<Option<u8>> = Vec::new();
        let mut a16: Vec<Option<u16>> = Vec::new();
        let mut a32: Vec<Option<u32>> = Vec::new();
        let mut a64: Vec<Option<u64>> = Vec::new();
        let mut i: usize = 0;
        while i < 32
            invariant
                i <= 32,
                a8@ == Seq::new(i as nat, |k: int| None::<u8>),
                a16@ == Seq::new(i as nat, |k: int| None::<u16>),
                a32@ == Seq::new(i as nat, |k: int| None::<u32>),
                a64@ == Seq::new(i as nat, |k: int| None::<u64>),
            decreases 32 - i,
        {
            a8.push(None);
            a16.push(None);
            a32.push(None);
            a64.push(None);
            i = i + 1;
            assert(a8@ =~= Seq::new(i as nat, |k: int| None::<u8>));
            assert(a16@ =~= Seq::new(i as nat, |k: int| None::<u16>));
            assert(a32@ =~= Seq::new(i as nat, |k: int| None::<u32>));
            assert(a64@ =~= Seq::new(i as nat, |k: int| None::<u64>));
        }
        AluCore { a8, a16, a32, a64, ck: Status::Success, ca: 0, cl }
    }

    /// Core with all registers unset and no complexity limit.
    pub fn new() -> (r: AluCore)
        ensures
            r.wf(),
            r@.a8 == Seq::new(32, |i: int| None::<u8>),
            r@.a16 == Seq::new(32, |i: int| None::<u16>),
            r@.a32 == Seq::new(32, |i: int| None::<u32>),
            r@.a64 == Seq::new(32, |i: int| None::<u64>),
            r@.ck == Status::Success,
            r@.ca == 0,
            r@.cl is None,
    {
        AluCore::with_limit(None)
    }

    /// Check register: whether a failure happened since it was last reset.
    pub fn ck(&self) -> (r: Status)
        ensures
            r == self@.ck,
    {
        self.ck
    }

    /// Resets the check register to `Ok`.
    pub fn reset_ck(&mut self)
        ensures
            final(self)@ == (AluModel { ck: Status::Success, ..old(self)@ }),
    {
        self.ck = Status::Success;
    }

    /// Complexity limit.
    pub fn cl(&self) -> (r: Option<u64>)
        ensures
            r == self@.cl,
    {
        self.cl
    }

    /// Complexity accumulated.
    pub fn ca(&self) -> (r: u64)
        ensures
            r == self@.ca,
    {
        self.ca
    }

    /// Adds to the complexity accumulator (saturating at the largest value) and tells whether
    /// the limit, if there is one, is reached.
    pub fn acc_complexity(&mut self, complexity: u64) -> (r: bool)
        ensures
            final(self)@ == (AluModel {
                ca: if old(self)@.ca + complexity > u64::MAX {
                    u64::MAX
                } else {
                    (old(self)@.ca + complexity) as u64
                },
                ..old(self)@
            }),
            r == (match final(self)@.cl {
                Some(lim) => final(self)@.ca >= lim,
                None => false,
            }),
    {
        self.ca = self.ca.saturating_add(complexity);
        match self.cl {
            Some(lim) => self.ca >= lim,
            None => false,
        }
    }

    /// Value of a register, widened to 64 bits.
    pub fn get(&self, reg: Reg) -> (r: Option<u64>)
        requires
            self.wf(),
        ensures
            r == alu_get(self@, reg),
    {
        match reg {
            Reg::A(RegA::A8(i)) => match self.a8[i.pos()] {
                Some(v) => Some(v as u64),
                None => None,
            },
            Reg::A(RegA::A16(i)) => match self.a16[i.pos()] {
                Some(v) => Some(v as u64),
                None => None,
            },
            Reg::A(RegA::A32(i)) => match self.a32[i.pos()] {
                Some(v) => Some(v as u64),
                None => None,
            },
            Reg::A(RegA::A64(i)) => self.a64[i.pos()],
        }
    }

    /// Value of register `a8[idx]`.
    pub fn a8(&self, idx: IdxA) -> (r: Option<u8>)
        requires
            self.wf(),
        ensures
            r == self@.a8[idx.spec_pos() as int],
    {
        self.a8[idx.pos()]
    }

    /// Clears register `a8[idx]`, telling whether it held a value.
    pub fn clr_a8(&mut self, idx: IdxA) -> (r: bool)
        requires
            old(self).wf(),
        ensures
            final(self).wf(),
            final(self)@ == (AluModel { a8: old(self)@.a8.update(idx.spec_pos() as int, None), ..old(self)@ }),
            r == old(self)@.a8[idx.spec_pos() as int] is Some,
    {
        self.take_a8(idx).is_some()
    }

    /// Clears register `a8[idx]`, giving its value.
    pub fn take_a8(&mut self, idx: IdxA) -> (r: Option<u8>)
        requires
            old(self).wf(),
        ensures
            final(self).wf(),
            final(self)@ == (AluModel { a8: old(self)@.a8.update(idx.spec_pos() as int, None), ..old(self)@ }),
            r == old(self)@.a8[idx.spec_pos() as int],
    {
        let i = idx.pos();
        let v = self.a8[i];
        self.a8.set(i, None);
        v
    }

    /// Sets register `a8[idx]`, telling whether it held a value before.
    pub fn set_a8(&mut self, idx: IdxA, val: u8) -> (r: bool)
        requires
            old(self).wf(),
        ensures
            final(self).wf(),
            final(self)@ == (AluModel { a8: old(self)@.a8.update(idx.spec_pos() as int, Some(val)), ..old(self)@ }),
            r == old(self)@.a8[idx.spec_pos() as int] is Some,
    {
        self.swp_a8(idx, val).is_some()
    }

    /// Sets register `a8[idx]`, giving its previous value.
    pub fn swp_a8(&mut self, idx: IdxA, val: u8) -> (r: Option<u8>)
        requires
            old(self).wf(),
        ensures
            final(self).wf(),
            final(self)@ == (AluModel { a8: old(self)@.a8.update(idx.spec_pos() as int, Some(val)), ..old(self)@ }),
            r == old(self)@.a8[idx.spec_pos() as int],
    {
        let i = idx.pos();
        let v = self.a8[i];
        self.a8.set(i, Some(val));
        v
    }

    /// Value of register `a16[idx]`.
    pub fn a16(&self, idx: IdxA) -> (r: Option<u16>)
        requires
            self.wf(),
        ensures
            r == self@.a16[idx.spec_pos() as int],
    {
        self.a16[idx.pos()]
    }

    /// Clears register `a16[idx]`, telling whether it held a value.
    pub fn clr_a16(&mut self, idx: IdxA) -> (r: bool)
        requires
            old(self).wf(),
        ensures
            final(self).wf(),
            final(self)@ == (AluModel { a16: old(self)@.a16.update(idx.spec_pos() as int, None), ..old(self)@ }),
            r == old(self)@.a16[idx.spec_pos() as int] is Some,
    {
        self.take_a16(idx).is_some()
    }

    /// Clears register `a16[idx]`, giving its value.
    pub fn take_a16(&mut self, idx: IdxA) -> (r: Option<u16>)
        requires
            old(self).wf(),
        ensures
            final(self).wf(),
            final(self)@ == (AluModel { a16: old(self)@.a16.update(idx.spec_pos() as int, None), ..old(self)@ }),
            r == old(self)@.a16[idx.spec_pos() as int],
    {
        let i = idx.pos();
        let v = self.a16[i];
        self.a16.set(i, None);
        v
    }

    /// Sets register `a16[idx]`, telling whether it held a value before.
    pub fn set_a16(&mut self, idx: IdxA, val: u16) -> (r: bool)
        requires
            old(self).wf(),
        ensures
            final(self).wf(),
            final(self)@ == (AluModel { a16: old(self)@.a16.update(idx.spec_pos() as int, Some(val)), ..old(self)@ }),
            r == old(self)@.a16[idx.spec_pos() as int] is Some,
    {
        self.swp_a16(idx, val).is_some()
    }

    /// Sets register `a16[idx]`, giving its previous value.
    pub fn swp_a16(&mut self, idx: IdxA, val: u16) -> (r: Option<u16>)
        requires
            old(self).wf(),
        ensures
            final(self).wf(),
            final(self)@ == (AluModel { a16: old(self)@.a16.update(idx.spec_pos() as int, Some(val)), ..old(self)@ }),
            r == old(self)@.a16[idx.spec_pos() as int],
    {
        let i = idx.pos();
        let v = self.a16[i];
        self.a16.set(i, Some(val));
        v
    }

    /// Value of register `a32[idx]`.
    pub fn a32(&self, idx: IdxA) -> (r: Option<u32>)
        requires
            self.wf(),
        ensures
            r == self@.a32[idx.spec_pos() as int],
    {
        self.a32[idx.pos()]
    }

    /// Clears register `a32[idx]`, telling whether it held a value.
    pub fn clr_a32(&mut self, idx: IdxA) -> (r: bool)
        requires
            old(self).wf(),
        ensures
            final(self).wf(),
            final(self)@ == (AluModel { a32: old(self)@.a32.update(idx.spec_pos() as int, None), ..old(self)@ }),
            r == old(self)@.a32[idx.spec_pos() as int] is Some,
    {
        self.take_a32(idx).is_some()
    }

    /// Clears register `a32[idx]`, giving its value.
    pub fn take_a32(&mut self, idx: IdxA) -> (r: Option<u32>)
        requires
            old(self).wf(),
        ensures
            final(self).wf(),
            final(self)@ == (AluModel { a32: old(self)@.a32.update(idx.spec_pos() as int, None), ..old(self)@ }),
            r == old(self)@.a32[idx.spec_pos() as int],
    {
        let i = idx.pos();
        let v = self.a32[i];
        self.a32.set(i, None);
        v
    }

    /// Sets register `a32[idx]`, telling whether it held a value before.
    pub fn set_a32(&mut self, idx: IdxA, val: u32) -> (r: bool)
        requires
            old(self).wf(),
        ensures
            final(self).wf(),
            final(self)@ == (AluModel { a32: old(self)@.a32.update(idx.spec_pos() as int, Some(val)), ..old(self)@ }),
            r == old(self)@.a32[idx.spec_pos() as int] is Some,
    {
        self.swp_a32(idx, val).is_some()
    }

    /// Sets register `a32[idx]`, giving its previous value.
    pub fn swp_a32(&mut self, idx: IdxA, val: u32) -> (r: Option<u32>)
        requires
            old(self).wf(),
        ensures
            final(self).wf(),
            final(self)@ == (AluModel { a32: old(self)@.a32.update(idx.spec_pos() as int, Some(val)), ..old(self)@ }),
            r == old(self)@.a32[idx.spec_pos() as int],
    {
        let i = idx.pos();
        let v = self.a32[i];
        self.a32.set(i, Some(val));
        v
    }

    /// Value of register `a64[idx]`.
    pub fn a64(&self, idx: IdxA) -> (r: Option<u64>)
        requires
            self.wf(),
        ensures
            r == self@.a64[idx.spec_pos() as int],
    {
        self.a64[idx.pos()]
    }

    /// Clears register `a64[idx]`, telling whether it held a value.
    pub fn clr_a64(&mut self, idx: IdxA) -> (r: bool)
        requires
            old(self).wf(),
        ensures
            final(self).wf(),
            final(self)@ == (AluModel { a64: old(self)@.a64.update(idx.spec_pos() as int, None), ..old(self)@ }),
            r == old(self)@.a64[idx.spec_pos() as int] is Some,
    {
        self.take_a64(idx).is_some()
    }

    /// Clears register `a64[idx]`, giving its value.
    pub fn take_a64(&mut self, idx: IdxA) -> (r: Option<u64>)
        requires
            old(self).wf(),
        ensures
            final(self).wf(),
            final(self)@ == (AluModel { a64: old(self)@.a64.update(idx.spec_pos() as int, None), ..old(self)@ }),
            r == old(self)@.a64[idx.spec_pos() as int],
    {
        let i = idx.pos();
        let v = self.a64[i];
        self.a64.set(i, None);
        v
    }

    /// Sets register `a64[idx]`, telling whether it held a value before.
    pub fn set_a64(&mut self, idx: IdxA, val: u64) -> (r: bool)
        requires
            old(self).wf(),
        ensures
            final(self).wf(),
            final(self)@ == (AluModel { a64: old(self)@.a64.update(idx.spec_pos() as int, Some(val)), ..old(self)@ }),
            r == old(self)@.a64[idx.spec_pos() as int] is Some,
    {
        self.swp_a64(idx, val).is_some()
    }

    /// Sets register `a64[idx]`, giving its previous value.
    pub fn swp_a64(&mut self, idx: IdxA, val: u64) -> (r: Option<u64>)
        requires
            old(self).wf(),
        ensures
            final(self).wf(),
            final(self)@ == (AluModel { a64: old(self)@.a64.update(idx.spec_pos() as int, Some(val)), ..old(self)@ }),
            r == old(self)@.a64[idx.spec_pos() as int],
    {
        let i = idx.pos();
        let v = self.a64[i];
        self.a64.set(i, Some(val));
        v
    }

    /// Registers that hold values, in block order and then index order, with their values
    /// widened to 64 bits. Every register is named as an `a8` register with its index.
    pub fn a_values(&self) -> (r: Vec<(RegA, u64)>)
        requires
            self.wf(),
        ensures
            r@ == a_values_model(self@),
    {
        let mut out: Vec<(RegA, u64)> = Vec::new();
        let ghost w8 = self@.a8.map_values(|o: Option<u8>| widen8(o));
        let ghost w16 = self@.a16.map_values(|o: Option<u16>| widen16(o));
        let ghost w32 = self@.a32.map_values(|o: Option<u32>| widen32(o));
        let ghost w64 = self@.a64;
        let ghost before8 = out@;
        assert(before8 == Seq::<(RegA, u64)>::empty());
        let mut i: usize = 0;
        while i < 32
            invariant
                i <= 32,
                self.wf(),
                w8 == self@.a8.map_values(|o: Option<u8>| widen8(o)),
                w16 == self@.a16.map_values(|o: Option<u16>| widen16(o)),
                w32 == self@.a32.map_values(|o: Option<u32>| widen32(o)),
                w64 == self@.a64,
                out@ == before8 + present(w8, i as nat),
            decreases 32 - i,
        {
            if let Some(v) = self.a8[i] {
                out.push((RegA::A8(IdxA::from_expected(i)), v as u64));
            }
            i = i + 1;
            assert(out@ =~= before8 + present(w8, i as nat));
        }
        let ghost before16 = out@;
        assert(before16 == before8 + present(w8, 32));
        let mut i: usize = 0;
        while i < 32
            invariant
                i <= 32,
                self.wf(),
                w8 == self@.a8.map_values(|o: Option<u8>| widen8(o)),
                w16 == self@.a16.map_values(|o: Option<u16>| widen16(o)),
                w32 == self@.a32.map_values(|o: Option<u32>| widen32(o)),
                w64 == self@.a64,
                out@ == before16 + present(w16, i as nat),
            decreases 32 - i,
        {
            if let Some(v) = self.a16[i] {
                out.push((RegA::A8(IdxA::from_expected(i)), v as u64));
            }
            i = i + 1;
            assert(out@ =~= before16 + present(w16, i as nat));
        }
        let ghost before32 = out@;
        assert(before32 == before16 + present(w16, 32));
        let mut i: usize = 0;
        while i < 32
            invariant
                i <= 32,
                self.wf(),
                w8 == self@.a8.map_values(|o: Option<u8>| widen8(o)),
                w16 == self@.a16.map_values(|o: Option<u16>| widen16(o)),
                w32 == self@.a32.map_values(|o: Option<u32>| widen32(o)),
                w64 == self@.a64,
                out@ == before32 + present(w32, i as nat),
            decreases 32 - i,
        {
            if let Some(v) = self.a32[i] {
                out.push((RegA::A8(IdxA::from_expected(i)), v as u64));
            }
            i = i + 1;
            assert(out@ =~= before32 + present(w32, i as nat));
        }
        let ghost before64 = out@;
        assert(before64 == before32 + present(w32, 32));
        let mut i: usize = 0;
        while i < 32
            invariant
                i <= 32,
                self.wf(),
                w8 == self@.a8.map_values(|o: Option<u8>| widen8(o)),
                w16 == self@.a16.map_values(|o: Option<u16>| widen16(o)),
                w32 == self@.a32.map_values(|o: Option<u32>| widen32(o)),
                w64 == self@.a64,
                out@ == before64 + present(w64, i as nat),
            decreases 32 - i,
        {
            if let Some(v) = self.a64[i] {
                out.push((RegA::A8(IdxA::from_expected(i)), v));
            }
            i = i + 1;
            assert(out@ =~= before64 + present(w64, i as nat));
        }
        assert(out@ =~= a_values_model(self@));
        out
    }
}

/// Control flow instructions of the arithmetic core.
#[derive(Clone, Copy, PartialEq, Eq, Structural, Debug, Hash)]
pub enum CtrlInstr {
    /// No operation.
    Nop,
    /// Tests the check register, stopping when it records a failure.
    Chk,
    /// Inverts the check register.
    NotCk,
    /// Records a failure in the check register.
    Fail,
    /// Clears the check register.
    Rset,
    /// Jumps to a location.
    Jmp,
    /// Jumps to a location if the test register is set.
    Jif,
    /// Jumps to a location if the check register records a failure.
    JiFail,
    /// Relative jump.
    Sh,
    /// Relative jump if the test register is set.
    ShIf,
    /// Relative jump if the check register records a failure.
    ShIfail,
    /// Jump to another program.
    Exec,
    /// Subroutine call.
    Fn,
    /// Subroutine call into another program.
    Call,
    /// Returns from a subroutine or ends the program.
    Ret,
    /// Stops the program.
    Stop,
}

/// Register instructions of the arithmetic core.
#[derive(Clone, Copy, PartialEq, Eq, Structural, Debug, Hash)]
pub enum RegInstr {
    /// Clears a register.
    Clr {
        /// Destination block.
        dst: A,
    },
    /// Puts a constant into a register.
    Put {
        /// Destination block.
        dst: A,
        /// Value.
        val: u64,
    },
    /// Puts a constant into a register that holds no value.
    Pif {
        /// Destination block.
        dst: A,
        /// Value.
        val: u64,
    },
    /// Tests whether a register is set.
    Test {
        /// Source block.
        src: A,
    },
    /// Copies a register to another, extending with zeros between widths.
    Cpy {
        /// Destination block.
        dst: A,
        /// Source block.
        src: A,
    },
    /// Swaps two registers.
    Swp {
        /// First register block.
        src_dst1: A,
        /// Second register block.
        src_dst2: A,
    },
    /// Whether two registers are equal, as unsigned integers.
    Eq {
        /// First source block.
        src1: A,
        /// Second source block.
        src2: A,
    },
}

/// An index is found again from its position, which is below 32.
pub proof fn lemma_idx_position(i: IdxA)
    ensures
        i.spec_pos() < 32,
        IdxA::spec_at(i.spec_pos() as nat) == i,
{
}

/// Writing a register and reading it back gives what was written, widened to 64 bits, and
/// every other register keeps its value; for each of the four blocks.
pub proof fn law_alu_write_read(
    m: AluModel,
    idx: IdxA,
    v8: u8,
    v16: u16,
    v32: u32,
    v64: u64,
    other: Reg,
)
    requires
        m.a8.len() == 32,
        m.a16.len() == 32,
        m.a32.len() == 32,
        m.a64.len() == 32,
    ensures
        ({
            let n = AluModel { a8: m.a8.update(idx.spec_pos() as int, Some(v8)), ..m };
            &&& alu_get(n, Reg::A(RegA::A8(idx))) == Some(v8 as u64)
            &&& other != Reg::A(RegA::A8(idx)) ==> alu_get(n, other) == alu_get(m, other)
        }),
        ({
            let n = AluModel { a16: m.a16.update(idx.spec_pos() as int, Some(v16)), ..m };
            &&& alu_get(n, Reg::A(RegA::A16(idx))) == Some(v16 as u64)
            &&& other != Reg::A(RegA::A16(idx)) ==> alu_get(n, other) == alu_get(m, other)
        }),
        ({
            let n = AluModel { a32: m.a32.update(idx.spec_pos() as int, Some(v32)), ..m };
            &&& alu_get(n, Reg::A(RegA::A32(idx))) == Some(v32 as u64)
            &&& other != Reg::A(RegA::A32(idx)) ==> alu_get(n, other) == alu_get(m, other)
        }),
        ({
            let n = AluModel { a64: m.a64.update(idx.spec_pos() as int, Some(v64)), ..m };
            &&& alu_get(n, Reg::A(RegA::A64(idx))) == Some(v64)
            &&& other != Reg::A(RegA::A64(idx)) ==> alu_get(n, other) == alu_get(m, other)
        }),
{
    lemma_idx_position(idx);
    match other {
        Reg::A(RegA::A8(j)) | Reg::A(RegA::A16(j)) | Reg::A(RegA::A32(j)) | Reg::A(RegA::A64(j)) => {
            lemma_idx_position(j);
        },
    }
}

} // verus!
