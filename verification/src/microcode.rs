//! Register names of the microcode core (arithmetic blocks up to 128 bits), code sites and
//! finite field orders.

use vstd::prelude::*;

use vstd::arithmetic::power2::pow2;

use crate::alu64::{lemma_idx_position, IdxA, Status};
use crate::reg::Reg16;

verus! {

/// Arithmetic register blocks of the microcode core, by width.
#[derive(Clone, Copy, PartialEq, Eq, Structural, Debug, Hash)]
pub enum A {
    /// 8-bit registers.
    A8,
    /// 16-bit registers.
    A16,
    /// 32-bit registers.
    A32,
    /// 64-bit registers.
    A64,
    /// 128-bit registers.
    A128,
}

impl A {
    /// 3-bit code of the block.
    pub open spec fn spec_to_u3(self) -> u8 {
        match self {
            A::A8 => 0,
            A::A16 => 1,
            A::A32 => 2,
            A::A64 => 3,
            A::A128 => 4,
        }
    }

    /// 3-bit code of the block.
    #[verifier::when_used_as_spec(spec_to_u3)]
    pub fn to_u3(self) -> (r: u8)
        ensures
            r == self.spec_to_u3(),
    {
        match self {
            A::A8 => 0,
            A::A16 => 1,
            A::A32 => 2,
            A::A64 => 3,
            A::A128 => 4,
        }
    }

    /// Block with the given 3-bit code, which must be below 5: higher blocks are not part of
    /// this core.
    pub fn from_u3(v: u8) -> (r: A)
        requires
            v < 5,
        ensures
            r.spec_to_u3() == v,
    {
        match v {
            0 => A::A8,
            1 => A::A16,
            2 => A::A32,
            3 => A::A64,
            _ => A::A128,
        }
    }
}

/// An arithmetic register of the microcode core: block and index.
#[derive(Clone, Copy, PartialEq, Eq, Structural, Debug, Hash)]
pub enum RegA {
    /// 8-bit register.
    A8(IdxA),
    /// 16-bit register.
    A16(IdxA),
    /// 32-bit register.
    A32(IdxA),
    /// 64-bit register.
    A64(IdxA),
    /// 128-bit register.
    A128(IdxA),
}

impl RegA {
    /// Register of block `a` at index `idx`.
    pub fn with(a: A, idx: IdxA) -> (r: RegA)
        ensures
            r.spec_a() == a,
            r.spec_idx() == idx,
    {
        match a {
            A::A8 => RegA::A8(idx),
            A::A16 => RegA::A16(idx),
            A::A32 => RegA::A32(idx),
            A::A64 => RegA::A64(idx),
            A::A128 => RegA::A128(idx),
        }
    }

    /// Size figure of the register's block: 1 for `a8` and the bit width for the others.
    pub fn bytes(self) -> (r: u16)
        ensures
            r == (match self {
                RegA::A8(_) => 1u16,
                RegA::A16(_) => 16u16,
                RegA::A32(_) => 32u16,
                RegA::A64(_) => 64u16,
                RegA::A128(_) => 128u16,
            }),
    {
        match self {
            RegA::A8(_) => 1,
            RegA::A16(_) => 16,
            RegA::A32(_) => 32,
            RegA::A64(_) => 64,
            RegA::A128(_) => 128,
        }
    }

    /// Block of the register.
    pub open spec fn spec_a(self) -> A {
        match self {
            RegA::A8(_) => A::A8,
            RegA::A16(_) => A::A16,
            RegA::A32(_) => A::A32,
            RegA::A64(_) => A::A64,
            RegA::A128(_) => A::A128,
        }
    }

    /// Block of the register.
    #[verifier::when_used_as_spec(spec_a)]
    pub fn a(self) -> (r: A)
        ensures
            r == self.spec_a(),
    {
        match self {
            RegA::A8(_) => A::A8,
            RegA::A16(_) => A::A16,
            RegA::A32(_) => A::A32,
            RegA::A64(_) => A::A64,
            RegA::A128(_) => A::A128,
        }
    }

    /// Index of the register.
    pub open spec fn spec_idx(self) -> IdxA {
        match self {
            RegA::A8(i) => i,
            RegA::A16(i) => i,
            RegA::A32(i) => i,
            RegA::A64(i) => i,
            RegA::A128(i) => i,
        }
    }

    /// Index of the register.
    #[verifier::when_used_as_spec(spec_idx)]
    pub fn idx(self) -> (r: IdxA)
        ensures
            r == self.spec_idx(),
    {
        match self {
            RegA::A8(i) => i,
            RegA::A16(i) => i,
            RegA::A32(i) => i,
            RegA::A64(i) => i,
            RegA::A128(i) => i,
        }
    }

    /// Register named by a byte: the block code in the top three bits, which must be below 5
    /// (higher blocks are not part of this core), and the index in the low five bits.
    pub fn from_u8(val: u8) -> (r: RegA)
        requires
            val >> 5u8 < 5,
        ensures
            r.spec_a().spec_to_u3() == val >> 5u8,
            r.spec_idx().spec_pos() == val & 0x1Fu8,
    {
        let a = A::from_u3(val >> 5);
        assert(val & 0x1Fu8 < 32) by (bit_vector);
        let idx = IdxA::from_u5(val & 0x1F);
        RegA::with(a, idx)
    }

    /// Byte code of the register: the block code shifted left by five plus the index, the
    /// shift amount taking the sum as written (`a << 5 + idx`). A shift of eight or more bits
    /// overflows, so the index must be below 3; the bits shifted beyond the byte are dropped.
    pub fn to_u8(&self) -> (r: u8)
        requires
            self.spec_idx().spec_pos() < 3,
        ensures
            r == self.spec_a().spec_to_u3() << ((5 + self.spec_idx().spec_pos()) as u8),
    {
        let a = self.a().to_u3();
        let idx = self.idx().pos() as u8;
        a << (5 + idx)
    }
}

/// A register of the microcode core.
#[derive(Clone, Copy, PartialEq, Eq, Structural, Debug, Hash)]
pub enum Reg {
    /// Arithmetic register.
    A(RegA),
}

impl Reg {
    /// Size figure of the register (see [`RegA::bytes`]).
    pub fn bytes(self) -> (r: u16)
        ensures
            r == (match self {
                Reg::A(RegA::A8(_)) => 1u16,
                Reg::A(RegA::A16(_)) => 16u16,
                Reg::A(RegA::A32(_)) => 32u16,
                Reg::A(RegA::A64(_)) => 64u16,
                Reg::A(RegA::A128(_)) => 128u16,
            }),
    {
        match self {
            Reg::A(a) => a.bytes(),
        }
    }
}

/// Index of one of the first 16 registers of a block.
#[derive(Clone, Copy, PartialEq, Eq, Structural, Debug, Hash)]
pub struct IdxAl {
    idx: Reg16,
}

impl IdxAl {
    /// Position of the register.
    pub closed spec fn spec_pos(&self) -> usize {
        self.idx.spec_to_usize()
    }

    /// Index at a position below 16.
    pub fn from_expected(val: usize) -> (r: IdxAl)
        requires
            val < 16,
        ensures
            r.spec_pos() == val,
    {
        IdxAl { idx: Reg16::with(val as u8) }
    }

    /// 4-bit code of the index.
    pub fn to_u4(&self) -> (r: u8)
        ensures
            r == self.spec_pos(),
            r < 16,
    {
        self.idx.to_usize() as u8
    }

    /// The same register as an index within a block of 32.
    pub fn to_idx_a(&self) -> (r: IdxA)
        ensures
            r.spec_pos() == self.spec_pos(),
    {
        IdxA::from_expected(self.idx.to_usize())
    }
}

/// Identifier of a program, which sites refer to.
pub trait SiteId: Copy {}

/// Position in a program.
#[derive(Clone, Copy, PartialEq, Eq, Debug, Hash)]
pub struct Site<Id: SiteId> {
    /// Program.
    pub prog_id: Id,
    /// Offset in the program's code.
    pub offset: u16,
}

impl<Id: SiteId> Site<Id> {
    /// Site at `offset` in program `prog_id`.
    pub fn new(prog_id: Id, offset: u16) -> (r: Site<Id>)
        ensures
            r.prog_id == prog_id,
            r.offset == offset,
    {
        Site { prog_id, offset }
    }
}

/// Core extension that adds nothing.
#[derive(Clone, Copy, PartialEq, Eq, Structural, Debug)]
pub struct NoExt;

/// Initial values of the configurable core registers.
#[derive(Clone, Copy, PartialEq, Eq, Structural, Debug)]
pub struct CoreConfig {
    /// Whether the core halts at the first failure.
    pub halt: bool,
    /// Complexity limit.
    pub complexity_lim: Option<u64>,
    /// Order of the finite field of the field arithmetic.
    pub field_order: Fq,
}

impl Default for CoreConfig {
    fn default() -> (r: CoreConfig)
        ensures
            r == (CoreConfig { halt: true, complexity_lim: None, field_order: Fq::F1137119 }),
    {
        CoreConfig { halt: true, complexity_lim: None, field_order: Fq::F1137119 }
    }
}

/// Order of a finite field.
#[derive(Clone, Copy, PartialEq, Eq, Structural, Debug, Hash)]
pub enum Fq {
    /// `2^31 - 1`.
    M31,
    /// `1 + 11 * 37 * 2^119`.
    F1137119,
    /// `2^128 - 9`, written as the largest 128-bit value minus 8.
    F1289,
    /// Another order.
    Other(u128),
}

impl Fq {
    /// The order as a number.
    pub open spec fn spec_to_u128(self) -> u128 {
        match self {
            Fq::M31 => 0x7FFF_FFFF,
            Fq::F1137119 => 0xCB80_0000_0000_0000_0000_0000_0000_0001,
            Fq::F1289 => 0xFFFF_FFFF_FFFF_FFFF_FFFF_FFFF_FFFF_FFF7,
            Fq::Other(v) => v,
        }
    }

    /// The order as a number.
    #[verifier::when_used_as_spec(spec_to_u128)]
    pub fn to_u128(self) -> (r: u128)
        ensures
            r == self.spec_to_u128(),
    {
        match self {
            Fq::M31 => 0x7FFF_FFFF,
            Fq::F1137119 => 0xCB80_0000_0000_0000_0000_0000_0000_0001,
            Fq::F1289 => 0xFFFF_FFFF_FFFF_FFFF_FFFF_FFFF_FFFF_FFF7,
            Fq::Other(v) => v,
        }
    }
}

/// The orders of the named fields are what their names say.
pub proof fn lemma_fq_orders()
    ensures
        Fq::M31.spec_to_u128() == pow2(31) - 1,
        Fq::F1137119.spec_to_u128() == 1 + 11 * 37 * pow2(119),
        Fq::F1289.spec_to_u128() == u128::MAX - 8,
{
    vstd::arithmetic::power2::lemma2_to64();
    vstd::arithmetic::power2::lemma_pow2_adds(64, 55);
    vstd::arithmetic::power2::lemma_pow2_adds(32, 23);
    assert(pow2(55) == 0x80_0000_0000_0000);
    assert(pow2(119) == 0x80_0000_0000_0000 * 0x1_0000_0000_0000_0000);
}

/// Largest depth of the call stack of a core.
pub const CALL_STACK_SIZE_MAX: u16 = 0xFF;

/// Abstract content of a [`Core`].
pub struct CoreModel<Id: SiteId> {
    /// `a8` registers.
    pub a8: Seq<Option<u8>>,
    /// `a16` registers.
    pub a16: Seq<Option<u16>>,
    /// `a32` registers.
    pub a32: Seq<Option<u32>>,
    /// `a64` registers.
    pub a64: Seq<Option<u64>>,
    /// `a128` registers.
    pub a128: Seq<Option<u128>>,
    /// Halt register: whether the first failure stops the program.
    pub ch: bool,
    /// Check register.
    pub ck: Status,
    /// Number of failures so far.
    pub cf: u64,
    /// Test (carry) register.
    pub co: bool,
    /// Number of jumps.
    pub cy: u16,
    /// Complexity accumulator.
    pub ca: u64,
    /// Complexity limit.
    pub cl: Option<u64>,
    /// Call stack, the latest call last.
    pub cs: Seq<Site<Id>>,
    /// Order of the finite field.
    pub fq: Fq,
}

/// Control registers of a core: halt, check and failure count, test flag, jump counter,
/// complexity accumulator and limit, and a call stack of at most `CALL_STACK_SIZE` sites.
#[derive(Clone, Debug)]
pub struct Core<Id: SiteId, const CALL_STACK_SIZE: usize> {
    a8: Vec<Option<u8>>,
    a16: Vec<Option<u16>>,
    a32: Vec<Option<u32>>,
    a64: Vec<Option<u64>>,
    a128: Vec<Option<u128>>,
    ch: bool,
    ck: Status,
    cf: u64,
    co: bool,
    cy: u16,
    ca: u64,
    cl: Option<u64>,
    cs: Vec<Site<Id>>,
    fq: Fq,
}

impl<Id: SiteId, const CALL_STACK_SIZE: usize> View for Core<Id, CALL_STACK_SIZE> {
    type V = CoreModel<Id>;

    closed spec fn view(&self) -> CoreModel<Id> {
        CoreModel {
            a8: self.a8@,
            a16: self.a16@,
            a32: self.a32@,
            a64: self.a64@,
            a128: self.a128@,
            ch: self.ch,
            ck: self.ck,
            cf: self.cf,
            co: self.co,
            cy: self.cy,
            ca: self.ca,
            cl: self.cl,
            cs: self.cs@,
            fq: self.fq,
        }
    }
}

impl<Id: SiteId, const CALL_STACK_SIZE: usize> Core<Id, CALL_STACK_SIZE> {
    /// Whether the call stack fits its size.
    pub open spec fn wf(&self) -> bool {
        &&& self@.cs.len() <= CALL_STACK_SIZE <= CALL_STACK_SIZE_MAX
        &&& self@.a8.len() == 32
        &&& self@.a16.len() == 32
        &&& self@.a32.len() == 32
        &&& self@.a64.len() == 32
        &&& self@.a128.len() == 32
    }

    /// Core configured by `config`: all arithmetic registers unset, the check register clear,
    /// no failures, the test flag unset, no jumps, no complexity and an empty call stack.
    pub fn with(config: CoreConfig) -> (r: Self)
        requires
            CALL_STACK_SIZE <= CALL_STACK_SIZE_MAX,
        ensures
            r.wf(),
            r@ == (CoreModel::<Id> {
                a8: Seq::new(32, |i: int| None::<u8>),
                a16: Seq::new(32, |i: int| None::<u16>),
                a32: Seq::new(32, |i: int| None::<u32>),
                a64: Seq::new(32, |i: int| None::<u64>),
                a128: Seq::new(32, |i: int| None::<u128>),
                ch: config.halt,
                ck: Status::Success,
                cf: 0,
                co: false,
                cy: 0,
                ca: 0,
                cl: config.complexity_lim,
                cs: Seq::empty(),
                fq: config.field_order,
            }),
    {
        let mut a8: Vec<Option<u8>> = Vec::new();
        let mut a16: Vec<Option<u16>> = Vec::new();
        let mut a32: Vec<Option<u32>> = Vec::new();
        let mut a64: Vec<Option<u64>> = Vec::new();
        let mut a128: Vec<Option<u128>> = Vec::new();
        let mut i: usize = 0;
        while i < 32
            invariant
                i <= 32,
                a8@ == Seq::new(i as nat, |k: int| None::<u8>),
                a16@ == Seq::new(i as nat, |k: int| None::<u16>),
                a32@ == Seq::new(i as nat, |k: int| None::<u32>),
                a64@ == Seq::new(i as nat, |k: int| None::<u64>),
                a128@ == Seq::new(i as nat, |k: int| None::<u128>),
            decreases 32 - i,
        {
            a8.push(None);
            a16.push(None);
            a32.push(None);
            a64.push(None);
            a128.push(None);
            i = i + 1;
            assert(a8@ =~= Seq::new(i as nat, |k: int| None::<u8>));
            assert(a16@ =~= Seq::new(i as nat, |k: int| None::<u16>));
            assert(a32@ =~= Seq::new(i as nat, |k: int| None::<u32>));
            assert(a64@ =~= Seq::new(i as nat, |k: int| None::<u64>));
            assert(a128@ =~= Seq::new(i as nat, |k: int| None::<u128>));
        }
        Core {
            a8,
            a16,
            a32,
            a64,
            a128,
            ch: config.halt,
            ck: Status::Success,
            cf: 0,
            co: false,
            cy: 0,
            ca: 0,
            cl: config.complexity_lim,
            cs: Vec::new(),
            fq: config.field_order,
        }
    }

    /// Core with the default configuration: halting at the first failure, no complexity
    /// limit, and the field order `1 + 11 * 37 * 2^119`.
    pub fn new() -> (r: Self)
        requires
            CALL_STACK_SIZE <= CALL_STACK_SIZE_MAX,
        ensures
            r.wf(),
            r@ == (CoreModel::<Id> {
                a8: Seq::new(32, |i: int| None::<u8>),
                a16: Seq::new(32, |i: int| None::<u16>),
                a32: Seq::new(32, |i: int| None::<u32>),
                a64: Seq::new(32, |i: int| None::<u64>),
                a128: Seq::new(32, |i: int| None::<u128>),
                ch: true,
                ck: Status::Success,
                cf: 0,
                co: false,
                cy: 0,
                ca: 0,
                cl: None,
                cs: Seq::empty(),
                fq: Fq::F1137119,
            }),
    {
        Core::with(CoreConfig::default())
    }

    /// Resets the registers to those of a new core (the default field order among them),
    /// keeping the halt register and the complexity limit.
    pub fn reset(&mut self)
        requires
            old(self).wf(),
        ensures
            final(self).wf(),
            final(self)@ == (CoreModel::<Id> {
                a8: Seq::new(32, |i: int| None::<u8>),
                a16: Seq::new(32, |i: int| None::<u16>),
                a32: Seq::new(32, |i: int| None::<u32>),
                a64: Seq::new(32, |i: int| None::<u64>),
                a128: Seq::new(32, |i: int| None::<u128>),
                ch: old(self)@.ch,
                ck: Status::Success,
                cf: 0,
                co: false,
                cy: 0,
                ca: 0,
                cl: old(self)@.cl,
                cs: Seq::empty(),
                fq: Fq::F1137119,
            }),
    {
        let mut fresh: Self = Core::new();
        fresh.ch = self.ch;
        fresh.cl = self.cl;
        *self = fresh;
    }

    /// Test (carry) register.
    pub fn co(&self) -> (r: bool)
        ensures
            r == self@.co,
    {
        self.co
    }

    /// Sets the test (carry) register.
    pub fn set_co(&mut self, co: bool)
        ensures
            final(self)@ == (CoreModel::<Id> { co, ..old(self)@ }),
    {
        self.co = co;
    }

    /// Number of failures so far.
    pub fn cf(&self) -> (r: u64)
        ensures
            r == self@.cf,
    {
        self.cf
    }

    /// Whether a failure happened at least once.
    pub fn has_failed(&self) -> (r: bool)
        ensures
            r == (self@.cf > 0),
    {
        self.cf > 0
    }

    /// Check register.
    pub fn ck(&self) -> (r: Status)
        ensures
            r == self@.ck,
    {
        self.ck
    }

    /// Records a failure in the check register and the failure count, and tells whether the
    /// program must stop (the halt register).
    pub fn fail_ck(&mut self) -> (r: bool)
        requires
            old(self)@.cf < u64::MAX,
        ensures
            final(self)@ == (CoreModel::<Id> {
                ck: Status::Fail,
                cf: (old(self)@.cf + 1) as u64,
                ..old(self)@
            }),
            r == old(self)@.ch,
    {
        self.ck = Status::Fail;
        self.cf = self.cf + 1;
        self.ch
    }

    /// Clears the check register.
    pub fn reset_ck(&mut self)
        ensures
            final(self)@ == (CoreModel::<Id> { ck: Status::Success, ..old(self)@ }),
    {
        self.ck = Status::Success;
    }

    /// Depth of the call stack.
    pub fn cp(&self) -> (r: u16)
        requires
            self.wf(),
        ensures
            r == self@.cs.len(),
    {
        self.cs.len() as u16
    }

    /// Pushes a site to the call stack, giving the new depth, or nothing when the stack is
    /// full.
    pub fn push_cs(&mut self, from: Site<Id>) -> (r: Option<u16>)
        requires
            old(self).wf(),
        ensures
            final(self).wf(),
            old(self)@.cs.len() >= CALL_STACK_SIZE ==> r is None && final(self)@ == old(self)@,
            old(self)@.cs.len() < CALL_STACK_SIZE ==> r == Some((old(self)@.cs.len() + 1) as u16)
                && final(self)@ == (CoreModel::<Id> { cs: old(self)@.cs.push(from), ..old(self)@ }),
    {
        if self.cs.len() >= CALL_STACK_SIZE {
            return None;
        }
        self.cs.push(from);
        Some(self.cs.len() as u16)
    }

    /// Pops the latest site from the call stack, if there is one.
    pub fn pop_cs(&mut self) -> (r: Option<Site<Id>>)
        requires
            old(self).wf(),
        ensures
            final(self).wf(),
            old(self)@.cs.len() == 0 ==> r is None && final(self)@ == old(self)@,
            old(self)@.cs.len() > 0 ==> r == Some(old(self)@.cs.last()) && final(self)@ == (
            CoreModel::<Id> { cs: old(self)@.cs.drop_last(), ..old(self)@ }),
    {
        self.cs.pop()
    }

    /// Complexity limit.
    pub fn cl(&self) -> (r: Option<u64>)
        ensures
            r == self@.cl,
    {
        self.cl
    }

    /// Adds to the complexity accumulator (saturating at the largest value) and tells whether
    /// the limit, if there is one, is reached.
    pub fn acc_complexity(&mut self, complexity: u64) -> (r: bool)
        ensures
            final(self)@ == (CoreModel::<Id> {
                ca: if old(self)@.ca + complexity > u64::MAX {
                    u64::MAX
                } else {
                    (old(self)@.ca + complexity) as u64
                },
                ..old(self)@
            }),
            r == (match final(self)@.cl {
                Some(lim) => final(self)@.ca >= lim,
                None => false,
            }),
    {
        self.ca = self.ca.saturating_add(complexity);
        match self.cl {
            Some(lim) => self.ca >= lim,
            None => false,
        }
    }

    /// Value of a register, widened to 128 bits.
    pub fn get(&self, reg: Reg) -> (r: Option<u128>)
        requires
            self.wf(),
        ensures
            r == (match reg {
                Reg::A(a) => core_a(self@, a),
            }),
    {
        match reg {
            Reg::A(a) => self.a(a),
        }
    }

    /// Value of an arithmetic register, widened to 128 bits.
    pub fn a(&self, reg: RegA) -> (r: Option<u128>)
        requires
            self.wf(),
        ensures
            r == core_a(self@, reg),
    {
        match reg {
            RegA::A8(idx) => match self.a8(idx) {
                Some(v) => Some(v as u128),
                None => None,
            },
            RegA::A16(idx) => match self.a16(idx) {
                Some(v) => Some(v as u128),
                None => None,
            },
            RegA::A32(idx) => match self.a32(idx) {
                Some(v) => Some(v as u128),
                None => None,
            },
            RegA::A64(idx) => match self.a64(idx) {
                Some(v) => Some(v as u128),
                None => None,
            },
            RegA::A128(idx) => self.a128(idx),
        }
    }

    /// Clears an arithmetic register, telling whether it held a value.
    pub fn clr_a(&mut self, reg: RegA) -> (r: bool)
        requires
            old(self).wf(),
        ensures
            final(self).wf(),
            final(self)@ == core_put_a(old(self)@, reg, None),
            r == core_a(old(self)@, reg) is Some,
    {
        match reg {
            RegA::A8(idx) => self.clr_a8(idx),
            RegA::A16(idx) => self.clr_a16(idx),
            RegA::A32(idx) => self.clr_a32(idx),
            RegA::A64(idx) => self.clr_a64(idx),
            RegA::A128(idx) => self.clr_a128(idx),
        }
    }

    /// Sets an arithmetic register to the low bits of `val` that fit it, telling whether it
    /// held a value before.
    pub fn set_a(&mut self, reg: RegA, val: u128) -> (r: bool)
        requires
            old(self).wf(),
        ensures
            final(self).wf(),
            final(self)@ == core_put_a(old(self)@, reg, Some(val)),
            r == core_a(old(self)@, reg) is Some,
    {
        match reg {
            RegA::A8(idx) => self.set_a8(idx, val as u8),
            RegA::A16(idx) => self.set_a16(idx, val as u16),
            RegA::A32(idx) => self.set_a32(idx, val as u32),
            RegA::A64(idx) => self.set_a64(idx, val as u64),
            RegA::A128(idx) => self.set_a128(idx, val),
        }
    }

    /// Clears an arithmetic register, giving its value widened to 128 bits.
    pub fn take_a(&mut self, reg: RegA) -> (r: Option<u128>)
        requires
            old(self).wf(),
        ensures
            final(self).wf(),
            final(self)@ == core_put_a(old(self)@, reg, None),
            r == core_a(old(self)@, reg),
    {
        match reg {
            RegA::A8(idx) => match self.take_a8(idx) {
                Some(v) => Some(v as u128),
                None => None,
            },
            RegA::A16(idx) => match self.take_a16(idx) {
                Some(v) => Some(v as u128),
                None => None,
            },
            RegA::A32(idx) => match self.take_a32(idx) {
                Some(v) => Some(v as u128),
                None => None,
            },
            RegA::A64(idx) => match self.take_a64(idx) {
                Some(v) => Some(v as u128),
                None => None,
            },
            RegA::A128(idx) => self.take_a128(idx),
        }
    }

    /// Sets an arithmetic register to the low bits of `val` that fit it, giving its previous
    /// value widened to 128 bits.
    pub fn swp_a(&mut self, reg: RegA, val: u128) -> (r: Option<u128>)
        requires
            old(self).wf(),
        ensures
            final(self).wf(),
            final(self)@ == core_put_a(old(self)@, reg, Some(val)),
            r == core_a(old(self)@, reg),
    {
        match reg {
            RegA::A8(idx) => match self.swp_a8(idx, val as u8) {
                Some(v) => Some(v as u128),
                None => None,
            },
            RegA::A16(idx) => match self.swp_a16(idx, val as u16) {
                Some(v) => Some(v as u128),
                None => None,
            },
            RegA::A32(idx) => match self.swp_a32(idx, val as u32) {
                Some(v) => Some(v as u128),
                None => None,
            },
            RegA::A64(idx) => match self.swp_a64(idx, val as u64) {
                Some(v) => Some(v as u128),
                None => None,
            },
            RegA::A128(idx) => self.swp_a128(idx, val),
        }
    }

    /// Value of register `a8[idx]`.
    pub fn a8(&self, idx: IdxA) -> (r: Option<u8>)
        requires
            self.wf(),
        ensures
            r == self@.a8[idx.spec_pos() as int],
    {
        self.a8[idx.pos()]
    }

    /// Clears register `a8[idx]`, telling whether it held a value.
    pub fn clr_a8(&mut self, idx: IdxA) -> (r: bool)
        requires
            old(self).wf(),
        ensures
            final(self).wf(),
            final(self)@ == (CoreModel::<Id> { a8: old(self)@.a8.update(idx.spec_pos() as int, None), ..old(self)@ }),
            r == old(self)@.a8[idx.spec_pos() as int] is Some,
    {
        self.take_a8(idx).is_some()
    }

    /// Clears register `a8[idx]`, giving its value.
    pub fn take_a8(&mut self, idx: IdxA) -> (r: Option<u8>)
        requires
            old(self).wf(),
        ensures
            final(self).wf(),
            final(self)@ == (CoreModel::<Id> { a8: old(self)@.a8.update(idx.spec_pos() as int, None), ..old(self)@ }),
            r == old(self)@.a8[idx.spec_pos() as int],
    {
        let i = idx.pos();
        let v = self.a8[i];
        self.a8.set(i, None);
        v
    }

    /// Sets register `a8[idx]`, telling whether it held a value before.
    pub fn set_a8(&mut self, idx: IdxA, val: u8) -> (r: bool)
        requires
            old(self).wf(),
        ensures
            final(self).wf(),
            final(self)@ == (CoreModel::<Id> { a8: old(self)@.a8.update(idx.spec_pos() as int, Some(val)), ..old(self)@ }),
            r == old(self)@.a8[idx.spec_pos() as int] is Some,
    {
        self.swp_a8(idx, val).is_some()
    }

    /// Sets register `a8[idx]`, giving its previous value.
    pub fn swp_a8(&mut self, idx: IdxA, val: u8) -> (r: Option<u8>)
        requires
            old(self).wf(),
        ensures
            final(self).wf(),
            final(self)@ == (CoreModel::<Id> { a8: old(self)@.a8.update(idx.spec_pos() as int, Some(val)), ..old(self)@ }),
            r == old(self)@.a8[idx.spec_pos() as int],
    {
        let i = idx.pos();
        let v = self.a8[i];
        self.a8.set(i, Some(val));
        v
    }

    /// Value of register `a16[idx]`.
    pub fn a16(&self, idx: IdxA) -> (r: Option<u16>)
        requires
            self.wf(),
        ensures
            r == self@.a16[idx.spec_pos() as int],
    {
        self.a16[idx.pos()]
    }

    /// Clears register `a16[idx]`, telling whether it held a value.
    pub fn clr_a16(&mut self, idx: IdxA) -> (r: bool)
        requires
            old(self).wf(),
        ensures
            final(self).wf(),
            final(self)@ == (CoreModel::<Id> { a16: old(self)@.a16.update(idx.spec_pos() as int, None), ..old(self)@ }),
            r == old(self)@.a16[idx.spec_pos() as int] is Some,
    {
        self.take_a16(idx).is_some()
    }

    /// Clears register `a16[idx]`, giving its value.
    pub fn take_a16(&mut self, idx: IdxA) -> (r: Option<u16>)
        requires
            old(self).wf(),
        ensures
            final(self).wf(),
            final(self)@ == (CoreModel::<Id> { a16: old(self)@.a16.update(idx.spec_pos() as int, None), ..old(self)@ }),
            r == old(self)@.a16[idx.spec_pos() as int],
    {
        let i = idx.pos();
        let v = self.a16[i];
        self.a16.set(i, None);
        v
    }

    /// Sets register `a16[idx]`, telling whether it held a value before.
    pub fn set_a16(&mut self, idx: IdxA, val: u16) -> (r: bool)
        requires
            old(self).wf(),
        ensures
            final(self).wf(),
            final(self)@ == (CoreModel::<Id> { a16: old(self)@.a16.update(idx.spec_pos() as int, Some(val)), ..old(self)@ }),
            r == old(self)@.a16[idx.spec_pos() as int] is Some,
    {
        self.swp_a16(idx, val).is_some()
    }

    /// Sets register `a16[idx]`, giving its previous value.
    pub fn swp_a16(&mut self, idx: IdxA, val: u16) -> (r: Option<u16>)
        requires
            old(self).wf(),
        ensures
            final(self).wf(),
            final(self)@ == (CoreModel::<Id> { a16: old(self)@.a16.update(idx.spec_pos() as int, Some(val)), ..old(self)@ }),
            r == old(self)@.a16[idx.spec_pos() as int],
    {
        let i = idx.pos();
        let v = self.a16[i];
        self.a16.set(i, Some(val));
        v
    }

    /// Value of register `a32[idx]`.
    pub fn a32(&self, idx: IdxA) -> (r: Option<u32>)
        requires
            self.wf(),
        ensures
            r == self@.a32[idx.spec_pos() as int],
    {
        self.a32[idx.pos()]
    }

    /// Clears register `a32[idx]`, telling whether it held a value.
    pub fn clr_a32(&mut self, idx: IdxA) -> (r: bool)
        requires
            old(self).wf(),
        ensures
            final(self).wf(),
            final(self)@ == (CoreModel::<Id> { a32: old(self)@.a32.update(idx.spec_pos() as int, None), ..old(self)@ }),
            r == old(self)@.a32[idx.spec_pos() as int] is Some,
    {
        self.take_a32(idx).is_some()
    }

    /// Clears register `a32[idx]`, giving its value.
    pub fn take_a32(&mut self, idx: IdxA) -> (r: Option<u32>)
        requires
            old(self).wf(),
        ensures
            final(self).wf(),
            final(self)@ == (CoreModel::<Id> { a32: old(self)@.a32.update(idx.spec_pos() as int, None), ..old(self)@ }),
            r == old(self)@.a32[idx.spec_pos() as int],
    {
        let i = idx.pos();
        let v = self.a32[i];
        self.a32.set(i, None);
        v
    }

    /// Sets register `a32[idx]`, telling whether it held a value before.
    pub fn set_a32(&mut self, idx: IdxA, val: u32) -> (r: bool)
        requires
            old(self).wf(),
        ensures
            final(self).wf(),
            final(self)@ == (CoreModel::<Id> { a32: old(self)@.a32.update(idx.spec_pos() as int, Some(val)), ..old(self)@ }),
            r == old(self)@.a32[idx.spec_pos() as int] is Some,
    {
        self.swp_a32(idx, val).is_some()
    }

    /// Sets register `a32[idx]`, giving its previous value.
    pub fn swp_a32(&mut self, idx: IdxA, val: u32) -> (r: Option<u32>)
        requires
            old(self).wf(),
        ensures
            final(self).wf(),
            final(self)@ == (CoreModel::<Id> { a32: old(self)@.a32.update(idx.spec_pos() as int, Some(val)), ..old(self)@ }),
            r == old(self)@.a32[idx.spec_pos() as int],
    {
        let i = idx.pos();
        let v = self.a32[i];
        self.a32.set(i, Some(val));
        v
    }

    /// Value of register `a64[idx]`.
    pub fn a64(&self, idx: IdxA) -> (r: Option<u64>)
        requires
            self.wf(),
        ensures
            r == self@.a64[idx.spec_pos() as int],
    {
        self.a64[idx.pos()]
    }

    /// Clears register `a64[idx]`, telling whether it held a value.
    pub fn clr_a64(&mut self, idx: IdxA) -> (r: bool)
        requires
            old(self).wf(),
        ensures
            final(self).wf(),
            final(self)@ == (CoreModel::<Id> { a64: old(self)@.a64.update(idx.spec_pos() as int, None), ..old(self)@ }),
            r == old(self)@.a64[idx.spec_pos() as int] is Some,
    {
        self.take_a64(idx).is_some()
    }

    /// Clears register `a64[idx]`, giving its value.
    pub fn take_a64(&mut self, idx: IdxA) -> (r: Option<u64>)
        requires
            old(self).wf(),
        ensures
            final(self).wf(),
            final(self)@ == (CoreModel::<Id> { a64: old(self)@.a64.update(idx.spec_pos() as int, None), ..old(self)@ }),
            r == old(self)@.a64[idx.spec_pos() as int],
    {
        let i = idx.pos();
        let v = self.a64[i];
        self.a64.set(i, None);
        v
    }

    /// Sets register `a64[idx]`, telling whether it held a value before.
    pub fn set_a64(&mut self, idx: IdxA, val: u64) -> (r: bool)
        requires
            old(self).wf(),
        ensures
            final(self).wf(),
            final(self)@ == (CoreModel::<Id> { a64: old(self)@.a64.update(idx.spec_pos() as int, Some(val)), ..old(self)@ }),
            r == old(self)@.a64[idx.spec_pos() as int] is Some,
    {
        self.swp_a64(idx, val).is_some()
    }

    /// Sets register `a64[idx]`, giving its previous value.
    pub fn swp_a64(&mut self, idx: IdxA, val: u64) -> (r: Option<u64>)
        requires
            old(self).wf(),
        ensures
            final(self).wf(),
            final(self)@ == (CoreModel::<Id> { a64: old(self)@.a64.update(idx.spec_pos() as int, Some(val)), ..old(self)@ }),
            r == old(self)@.a64[idx.spec_pos() as int],
    {
        let i = idx.pos();
        let v = self.a64[i];
        self.a64.set(i, Some(val));
        v
    }

    /// Value of register `a128[idx]`.
    pub fn a128(&self, idx: IdxA) -> (r: Option<u128>)
        requires
            self.wf(),
        ensures
            r == self@.a128[idx.spec_pos() as int],
    {
        self.a128[idx.pos()]
    }

    /// Clears register `a128[idx]`, telling whether it held a value.
    pub fn clr_a128(&mut self, idx: IdxA) -> (r: bool)
        requires
            old(self).wf(),
        ensures
            final(self).wf(),
            final(self)@ == (CoreModel::<Id> { a128: old(self)@.a128.update(idx.spec_pos() as int, None), ..old(self)@ }),
            r == old(self)@.a128[idx.spec_pos() as int] is Some,
    {
        self.take_a128(idx).is_some()
    }

    /// Clears register `a128[idx]`, giving its value.
    pub fn take_a128(&mut self, idx: IdxA) -> (r: Option<u128>)
        requires
            old(self).wf(),
        ensures
            final(self).wf(),
            final(self)@ == (CoreModel::<Id> { a128: old(self)@.a128.update(idx.spec_pos() as int, None), ..old(self)@ }),
            r == old(self)@.a128[idx.spec_pos() as int],
    {
        let i = idx.pos();
        let v = self.a128[i];
        self.a128.set(i, None);
        v
    }

    /// Sets register `a128[idx]`, telling whether it held a value before.
    pub fn set_a128(&mut self, idx: IdxA, val: u128) -> (r: bool)
        requires
            old(self).wf(),
        ensures
            final(self).wf(),
            final(self)@ == (CoreModel::<Id> { a128: old(self)@.a128.update(idx.spec_pos() as int, Some(val)), ..old(self)@ }),
            r == old(self)@.a128[idx.spec_pos() as int] is Some,
    {
        self.swp_a128(idx, val).is_some()
    }

    /// Sets register `a128[idx]`, giving its previous value.
    pub fn swp_a128(&mut self, idx: IdxA, val: u128) -> (r: Option<u128>)
        requires
            old(self).wf(),
        ensures
            final(self).wf(),
            final(self)@ == (CoreModel::<Id> { a128: old(self)@.a128.update(idx.spec_pos() as int, Some(val)), ..old(self)@ }),
            r == old(self)@.a128[idx.spec_pos() as int],
    {
        let i = idx.pos();
        let v = self.a128[i];
        self.a128.set(i, Some(val));
        v
    }

    /// Arithmetic registers that hold values, in block order and then index order, with their
    /// values widened to 128 bits.
    pub fn a_values(&self) -> (r: Vec<(RegA, u128)>)
        requires
            self.wf(),
        ensures
            r@ == core_a_values(self@),
    {
        let mut out: Vec<(RegA, u128)> = Vec::new();
        let ghost w8 = self@.a8.map_values(|o: Option<u8>| widen8(o));
        let ghost before8 = out@;
        let mut i: usize = 0;
        while i < 32
            invariant
                i <= 32,
                self.wf(),
                w8 == self@.a8.map_values(|o: Option<u8>| widen8(o)),
                out@ == before8 + set_in(w8, i as nat, A::A8),
            decreases 32 - i,
        {
            if let Some(v) = self.a8[i] {
                out.push((RegA::A8(IdxA::from_expected(i)), v as u128));
            }
            i = i + 1;
            assert(out@ =~= before8 + set_in(w8, i as nat, A::A8));
        }
        let ghost w16 = self@.a16.map_values(|o: Option<u16>| widen16(o));
        let ghost before16 = out@;
        let mut i: usize = 0;
        while i < 32
            invariant
                i <= 32,
                self.wf(),
                w16 == self@.a16.map_values(|o: Option<u16>| widen16(o)),
                out@ == before16 + set_in(w16, i as nat, A::A16),
            decreases 32 - i,
        {
            if let Some(v) = self.a16[i] {
                out.push((RegA::A16(IdxA::from_expected(i)), v as u128));
            }
            i = i + 1;
            assert(out@ =~= before16 + set_in(w16, i as nat, A::A16));
        }
        let ghost w32 = self@.a32.map_values(|o: Option<u32>| widen32(o));
        let ghost before32 = out@;
        let mut i: usize = 0;
        while i < 32
            invariant
                i <= 32,
                self.wf(),
                w32 == self@.a32.map_values(|o: Option<u32>| widen32(o)),
                out@ == before32 + set_in(w32, i as nat, A::A32),
            decreases 32 - i,
        {
            if let Some(v) = self.a32[i] {
                out.push((RegA::A32(IdxA::from_expected(i)), v as u128));
            }
            i = i + 1;
            assert(out@ =~= before32 + set_in(w32, i as nat, A::A32));
        }
        let ghost w64 = self@.a64.map_values(|o: Option<u64>| widen64(o));
        let ghost before64 = out@;
        let mut i: usize = 0;
        while i < 32
            invariant
                i <= 32,
                self.wf(),
                w64 == self@.a64.map_values(|o: Option<u64>| widen64(o)),
                out@ == before64 + set_in(w64, i as nat, A::A64),
            decreases 32 - i,
        {
            if let Some(v) = self.a64[i] {
                out.push((RegA::A64(IdxA::from_expected(i)), v as u128));
            }
            i = i + 1;
            assert(out@ =~= before64 + set_in(w64, i as nat, A::A64));
        }
        let ghost w128 = self@.a128;
        let ghost before128 = out@;
        let mut i: usize = 0;
        while i < 32
            invariant
                i <= 32,
                self.wf(),
                w128 == self@.a128,
                out@ == before128 + set_in(w128, i as nat, A::A128),
            decreases 32 - i,
        {
            if let Some(v) = self.a128[i] {
                out.push((RegA::A128(IdxA::from_expected(i)), v as u128));
            }
            i = i + 1;
            assert(out@ =~= before128 + set_in(w128, i as nat, A::A128));
        }
        assert(out@ =~= core_a_values(self@));
        out
    }

    /// Order of the finite field.
    pub fn fq(&self) -> (r: Fq)
        ensures
            r == self@.fq,
    {
        self.fq
    }

    /// Order of the finite field as a number.
    pub fn fq_u128(&self) -> (r: u128)
        ensures
            r == self@.fq.spec_to_u128(),
    {
        self.fq.to_u128()
    }

    /// Sum of two field elements (see [`add_mod_value`]), or nothing when one of them is not
    /// below the order; the test register tells whether the sum overflowed 128 bits.
    pub fn add_mod(&mut self, a: u128, b: u128) -> (r: Option<u128>)
        ensures
            ({
                let order = old(self)@.fq.spec_to_u128();
                if a >= order || b >= order {
                    r is None && final(self)@ == old(self)@
                } else {
                    r == Some(add_mod_value(a, b, order))
                        && final(self)@ == (CoreModel::<Id> { co: a + b > u128::MAX, ..old(self)@ })
                }
            }),
    {
        let order = self.fq.to_u128();
        if a >= order || b >= order {
            return None;
        }
        let overflow = a > u128::MAX - b;
        let mut res: u128 = if overflow {
            a - (u128::MAX - b) - 1
        } else {
            a + b
        };
        if overflow {
            res += u128::MAX - order;
        }
        res %= order;
        self.set_co(overflow);
        Some(res)
    }

    /// Negation of a field element: the order minus the element, or nothing when the element
    /// is not below the order. Zero gives the order itself.
    pub fn neg_mod(&self, a: u128) -> (r: Option<u128>)
        ensures
            ({
                let order = self@.fq.spec_to_u128();
                if a >= order {
                    r is None
                } else {
                    r == Some((order - a) as u128)
                }
            }),
    {
        let order = self.fq.to_u128();
        if a >= order {
            return None;
        }
        Some(order - a)
    }
}

/// Value of an arithmetic register of the model, widened to 128 bits.
pub open spec fn core_a<Id: SiteId>(m: CoreModel<Id>, reg: RegA) -> Option<u128> {
    match reg {
        RegA::A8(i) => widen8(m.a8[i.spec_pos() as int]),
        RegA::A16(i) => widen16(m.a16[i.spec_pos() as int]),
        RegA::A32(i) => widen32(m.a32[i.spec_pos() as int]),
        RegA::A64(i) => widen64(m.a64[i.spec_pos() as int]),
        RegA::A128(i) => m.a128[i.spec_pos() as int],
    }
}

/// A value cut to its low `8` bits, or nothing.
pub open spec fn cut8(v: Option<u128>) -> Option<u8> {
    match v {
        Some(x) => Some(x as u8),
        None => None,
    }
}

/// A value cut to its low `16` bits, or nothing.
pub open spec fn cut16(v: Option<u128>) -> Option<u16> {
    match v {
        Some(x) => Some(x as u16),
        None => None,
    }
}

/// A value cut to its low `32` bits, or nothing.
pub open spec fn cut32(v: Option<u128>) -> Option<u32> {
    match v {
        Some(x) => Some(x as u32),
        None => None,
    }
}

/// A value cut to its low `64` bits, or nothing.
pub open spec fn cut64(v: Option<u128>) -> Option<u64> {
    match v {
        Some(x) => Some(x as u64),
        None => None,
    }
}

/// A register value widened to 128 bits.
pub open spec fn widen8(o: Option<u8>) -> Option<u128> {
    match o {
        Some(v) => Some(v as u128),
        None => None,
    }
}

/// A register value widened to 128 bits.
pub open spec fn widen16(o: Option<u16>) -> Option<u128> {
    match o {
        Some(v) => Some(v as u128),
        None => None,
    }
}

/// A register value widened to 128 bits.
pub open spec fn widen32(o: Option<u32>) -> Option<u128> {
    match o {
        Some(v) => Some(v as u128),
        None => None,
    }
}

/// A register value widened to 128 bits.
pub open spec fn widen64(o: Option<u64>) -> Option<u128> {
    match o {
        Some(v) => Some(v as u128),
        None => None,
    }
}

/// The model with an arithmetic register set to `val` cut to the register's width, or cleared
/// when `val` is nothing.
pub open spec fn core_put_a<Id: SiteId>(m: CoreModel<Id>, reg: RegA, val: Option<u128>) -> CoreModel<Id> {
    match reg {
        RegA::A8(i) => CoreModel { a8: m.a8.update(i.spec_pos() as int, cut8(val)), ..m },
        RegA::A16(i) => CoreModel { a16: m.a16.update(i.spec_pos() as int, cut16(val)), ..m },
        RegA::A32(i) => CoreModel { a32: m.a32.update(i.spec_pos() as int, cut32(val)), ..m },
        RegA::A64(i) => CoreModel { a64: m.a64.update(i.spec_pos() as int, cut64(val)), ..m },
        RegA::A128(i) => CoreModel { a128: m.a128.update(i.spec_pos() as int, val), ..m },
    }
}

/// Register of block `a` at index `idx`.
pub open spec fn reg_at(a: A, idx: IdxA) -> RegA {
    match a {
        A::A8 => RegA::A8(idx),
        A::A16 => RegA::A16(idx),
        A::A32 => RegA::A32(idx),
        A::A64 => RegA::A64(idx),
        A::A128 => RegA::A128(idx),
    }
}

/// The set registers among the first `n` of block `a`, with their values.
pub open spec fn set_in(s: Seq<Option<u128>>, n: nat, a: A) -> Seq<(RegA, u128)>
    decreases n,
{
    if n == 0 {
        Seq::empty()
    } else {
        set_in(s, (n - 1) as nat, a) + match s[n - 1] {
            Some(v) => seq![(reg_at(a, IdxA::spec_at((n - 1) as nat)), v)],
            None => Seq::empty(),
        }
    }
}

/// The set arithmetic registers of all blocks, in block order and then index order, with their
/// values widened to 128 bits.
pub open spec fn core_a_values<Id: SiteId>(m: CoreModel<Id>) -> Seq<(RegA, u128)> {
    set_in(m.a8.map_values(|o: Option<u8>| widen8(o)), 32, A::A8)
        + set_in(m.a16.map_values(|o: Option<u16>| widen16(o)), 32, A::A16)
        + set_in(m.a32.map_values(|o: Option<u32>| widen32(o)), 32, A::A32)
        + set_in(m.a64.map_values(|o: Option<u64>| widen64(o)), 32, A::A64)
        + set_in(m.a128, 32, A::A128)
}

/// Sum of two elements below `order`, reduced by `order`. When the 128-bit sum overflows, the
/// lost `2^128` is made up by adding `u128::MAX - order`, one less than `2^128 - order`.
pub open spec fn add_mod_value(a: u128, b: u128, order: u128) -> u128 {
    if a + b <= u128::MAX {
        ((a + b) % (order as int)) as u128
    } else {
        ((a + b - 0x1_0000_0000_0000_0000_0000_0000_0000_0000int + (u128::MAX - order)) % (order as int)) as u128
    }
}

/// A site pushed to the call stack of a core is what the next pop gives back, and the pop
/// leaves the core as it was before the push.
pub proof fn law_push_then_pop<Id: SiteId>(m: CoreModel<Id>, site: Site<Id>)
    ensures
        ({
            let pushed = CoreModel::<Id> { cs: m.cs.push(site), ..m };
            &&& pushed.cs.len() > 0
            &&& pushed.cs.last() == site
            &&& (CoreModel::<Id> { cs: pushed.cs.drop_last(), ..pushed }) == m
        }),
{
    assert(m.cs.push(site).drop_last() =~= m.cs);
}

/// The low bits of `v` that fit register `reg`, widened back to 128 bits.
pub open spec fn fit_a(reg: RegA, v: u128) -> u128 {
    match reg {
        RegA::A8(_) => (v as u8) as u128,
        RegA::A16(_) => (v as u16) as u128,
        RegA::A32(_) => (v as u32) as u128,
        RegA::A64(_) => (v as u64) as u128,
        RegA::A128(_) => v,
    }
}

/// Writing an arithmetic register and reading it back gives the low bits of the value that
/// fit the register; clearing it leaves it unset; every other register keeps its value.
pub proof fn law_core_write_read<Id: SiteId>(m: CoreModel<Id>, reg: RegA, v: u128, other: RegA)
    requires
        m.a8.len() == 32,
        m.a16.len() == 32,
        m.a32.len() == 32,
        m.a64.len() == 32,
        m.a128.len() == 32,
    ensures
        core_a(core_put_a(m, reg, Some(v)), reg) == Some(fit_a(reg, v)),
        core_a(core_put_a(m, reg, None), reg) is None,
        other != reg ==> core_a(core_put_a(m, reg, Some(v)), other) == core_a(m, other),
        other != reg ==> core_a(core_put_a(m, reg, None), other) == core_a(m, other),
{
    lemma_idx_position(reg.spec_idx());
    lemma_idx_position(other.spec_idx());
}

} // verus!
