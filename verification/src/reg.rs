//! Register names: register blocks, their sizes and indexes.

use vstd::prelude::*;

use crate::layout::{IntLayout, Layout};

verus! {

/// Arithmetic (`a`) register blocks, by width.
#[derive(Clone, Copy, PartialEq, Eq, Structural, Debug, Hash, PartialOrd, Ord)]
pub enum RegA {
    /// 8-bit registers.
    A8,
    /// 16-bit registers.
    A16,
    /// 32-bit registers.
    A32,
    /// 64-bit registers.
    A64,
    /// 128-bit registers.
    A128,
    /// 256-bit registers.
    A256,
    /// 512-bit registers.
    A512,
    /// 1024-bit registers.
    A1024,
}

impl RegA {
    /// Width of the registers in bytes.
    pub open spec fn spec_bytes(self) -> u16 {
        match self {
            RegA::A8 => 1,
            RegA::A16 => 2,
            RegA::A32 => 4,
            RegA::A64 => 8,
            RegA::A128 => 16,
            RegA::A256 => 32,
            RegA::A512 => 64,
            RegA::A1024 => 128,
        }
    }

    /// Width of the registers in bytes.
    #[verifier::when_used_as_spec(spec_bytes)]
    pub fn bytes(self) -> (r: u16)
        ensures
            r == self.spec_bytes(),
    {
        match self {
            RegA::A8 => 1,
            RegA::A16 => 2,
            RegA::A32 => 4,
            RegA::A64 => 8,
            RegA::A128 => 16,
            RegA::A256 => 32,
            RegA::A512 => 64,
            RegA::A1024 => 128,
        }
    }

    /// Width of the registers in bits.
    pub fn bits(self) -> (r: u16)
        ensures
            r == 8 * self.spec_bytes(),
    {
        self.bytes() * 8
    }

    /// Position of the block among the `a` blocks.
    pub open spec fn spec_block(self) -> usize {
        match self {
            RegA::A8 => 0,
            RegA::A16 => 1,
            RegA::A32 => 2,
            RegA::A64 => 3,
            RegA::A128 => 4,
            RegA::A256 => 5,
            RegA::A512 => 6,
            RegA::A1024 => 7,
        }
    }

    /// Position of the block among the `a` blocks.
    #[verifier::when_used_as_spec(spec_block)]
    pub fn block(self) -> (r: usize)
        ensures
            r == self.spec_block(),
            r < 8,
    {
        match self {
            RegA::A8 => 0,
            RegA::A16 => 1,
            RegA::A32 => 2,
            RegA::A64 => 3,
            RegA::A128 => 4,
            RegA::A256 => 5,
            RegA::A512 => 6,
            RegA::A1024 => 7,
        }
    }

    /// Unsigned integer layout of the registers.
    pub open spec fn spec_int_layout(self) -> IntLayout {
        IntLayout { signed: false, bytes: self.spec_bytes() }
    }

    /// Unsigned integer layout of the registers.
    #[verifier::when_used_as_spec(spec_int_layout)]
    pub fn int_layout(self) -> (r: IntLayout)
        ensures
            r == self.spec_int_layout(),
    {
        IntLayout { signed: false, bytes: self.bytes() }
    }
}

/// General-purpose (`r`) register blocks, by width.
#[derive(Clone, Copy, PartialEq, Eq, Structural, Debug, Hash, PartialOrd, Ord)]
pub enum RegR {
    /// 128-bit registers.
    R128,
    /// 160-bit registers.
    R160,
    /// 256-bit registers.
    R256,
    /// 512-bit registers.
    R512,
    /// 1024-bit registers.
    R1024,
    /// 2048-bit registers.
    R2048,
    /// 4096-bit registers.
    R4096,
    /// 8192-bit registers.
    R8192,
}

impl RegR {
    /// Width of the registers in bytes.
    pub open spec fn spec_bytes(self) -> u16 {
        match self {
            RegR::R128 => 16,
            RegR::R160 => 20,
            RegR::R256 => 32,
            RegR::R512 => 64,
            RegR::R1024 => 128,
            RegR::R2048 => 256,
            RegR::R4096 => 512,
            RegR::R8192 => 1024,
        }
    }

    /// Width of the registers in bytes.
    #[verifier::when_used_as_spec(spec_bytes)]
    pub fn bytes(self) -> (r: u16)
        ensures
            r == self.spec_bytes(),
    {
        match self {
            RegR::R128 => 16,
            RegR::R160 => 20,
            RegR::R256 => 32,
            RegR::R512 => 64,
            RegR::R1024 => 128,
            RegR::R2048 => 256,
            RegR::R4096 => 512,
            RegR::R8192 => 1024,
        }
    }

    /// Position of the block among the `r` blocks.
    pub open spec fn spec_block(self) -> usize {
        match self {
            RegR::R128 => 0,
            RegR::R160 => 1,
            RegR::R256 => 2,
            RegR::R512 => 3,
            RegR::R1024 => 4,
            RegR::R2048 => 5,
            RegR::R4096 => 6,
            RegR::R8192 => 7,
        }
    }

    /// Position of the block among the `r` blocks.
    #[verifier::when_used_as_spec(spec_block)]
    pub fn block(self) -> (r: usize)
        ensures
            r == self.spec_block(),
            r < 8,
    {
        match self {
            RegR::R128 => 0,
            RegR::R160 => 1,
            RegR::R256 => 2,
            RegR::R512 => 3,
            RegR::R1024 => 4,
            RegR::R2048 => 5,
            RegR::R4096 => 6,
            RegR::R8192 => 7,
        }
    }
}

/// A numeric register block: arithmetic or general-purpose.
#[derive(Clone, Copy, PartialEq, Eq, Structural, Debug, Hash)]
pub enum RegAR {
    /// Arithmetic block.
    A(RegA),
    /// General-purpose block.
    R(RegR),
}

impl RegAR {
    /// Width of the registers in bytes.
    pub open spec fn spec_bytes(self) -> u16 {
        match self {
            RegAR::A(a) => a.spec_bytes(),
            RegAR::R(r) => r.spec_bytes(),
        }
    }

    /// Width of the registers in bytes.
    #[verifier::when_used_as_spec(spec_bytes)]
    pub fn bytes(self) -> (r: u16)
        ensures
            r == self.spec_bytes(),
    {
        match self {
            RegAR::A(a) => a.bytes(),
            RegAR::R(r) => r.bytes(),
        }
    }

    /// Width of the registers in bits.
    pub fn bits(self) -> (r: u16)
        ensures
            r == 8 * self.spec_bytes(),
    {
        self.bytes() * 8
    }

    /// Layout of the values the registers hold: unsigned integers of their width.
    pub open spec fn spec_layout(self) -> Layout {
        Layout::Integer(IntLayout { signed: false, bytes: self.spec_bytes() })
    }

    /// Layout of the values the registers hold: unsigned integers of their width.
    #[verifier::when_used_as_spec(spec_layout)]
    pub fn layout(self) -> (r: Layout)
        ensures
            r == self.spec_layout(),
    {
        Layout::unsigned(self.bytes())
    }

    /// Whether this is an arithmetic block.
    pub fn is_a(self) -> (r: bool)
        ensures
            r == (self is A),
    {
        match self {
            RegAR::A(_) => true,
            RegAR::R(_) => false,
        }
    }
}

/// The two arithmetic blocks that can hold a shift amount.
#[derive(Clone, Copy, PartialEq, Eq, Structural, Debug, Hash)]
pub enum RegA2 {
    /// 8-bit registers.
    A8,
    /// 16-bit registers.
    A16,
}

impl RegA2 {
    /// The arithmetic block.
    pub open spec fn spec_reg(self) -> RegA {
        match self {
            RegA2::A8 => RegA::A8,
            RegA2::A16 => RegA::A16,
        }
    }

    /// The arithmetic block.
    #[verifier::when_used_as_spec(spec_reg)]
    pub fn reg(self) -> (r: RegA)
        ensures
            r == self.spec_reg(),
    {
        match self {
            RegA2::A8 => RegA::A8,
            RegA2::A16 => RegA::A16,
        }
    }
}

/// Choice between the arithmetic and the general-purpose registers.
#[derive(Clone, Copy, PartialEq, Eq, Structural, Debug, Hash)]
pub enum RegBlockAR {
    /// Arithmetic registers.
    A,
    /// General-purpose registers.
    R,
}

impl RegBlockAR {
    /// Block of the given width in bits, if the register set has one.
    pub open spec fn spec_into_reg(self, bits: u16) -> Option<RegAR> {
        match (self, bits) {
            (RegBlockAR::A, 8) => Some(RegAR::A(RegA::A8)),
            (RegBlockAR::A, 16) => Some(RegAR::A(RegA::A16)),
            (RegBlockAR::A, 32) => Some(RegAR::A(RegA::A32)),
            (RegBlockAR::A, 64) => Some(RegAR::A(RegA::A64)),
            (RegBlockAR::A, 128) => Some(RegAR::A(RegA::A128)),
            (RegBlockAR::A, 256) => Some(RegAR::A(RegA::A256)),
            (RegBlockAR::A, 512) => Some(RegAR::A(RegA::A512)),
            (RegBlockAR::A, 1024) => Some(RegAR::A(RegA::A1024)),
            (RegBlockAR::R, 128) => Some(RegAR::R(RegR::R128)),
            (RegBlockAR::R, 160) => Some(RegAR::R(RegR::R160)),
            (RegBlockAR::R, 256) => Some(RegAR::R(RegR::R256)),
            (RegBlockAR::R, 512) => Some(RegAR::R(RegR::R512)),
            (RegBlockAR::R, 1024) => Some(RegAR::R(RegR::R1024)),
            (RegBlockAR::R, 2048) => Some(RegAR::R(RegR::R2048)),
            (RegBlockAR::R, 4096) => Some(RegAR::R(RegR::R4096)),
            (RegBlockAR::R, 8192) => Some(RegAR::R(RegR::R8192)),
            _ => None,
        }
    }

    /// Block of the given width in bits, if the register set has one.
    #[verifier::when_used_as_spec(spec_into_reg)]
    pub fn into_reg(self, bits: u16) -> (r: Option<RegAR>)
        ensures
            r == self.spec_into_reg(bits),
    {
        match (self, bits) {
            (RegBlockAR::A, 8) => Some(RegAR::A(RegA::A8)),
            (RegBlockAR::A, 16) => Some(RegAR::A(RegA::A16)),
            (RegBlockAR::A, 32) => Some(RegAR::A(RegA::A32)),
            (RegBlockAR::A, 64) => Some(RegAR::A(RegA::A64)),
            (RegBlockAR::A, 128) => Some(RegAR::A(RegA::A128)),
            (RegBlockAR::A, 256) => Some(RegAR::A(RegA::A256)),
            (RegBlockAR::A, 512) => Some(RegAR::A(RegA::A512)),
            (RegBlockAR::A, 1024) => Some(RegAR::A(RegA::A1024)),
            (RegBlockAR::R, 128) => Some(RegAR::R(RegR::R128)),
            (RegBlockAR::R, 160) => Some(RegAR::R(RegR::R160)),
            (RegBlockAR::R, 256) => Some(RegAR::R(RegR::R256)),
            (RegBlockAR::R, 512) => Some(RegAR::R(RegR::R512)),
            (RegBlockAR::R, 1024) => Some(RegAR::R(RegR::R1024)),
            (RegBlockAR::R, 2048) => Some(RegAR::R(RegR::R2048)),
            (RegBlockAR::R, 4096) => Some(RegAR::R(RegR::R4096)),
            (RegBlockAR::R, 8192) => Some(RegAR::R(RegR::R8192)),
            _ => None,
        }
    }
}

/// Index of a register within a block of 32.
#[derive(Clone, Copy, PartialEq, Eq, Structural, Debug, Hash, PartialOrd, Ord)]
pub enum Reg32 {
    /// Register 0.
    Reg0,
    /// Register 1.
    Reg1,
    /// Register 2.
    Reg2,
    /// Register 3.
    Reg3,
    /// Register 4.
    Reg4,
    /// Register 5.
    Reg5,
    /// Register 6.
    Reg6,
    /// Register 7.
    Reg7,
    /// Register 8.
    Reg8,
    /// Register 9.
    Reg9,
    /// Register 10.
    Reg10,
    /// Register 11.
    Reg11,
    /// Register 12.
    Reg12,
    /// Register 13.
    Reg13,
    /// Register 14.
    Reg14,
    /// Register 15.
    Reg15,
    /// Register 16.
    Reg16,
    /// Register 17.
    Reg17,
    /// Register 18.
    Reg18,
    /// Register 19.
    Reg19,
    /// Register 20.
    Reg20,
    /// Register 21.
    Reg21,
    /// Register 22.
    Reg22,
    /// Register 23.
    Reg23,
    /// Register 24.
    Reg24,
    /// Register 25.
    Reg25,
    /// Register 26.
    Reg26,
    /// Register 27.
    Reg27,
    /// Register 28.
    Reg28,
    /// Register 29.
    Reg29,
    /// Register 30.
    Reg30,
    /// Register 31.
    Reg31,
}

impl Reg32 {
    /// Register at a position below 32.
    pub open spec fn spec_with(i: nat) -> Reg32 {
        if i == 0 {
            Reg32::Reg0
        } else if i == 1 {
            Reg32::Reg1
        } else if i == 2 {
            Reg32::Reg2
        } else if i == 3 {
            Reg32::Reg3
        } else if i == 4 {
            Reg32::Reg4
        } else if i == 5 {
            Reg32::Reg5
        } else if i == 6 {
            Reg32::Reg6
        } else if i == 7 {
            Reg32::Reg7
        } else if i == 8 {
            Reg32::Reg8
        } else if i == 9 {
            Reg32::Reg9
        } else if i == 10 {
            Reg32::Reg10
        } else if i == 11 {
            Reg32::Reg11
        } else if i == 12 {
            Reg32::Reg12
        } else if i == 13 {
            Reg32::Reg13
        } else if i == 14 {
            Reg32::Reg14
        } else if i == 15 {
            Reg32::Reg15
        } else if i == 16 {
            Reg32::Reg16
        } else if i == 17 {
            Reg32::Reg17
        } else if i == 18 {
            Reg32::Reg18
        } else if i == 19 {
            Reg32::Reg19
        } else if i == 20 {
            Reg32::Reg20
        } else if i == 21 {
            Reg32::Reg21
        } else if i == 22 {
            Reg32::Reg22
        } else if i == 23 {
            Reg32::Reg23
        } else if i == 24 {
            Reg32::Reg24
        } else if i == 25 {
            Reg32::Reg25
        } else if i == 26 {
            Reg32::Reg26
        } else if i == 27 {
            Reg32::Reg27
        } else if i == 28 {
            Reg32::Reg28
        } else if i == 29 {
            Reg32::Reg29
        } else if i == 30 {
            Reg32::Reg30
        } else {
            Reg32::Reg31
        }
    }

    /// Position of the register.
    pub open spec fn spec_to_usize(self) -> usize {
        match self {
            Reg32::Reg0 => 0,
            Reg32::Reg1 => 1,
            Reg32::Reg2 => 2,
            Reg32::Reg3 => 3,
            Reg32::Reg4 => 4,
            Reg32::Reg5 => 5,
            Reg32::Reg6 => 6,
            Reg32::Reg7 => 7,
            Reg32::Reg8 => 8,
            Reg32::Reg9 => 9,
            Reg32::Reg10 => 10,
            Reg32::Reg11 => 11,
            Reg32::Reg12 => 12,
            Reg32::Reg13 => 13,
            Reg32::Reg14 => 14,
            Reg32::Reg15 => 15,
            Reg32::Reg16 => 16,
            Reg32::Reg17 => 17,
            Reg32::Reg18 => 18,
            Reg32::Reg19 => 19,
            Reg32::Reg20 => 20,
            Reg32::Reg21 => 21,
            Reg32::Reg22 => 22,
            Reg32::Reg23 => 23,
            Reg32::Reg24 => 24,
            Reg32::Reg25 => 25,
            Reg32::Reg26 => 26,
            Reg32::Reg27 => 27,
            Reg32::Reg28 => 28,
            Reg32::Reg29 => 29,
            Reg32::Reg30 => 30,
            Reg32::Reg31 => 31,
        }
    }

    /// Position of the register.
    #[verifier::when_used_as_spec(spec_to_usize)]
    pub fn to_usize(self) -> (r: usize)
        ensures
            r == self.spec_to_usize(),
            r < 32,
    {
        match self {
            Reg32::Reg0 => 0,
            Reg32::Reg1 => 1,
            Reg32::Reg2 => 2,
            Reg32::Reg3 => 3,
            Reg32::Reg4 => 4,
            Reg32::Reg5 => 5,
            Reg32::Reg6 => 6,
            Reg32::Reg7 => 7,
            Reg32::Reg8 => 8,
            Reg32::Reg9 => 9,
            Reg32::Reg10 => 10,
            Reg32::Reg11 => 11,
            Reg32::Reg12 => 12,
            Reg32::Reg13 => 13,
            Reg32::Reg14 => 14,
            Reg32::Reg15 => 15,
            Reg32::Reg16 => 16,
            Reg32::Reg17 => 17,
            Reg32::Reg18 => 18,
            Reg32::Reg19 => 19,
            Reg32::Reg20 => 20,
            Reg32::Reg21 => 21,
            Reg32::Reg22 => 22,
            Reg32::Reg23 => 23,
            Reg32::Reg24 => 24,
            Reg32::Reg25 => 25,
            Reg32::Reg26 => 26,
            Reg32::Reg27 => 27,
            Reg32::Reg28 => 28,
            Reg32::Reg29 => 29,
            Reg32::Reg30 => 30,
            Reg32::Reg31 => 31,
        }
    }

    /// Register at a position below 32.
    pub fn with(i: u8) -> (r: Reg32)
        requires
            i < 32,
        ensures
            r.spec_to_usize() == i,
            r == Reg32::spec_with(i as nat),
    {
        match i {
            0 => Reg32::Reg0,
            1 => Reg32::Reg1,
            2 => Reg32::Reg2,
            3 => Reg32::Reg3,
            4 => Reg32::Reg4,
            5 => Reg32::Reg5,
            6 => Reg32::Reg6,
            7 => Reg32::Reg7,
            8 => Reg32::Reg8,
            9 => Reg32::Reg9,
            10 => Reg32::Reg10,
            11 => Reg32::Reg11,
            12 => Reg32::Reg12,
            13 => Reg32::Reg13,
            14 => Reg32::Reg14,
            15 => Reg32::Reg15,
            16 => Reg32::Reg16,
            17 => Reg32::Reg17,
            18 => Reg32::Reg18,
            19 => Reg32::Reg19,
            20 => Reg32::Reg20,
            21 => Reg32::Reg21,
            22 => Reg32::Reg22,
            23 => Reg32::Reg23,
            24 => Reg32::Reg24,
            25 => Reg32::Reg25,
            26 => Reg32::Reg26,
            27 => Reg32::Reg27,
            28 => Reg32::Reg28,
            29 => Reg32::Reg29,
            30 => Reg32::Reg30,
            _ => Reg32::Reg31,
        }
    }
}

/// Index of one of the first 8 registers of a block.
#[derive(Clone, Copy, PartialEq, Eq, Structural, Debug, Hash)]
pub enum Reg8 {
    /// Register 0.
    Reg0,
    /// Register 1.
    Reg1,
    /// Register 2.
    Reg2,
    /// Register 3.
    Reg3,
    /// Register 4.
    Reg4,
    /// Register 5.
    Reg5,
    /// Register 6.
    Reg6,
    /// Register 7.
    Reg7,
}

impl Reg8 {
    /// Position of the register.
    pub open spec fn spec_to_usize(self) -> usize {
        match self {
            Reg8::Reg0 => 0,
            Reg8::Reg1 => 1,
            Reg8::Reg2 => 2,
            Reg8::Reg3 => 3,
            Reg8::Reg4 => 4,
            Reg8::Reg5 => 5,
            Reg8::Reg6 => 6,
            Reg8::Reg7 => 7,
        }
    }

    /// Position of the register.
    #[verifier::when_used_as_spec(spec_to_usize)]
    pub fn to_usize(self) -> (r: usize)
        ensures
            r == self.spec_to_usize(),
            r < 8,
    {
        match self {
            Reg8::Reg0 => 0,
            Reg8::Reg1 => 1,
            Reg8::Reg2 => 2,
            Reg8::Reg3 => 3,
            Reg8::Reg4 => 4,
            Reg8::Reg5 => 5,
            Reg8::Reg6 => 6,
            Reg8::Reg7 => 7,
        }
    }

    /// Register at a position below 8.
    pub fn with(i: u8) -> (r: Reg8)
        requires
            i < 8,
        ensures
            r.spec_to_usize() == i,
    {
        match i {
            0 => Reg8::Reg0,
            1 => Reg8::Reg1,
            2 => Reg8::Reg2,
            3 => Reg8::Reg3,
            4 => Reg8::Reg4,
            5 => Reg8::Reg5,
            6 => Reg8::Reg6,
            _ => Reg8::Reg7,
        }
    }
}

impl Reg8 {
    /// The same register as an index within a block of 32.
    pub open spec fn to_reg32_spec(self) -> Reg32 {
        match self {
            Reg8::Reg0 => Reg32::Reg0,
            Reg8::Reg1 => Reg32::Reg1,
            Reg8::Reg2 => Reg32::Reg2,
            Reg8::Reg3 => Reg32::Reg3,
            Reg8::Reg4 => Reg32::Reg4,
            Reg8::Reg5 => Reg32::Reg5,
            Reg8::Reg6 => Reg32::Reg6,
            Reg8::Reg7 => Reg32::Reg7,
        }
    }

    /// The same register as an index within a block of 32.
    #[verifier::when_used_as_spec(to_reg32_spec)]
    pub fn to_reg32(self) -> (r: Reg32)
        ensures
            r == self.to_reg32_spec(),
            r.spec_to_usize() == self.spec_to_usize(),
    {
        match self {
            Reg8::Reg0 => Reg32::Reg0,
            Reg8::Reg1 => Reg32::Reg1,
            Reg8::Reg2 => Reg32::Reg2,
            Reg8::Reg3 => Reg32::Reg3,
            Reg8::Reg4 => Reg32::Reg4,
            Reg8::Reg5 => Reg32::Reg5,
            Reg8::Reg6 => Reg32::Reg6,
            Reg8::Reg7 => Reg32::Reg7,
        }
    }
}

/// Index of a register within a block of 16.
#[derive(Clone, Copy, PartialEq, Eq, Structural, Debug, Hash)]
pub enum Reg16 {
    /// Register 0.
    Reg0,
    /// Register 1.
    Reg1,
    /// Register 2.
    Reg2,
    /// Register 3.
    Reg3,
    /// Register 4.
    Reg4,
    /// Register 5.
    Reg5,
    /// Register 6.
    Reg6,
    /// Register 7.
    Reg7,
    /// Register 8.
    Reg8,
    /// Register 9.
    Reg9,
    /// Register 10.
    Reg10,
    /// Register 11.
    Reg11,
    /// Register 12.
    Reg12,
    /// Register 13.
    Reg13,
    /// Register 14.
    Reg14,
    /// Register 15.
    Reg15,
}

impl Reg16 {
    /// Position of the register.
    pub open spec fn spec_to_usize(self) -> usize {
        match self {
            Reg16::Reg0 => 0,
            Reg16::Reg1 => 1,
            Reg16::Reg2 => 2,
            Reg16::Reg3 => 3,
            Reg16::Reg4 => 4,
            Reg16::Reg5 => 5,
            Reg16::Reg6 => 6,
            Reg16::Reg7 => 7,
            Reg16::Reg8 => 8,
            Reg16::Reg9 => 9,
            Reg16::Reg10 => 10,
            Reg16::Reg11 => 11,
            Reg16::Reg12 => 12,
            Reg16::Reg13 => 13,
            Reg16::Reg14 => 14,
            Reg16::Reg15 => 15,
        }
    }

    /// Position of the register.
    #[verifier::when_used_as_spec(spec_to_usize)]
    pub fn to_usize(self) -> (r: usize)
        ensures
            r == self.spec_to_usize(),
            r < 16,
    {
        match self {
            Reg16::Reg0 => 0,
            Reg16::Reg1 => 1,
            Reg16::Reg2 => 2,
            Reg16::Reg3 => 3,
            Reg16::Reg4 => 4,
            Reg16::Reg5 => 5,
            Reg16::Reg6 => 6,
            Reg16::Reg7 => 7,
            Reg16::Reg8 => 8,
            Reg16::Reg9 => 9,
            Reg16::Reg10 => 10,
            Reg16::Reg11 => 11,
            Reg16::Reg12 => 12,
            Reg16::Reg13 => 13,
            Reg16::Reg14 => 14,
            Reg16::Reg15 => 15,
        }
    }

    /// Register at a position below 16.
    pub fn with(i: u8) -> (r: Reg16)
        requires
            i < 16,
        ensures
            r.spec_to_usize() == i,
    {
        match i {
            0 => Reg16::Reg0,
            1 => Reg16::Reg1,
            2 => Reg16::Reg2,
            3 => Reg16::Reg3,
            4 => Reg16::Reg4,
            5 => Reg16::Reg5,
            6 => Reg16::Reg6,
            7 => Reg16::Reg7,
            8 => Reg16::Reg8,
            9 => Reg16::Reg9,
            10 => Reg16::Reg10,
            11 => Reg16::Reg11,
            12 => Reg16::Reg12,
            13 => Reg16::Reg13,
            14 => Reg16::Reg14,
            _ => Reg16::Reg15,
        }
    }
}

/// A register of the core: a numeric register (its block and index) or a byte string
/// register.
#[derive(Clone, Copy, PartialEq, Eq, Structural, PartialOrd, Ord, Debug, Hash)]
pub enum Reg {
    /// Arithmetic register.
    A(RegA, Reg32),
    /// General-purpose register.
    R(RegR, Reg32),
    /// Byte string register.
    S(u8),
}

impl Reg {
    /// The numeric register of a block at an index.
    pub open spec fn spec_new(reg: RegAR, idx: Reg32) -> Reg {
        match reg {
            RegAR::A(a) => Reg::A(a, idx),
            RegAR::R(r) => Reg::R(r, idx),
        }
    }

    /// The numeric register of a block at an index.
    #[verifier::when_used_as_spec(spec_new)]
    pub fn new(reg: RegAR, idx: Reg32) -> (r: Reg)
        ensures
            r == Reg::spec_new(reg, idx),
    {
        match reg {
            RegAR::A(a) => Reg::A(a, idx),
            RegAR::R(r) => Reg::R(r, idx),
        }
    }
}

} // verus!
