//! The general purpose registers and their slots in the register space.

use crate::{Operand, OperandAddr, OperandSize, OperandSpace};
use vstd::prelude::*;

verus! {

/// A general purpose register, as the three bits of an encoding name it.
#[derive(Debug, Clone, Copy, PartialEq, Eq, Hash, Structural)]
pub enum Reg {
    Rax,
    Rcx,
    Rdx,
    Rbx,
    RspAh,
    RbpCh,
    RsiDh,
    RdiBh,
}

impl Reg {
    /// The register with the largest encoding.
    pub const MAX_VALUE: Reg = Reg::RdiBh;

    /// The three bits that name this register.
    pub open spec fn spec_bits(&self) -> u8 {
        match self {
            Reg::Rax => 0,
            Reg::Rcx => 1,
            Reg::Rdx => 2,
            Reg::Rbx => 3,
            Reg::RspAh => 4,
            Reg::RbpCh => 5,
            Reg::RsiDh => 6,
            Reg::RdiBh => 7,
        }
    }

    /// The register that three bits name.
    pub open spec fn spec_from_bits(bits: u8) -> Reg {
        if bits == 0 {
            Reg::Rax
        } else if bits == 1 {
            Reg::Rcx
        } else if bits == 2 {
            Reg::Rdx
        } else if bits == 3 {
            Reg::Rbx
        } else if bits == 4 {
            Reg::RspAh
        } else if bits == 5 {
            Reg::RbpCh
        } else if bits == 6 {
            Reg::RsiDh
        } else {
            Reg::RdiBh
        }
    }

    /// The operand that reads or writes this register at a width: every
    /// register has a slot of eight bytes in the register space, whatever the
    /// width of the access.
    pub open spec fn spec_operand(&self, size: OperandSize) -> Operand {
        Operand {
            addr: OperandAddr { space: OperandSpace::Regs, offset: (self.spec_bits() * 8) as u64 },
            size,
        }
    }

    pub fn bits(&self) -> (bits: u8)
        ensures
            bits == self.spec_bits(),
            bits <= 7,
    {
        match self {
            Reg::Rax => 0,
            Reg::Rcx => 1,
            Reg::Rdx => 2,
            Reg::Rbx => 3,
            Reg::RspAh => 4,
            Reg::RbpCh => 5,
            Reg::RsiDh => 6,
            Reg::RdiBh => 7,
        }
    }

    /// The register named by `bits`, where they fit in three bits.
    pub fn try_from_bits(bits: u8) -> (reg: Option<Reg>)
        ensures
            bits <= 7 ==> reg == Some(Self::spec_from_bits(bits)),
            bits > 7 ==> reg.is_none(),
    {
        match bits {
            0 => Some(Reg::Rax),
            1 => Some(Reg::Rcx),
            2 => Some(Reg::Rdx),
            3 => Some(Reg::Rbx),
            4 => Some(Reg::RspAh),
            5 => Some(Reg::RbpCh),
            6 => Some(Reg::RsiDh),
            7 => Some(Reg::RdiBh),
            _ => None,
        }
    }

    /// The register named by three bits. Every value of three bits names one.
    pub fn from_bits(bits: u8) -> (reg: Reg)
        requires
            bits <= 7,
        ensures
            reg == Self::spec_from_bits(bits),
            reg.spec_bits() == bits,
    {
        match bits {
            0 => Reg::Rax,
            1 => Reg::Rcx,
            2 => Reg::Rdx,
            3 => Reg::Rbx,
            4 => Reg::RspAh,
            5 => Reg::RbpCh,
            6 => Reg::RsiDh,
            _ => Reg::RdiBh,
        }
    }

    pub fn operand(&self, size: OperandSize) -> (op: Operand)
        ensures
            op == self.spec_operand(size),
            op.addr.space == OperandSpace::Regs,
            op.addr.offset == 8 * self.spec_bits(),
            op.size == size,
    {
        let index: u64 = self.bits() as u64;
        Operand { addr: OperandAddr { space: OperandSpace::Regs, offset: index * 8 }, size }
    }
}

/// The encoding of registers loses nothing: bits and registers correspond one
/// to one.
pub proof fn lemma_reg_bits_round_trip(reg: Reg, bits: u8)
    ensures
        Reg::spec_from_bits(reg.spec_bits()) == reg,
        bits <= 7 ==> Reg::spec_from_bits(bits).spec_bits() == bits,
{
}

impl Reg {
    /// The whole register: its slot at eight bytes.
    pub fn qword(&self) -> (op: Operand)
        ensures
            op == self.spec_operand(OperandSize::B8),
    {
        self.operand(OperandSize::B8)
    }

    /// The lowest byte of the register: its slot at one byte.
    pub fn low_byte(&self) -> (op: Operand)
        ensures
            op == self.spec_operand(OperandSize::B1),
    {
        self.operand(OperandSize::B1)
    }
}

} // verus!
