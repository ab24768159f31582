//! The decoding context and the effective operand and address sizes that it
//! gives together with the prefixes of an instruction.

use crate::x86::prefixes::{InsnPrefixes, LegacyPrefix};
use crate::x86::registers::Reg;
use crate::{Operand, OperandSize};
use vstd::prelude::*;

verus! {

/// The mode in which the processor runs the code.
#[derive(Debug, Clone, Copy, PartialEq, Eq, Hash, Structural)]
pub enum X86CpuMode {
    RealMode,
    ProtectedMode,
    LongMode,
}

/// The default operand size of the code segment, which its descriptor sets.
/// It matters in protected mode only.
#[derive(Debug, Clone, Copy, PartialEq, Eq, Hash, Structural)]
pub enum X86SegmentDefaultOperandSize {
    /// 16 bit segment
    B16,
    /// 32 bit segment
    B32,
}

/// Where the code runs: the processor's mode and the code segment's default.
#[derive(Debug, Clone, Copy, PartialEq, Eq, Hash, Structural)]
pub struct X86Ctx {
    /// the cpu mode in which we are executing.
    pub cpu_mode: X86CpuMode,
    /// the code segment's default operand size, determined by the `D` flag in the code segment
    /// descriptor.
    pub code_segment_default_operand_size: X86SegmentDefaultOperandSize,
}

/// The size that an override prefix chooses between: real mode and 16-bit
/// segments default to two bytes, 32-bit segments and long mode to four, and
/// the override gives the other of the two.
pub open spec fn overridable_size(
    cpu_mode: X86CpuMode,
    segment_default: X86SegmentDefaultOperandSize,
    size_override: bool,
) -> OperandSize {
    let narrow_by_default = match cpu_mode {
        X86CpuMode::RealMode => true,
        X86CpuMode::ProtectedMode => segment_default == X86SegmentDefaultOperandSize::B16,
        X86CpuMode::LongMode => false,
    };
    if narrow_by_default == size_override {
        OperandSize::B4
    } else {
        OperandSize::B2
    }
}

/// The effective operand size. In long mode REX.W forces eight bytes,
/// whether or not the operand-size override is present.
pub open spec fn effective_operand_size(
    cpu_mode: X86CpuMode,
    segment_default: X86SegmentDefaultOperandSize,
    operand_size_override: bool,
    rex_w: bool,
) -> OperandSize {
    if cpu_mode == X86CpuMode::LongMode && rex_w {
        OperandSize::B8
    } else {
        overridable_size(cpu_mode, segment_default, operand_size_override)
    }
}

/// The effective address size. In long mode under REX.W the default is
/// eight bytes and the address-size override still applies: it gives four.
pub open spec fn effective_address_size(
    cpu_mode: X86CpuMode,
    segment_default: X86SegmentDefaultOperandSize,
    address_size_override: bool,
    rex_w: bool,
) -> OperandSize {
    if cpu_mode == X86CpuMode::LongMode && rex_w {
        if address_size_override {
            OperandSize::B4
        } else {
            OperandSize::B8
        }
    } else {
        overridable_size(cpu_mode, segment_default, address_size_override)
    }
}

impl X86Ctx {
    /// The width of the stack in a mode.
    pub open spec fn spec_stack_width(&self) -> OperandSize {
        match self.cpu_mode {
            X86CpuMode::RealMode => OperandSize::B2,
            X86CpuMode::ProtectedMode => OperandSize::B4,
            X86CpuMode::LongMode => OperandSize::B8,
        }
    }

    pub fn stack_width(&self) -> (width: OperandSize)
        ensures
            width == self.spec_stack_width(),
    {
        match self.cpu_mode {
            X86CpuMode::RealMode => OperandSize::B2,
            X86CpuMode::ProtectedMode => OperandSize::B4,
            X86CpuMode::LongMode => OperandSize::B8,
        }
    }

    /// The stack pointer, accessed at a width.
    pub fn stack_pointer_operand_of_size(&self, size: OperandSize) -> (op: Operand)
        ensures
            op == Reg::RspAh.spec_operand(size),
    {
        Reg::RspAh.operand(size)
    }

    pub fn resolve_operand_size(&self, prefixes: &InsnPrefixes) -> (size: OperandSize)
        ensures
            size == effective_operand_size(
                self.cpu_mode,
                self.code_segment_default_operand_size,
                prefixes.legacy.spec_contains(LegacyPrefix::OperandSizeOverride),
                prefixes.rex_w(),
            ),
    {
        match self.cpu_mode {
            X86CpuMode::RealMode => {
                if prefixes.legacy.contains(LegacyPrefix::OperandSizeOverride) {
                    OperandSize::B4
                } else {
                    OperandSize::B2
                }
            },
            X86CpuMode::ProtectedMode => match self.code_segment_default_operand_size {
                X86SegmentDefaultOperandSize::B16 => {
                    if prefixes.legacy.contains(LegacyPrefix::OperandSizeOverride) {
                        OperandSize::B4
                    } else {
                        OperandSize::B2
                    }
                },
                X86SegmentDefaultOperandSize::B32 => {
                    if prefixes.legacy.contains(LegacyPrefix::OperandSizeOverride) {
                        OperandSize::B2
                    } else {
                        OperandSize::B4
                    }
                },
            },
            X86CpuMode::LongMode => match prefixes.rex {
                Some(rex_prefix) if rex_prefix.w_bit() => OperandSize::B8,
                _ => {
                    if prefixes.legacy.contains(LegacyPrefix::OperandSizeOverride) {
                        OperandSize::B2
                    } else {
                        OperandSize::B4
                    }
                },
            },
        }
    }

    pub fn resolve_address_size(&self, prefixes: &InsnPrefixes) -> (size: OperandSize)
        ensures
            size == effective_address_size(
                self.cpu_mode,
                self.code_segment_default_operand_size,
                prefixes.legacy.spec_contains(LegacyPrefix::AddressSizeOverride),
                prefixes.rex_w(),
            ),
    {
        match self.cpu_mode {
            X86CpuMode::RealMode => {
                if prefixes.legacy.contains(LegacyPrefix::AddressSizeOverride) {
                    OperandSize::B4
                } else {
                    OperandSize::B2
                }
            },
            X86CpuMode::ProtectedMode => match self.code_segment_default_operand_size {
                X86SegmentDefaultOperandSize::B16 => {
                    if prefixes.legacy.contains(LegacyPrefix::AddressSizeOverride) {
                        OperandSize::B4
                    } else {
                        OperandSize::B2
                    }
                },
                X86SegmentDefaultOperandSize::B32 => {
                    if prefixes.legacy.contains(LegacyPrefix::AddressSizeOverride) {
                        OperandSize::B2
                    } else {
                        OperandSize::B4
                    }
                },
            },
            X86CpuMode::LongMode => match prefixes.rex {
                Some(rex_prefix) if rex_prefix.w_bit() => {
                    if prefixes.legacy.contains(LegacyPrefix::AddressSizeOverride) {
                        OperandSize::B4
                    } else {
                        OperandSize::B8
                    }
                },
                _ => {
                    if prefixes.legacy.contains(LegacyPrefix::AddressSizeOverride) {
                        OperandSize::B2
                    } else {
                        OperandSize::B4
                    }
                },
            },
        }
    }
}

/// The table of operand sizes, row by row, and that of address sizes beside
/// it. In long mode REX.W forces the operand size to eight bytes, override or
/// not, while the address size under REX.W is eight bytes by default and four
/// with the address-size override.
pub proof fn lemma_size_resolution_table(
    segment_default: X86SegmentDefaultOperandSize,
    size_override: bool,
    rex_w: bool,
)
    ensures
        effective_operand_size(X86CpuMode::RealMode, segment_default, false, rex_w)
            == OperandSize::B2,
        effective_operand_size(X86CpuMode::RealMode, segment_default, true, rex_w)
            == OperandSize::B4,
        effective_operand_size(
            X86CpuMode::ProtectedMode,
            X86SegmentDefaultOperandSize::B16,
            false,
            rex_w,
        ) == OperandSize::B2,
        effective_operand_size(
            X86CpuMode::ProtectedMode,
            X86SegmentDefaultOperandSize::B16,
            true,
            rex_w,
        ) == OperandSize::B4,
        effective_operand_size(
            X86CpuMode::ProtectedMode,
            X86SegmentDefaultOperandSize::B32,
            false,
            rex_w,
        ) == OperandSize::B4,
        effective_operand_size(
            X86CpuMode::ProtectedMode,
            X86SegmentDefaultOperandSize::B32,
            true,
            rex_w,
        ) == OperandSize::B2,
        effective_operand_size(X86CpuMode::LongMode, segment_default, size_override, true)
            == OperandSize::B8,
        effective_operand_size(X86CpuMode::LongMode, segment_default, false, false)
            == OperandSize::B4,
        effective_operand_size(X86CpuMode::LongMode, segment_default, true, false)
            == OperandSize::B2,
        effective_address_size(X86CpuMode::RealMode, segment_default, false, rex_w)
            == OperandSize::B2,
        effective_address_size(X86CpuMode::RealMode, segment_default, true, rex_w)
            == OperandSize::B4,
        effective_address_size(
            X86CpuMode::ProtectedMode,
            X86SegmentDefaultOperandSize::B16,
            false,
            rex_w,
        ) == OperandSize::B2,
        effective_address_size(
            X86CpuMode::ProtectedMode,
            X86SegmentDefaultOperandSize::B16,
            true,
            rex_w,
        ) == OperandSize::B4,
        effective_address_size(
            X86CpuMode::ProtectedMode,
            X86SegmentDefaultOperandSize::B32,
            false,
            rex_w,
        ) == OperandSize::B4,
        effective_address_size(
            X86CpuMode::ProtectedMode,
            X86SegmentDefaultOperandSize::B32,
            true,
            rex_w,
        ) == OperandSize::B2,
        effective_address_size(X86CpuMode::LongMode, segment_default, false, true)
            == OperandSize::B8,
        effective_address_size(X86CpuMode::LongMode, segment_default, true, true)
            == OperandSize::B4,
        effective_address_size(X86CpuMode::LongMode, segment_default, false, false)
            == OperandSize::B4,
        effective_address_size(X86CpuMode::LongMode, segment_default, true, false)
            == OperandSize::B2,
{
}

} // verus!
