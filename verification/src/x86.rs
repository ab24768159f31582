//! The x86 front end: registers, instruction prefixes, operand and address
//! size resolution, and the lowering of opcodes.

pub mod lifting;
pub mod prefixes;
pub mod registers;
pub mod sizes;

pub use lifting::{lift, lower_opcode, push_reg_insns, PostPrefixesCtx, PUSH_REG_BASE};
pub use prefixes::{
    extract_legacy_prefixes, extract_prefixes, extract_rex_prefix, InsnLegacyPrefixes,
    InsnPrefixes, LegacyPrefix, LegacyPrefixGroup, RexPrefix,
};
pub use registers::Reg;
pub use sizes::{
    effective_address_size, effective_operand_size, X86CpuMode, X86Ctx,
    X86SegmentDefaultOperandSize,
};
