use pis::x86::{
    extract_prefixes, InsnLegacyPrefixes, InsnPrefixes, LegacyPrefix, PostPrefixesCtx, Reg,
    RexPrefix, X86CpuMode, X86Ctx, X86SegmentDefaultOperandSize,
};
use pis::{
    ArchCtx, DecodeError, Insn, Opcode, Operand, OperandAddr, OperandSize, OperandSpace,
    Translation,
};

const REGS: [Reg; 8] = [
    Reg::Rax,
    Reg::Rcx,
    Reg::Rdx,
    Reg::Rbx,
    Reg::RspAh,
    Reg::RbpCh,
    Reg::RsiDh,
    Reg::RdiBh,
];

fn all_contexts() -> Vec<X86Ctx> {
    let mut contexts = Vec::new();
    for cpu_mode in [X86CpuMode::RealMode, X86CpuMode::ProtectedMode, X86CpuMode::LongMode] {
        for default in [X86SegmentDefaultOperandSize::B16, X86SegmentDefaultOperandSize::B32] {
            contexts.push(X86Ctx { cpu_mode, code_segment_default_operand_size: default });
        }
    }
    contexts
}

fn protected32() -> X86Ctx {
    X86Ctx {
        cpu_mode: X86CpuMode::ProtectedMode,
        code_segment_default_operand_size: X86SegmentDefaultOperandSize::B32,
    }
}

fn reg_slot(offset: u64, size: OperandSize) -> Operand {
    Operand { addr: OperandAddr { space: OperandSpace::Regs, offset }, size }
}

fn prefixes_with(operand: bool, address: bool, rex: Option<RexPrefix>) -> InsnPrefixes {
    let mut legacy = InsnLegacyPrefixes::new();
    if operand {
        legacy.add(LegacyPrefix::OperandSizeOverride).unwrap();
    }
    if address {
        legacy.add(LegacyPrefix::AddressSizeOverride).unwrap();
    }
    InsnPrefixes { legacy, rex }
}

fn expected_push(index: u64) -> Translation {
    let mut expected = Translation::new();
    expected
        .push(Insn::new(
            Opcode::Add,
            reg_slot(32, OperandSize::B8),
            Operand {
                addr: OperandAddr { space: OperandSpace::Const, offset: 0xffff_ffff_ffff_fff8 },
                size: OperandSize::B8,
            },
        ))
        .unwrap();
    expected
        .push(Insn::new(
            Opcode::Store,
            reg_slot(32, OperandSize::B8),
            reg_slot(8 * index, OperandSize::B8),
        ))
        .unwrap();
    expected
}

#[test]
fn reg_bits() {
    assert_eq!(Reg::MAX_VALUE, Reg::RdiBh);
    for (index, reg) in REGS.iter().enumerate() {
        assert_eq!(reg.bits(), index as u8);
        assert_eq!(Reg::from_bits(index as u8), *reg);
        assert_eq!(Reg::try_from_bits(index as u8), Some(*reg));
    }
    for bits in 8..=255u8 {
        assert_eq!(Reg::try_from_bits(bits), None);
    }
}

#[test]
fn reg_operands_are_slots_of_eight_bytes() {
    for (index, reg) in REGS.iter().enumerate() {
        for size in [OperandSize::B1, OperandSize::B2, OperandSize::B4, OperandSize::B8] {
            assert_eq!(reg.operand(size), reg_slot(8 * index as u64, size));
        }
        assert_eq!(reg.qword(), reg_slot(8 * index as u64, OperandSize::B8));
        assert_eq!(reg.low_byte(), reg_slot(8 * index as u64, OperandSize::B1));
    }
    assert_eq!(Reg::RspAh.operand(OperandSize::B8).addr.offset, 32);
    assert_eq!(Reg::RdiBh.operand(OperandSize::B8).addr.offset, 56);
}

#[test]
fn stack_width_follows_the_mode() {
    for default in [X86SegmentDefaultOperandSize::B16, X86SegmentDefaultOperandSize::B32] {
        let ctx = |cpu_mode| X86Ctx { cpu_mode, code_segment_default_operand_size: default };
        assert_eq!(ctx(X86CpuMode::RealMode).stack_width(), OperandSize::B2);
        assert_eq!(ctx(X86CpuMode::ProtectedMode).stack_width(), OperandSize::B4);
        assert_eq!(ctx(X86CpuMode::LongMode).stack_width(), OperandSize::B8);
    }
}

#[test]
fn stack_pointer_at_each_size() {
    for ctx in all_contexts() {
        for size in [OperandSize::B1, OperandSize::B2, OperandSize::B4, OperandSize::B8] {
            assert_eq!(ctx.stack_pointer_operand_of_size(size), reg_slot(32, size));
        }
    }
}

#[test]
fn operand_size_table() {
    let b16 = X86SegmentDefaultOperandSize::B16;
    let b32 = X86SegmentDefaultOperandSize::B32;
    let w = Some(RexPrefix::from_bits(1));
    let no_w = Some(RexPrefix::from_bits(0b1110));
    let rows = [
        (X86CpuMode::RealMode, b16, false, None, OperandSize::B2),
        (X86CpuMode::RealMode, b16, true, None, OperandSize::B4),
        (X86CpuMode::RealMode, b32, false, None, OperandSize::B2),
        (X86CpuMode::RealMode, b32, true, None, OperandSize::B4),
        (X86CpuMode::RealMode, b32, false, w, OperandSize::B2),
        (X86CpuMode::ProtectedMode, b16, false, None, OperandSize::B2),
        (X86CpuMode::ProtectedMode, b16, true, None, OperandSize::B4),
        (X86CpuMode::ProtectedMode, b32, false, None, OperandSize::B4),
        (X86CpuMode::ProtectedMode, b32, true, None, OperandSize::B2),
        (X86CpuMode::ProtectedMode, b32, false, w, OperandSize::B4),
        (X86CpuMode::ProtectedMode, b16, true, w, OperandSize::B4),
        (X86CpuMode::LongMode, b16, false, w, OperandSize::B8),
        (X86CpuMode::LongMode, b32, true, w, OperandSize::B8),
        (X86CpuMode::LongMode, b16, false, None, OperandSize::B4),
        (X86CpuMode::LongMode, b32, false, no_w, OperandSize::B4),
        (X86CpuMode::LongMode, b16, true, None, OperandSize::B2),
        (X86CpuMode::LongMode, b32, true, no_w, OperandSize::B2),
    ];
    for (cpu_mode, default, operand_override, rex, expected) in rows {
        let ctx = X86Ctx { cpu_mode, code_segment_default_operand_size: default };
        for address_override in [false, true] {
            let prefixes = prefixes_with(operand_override, address_override, rex);
            assert_eq!(ctx.resolve_operand_size(&prefixes), expected);
        }
    }
}

#[test]
fn address_size_table() {
    let b16 = X86SegmentDefaultOperandSize::B16;
    let b32 = X86SegmentDefaultOperandSize::B32;
    let w = Some(RexPrefix::from_bits(1));
    let no_w = Some(RexPrefix::from_bits(0b1110));
    let rows = [
        (X86CpuMode::RealMode, b16, false, None, OperandSize::B2),
        (X86CpuMode::RealMode, b32, true, None, OperandSize::B4),
        (X86CpuMode::RealMode, b32, false, w, OperandSize::B2),
        (X86CpuMode::ProtectedMode, b16, false, None, OperandSize::B2),
        (X86CpuMode::ProtectedMode, b16, true, None, OperandSize::B4),
        (X86CpuMode::ProtectedMode, b32, false, None, OperandSize::B4),
        (X86CpuMode::ProtectedMode, b32, true, None, OperandSize::B2),
        (X86CpuMode::ProtectedMode, b32, true, w, OperandSize::B2),
        (X86CpuMode::LongMode, b16, false, w, OperandSize::B8),
        (X86CpuMode::LongMode, b32, true, w, OperandSize::B4),
        (X86CpuMode::LongMode, b16, false, None, OperandSize::B4),
        (X86CpuMode::LongMode, b32, false, no_w, OperandSize::B4),
        (X86CpuMode::LongMode, b16, true, None, OperandSize::B2),
        (X86CpuMode::LongMode, b32, true, no_w, OperandSize::B2),
    ];
    for (cpu_mode, default, address_override, rex, expected) in rows {
        let ctx = X86Ctx { cpu_mode, code_segment_default_operand_size: default };
        for operand_override in [false, true] {
            let prefixes = prefixes_with(operand_override, address_override, rex);
            assert_eq!(ctx.resolve_address_size(&prefixes), expected);
        }
    }
}

#[test]
fn rex_w_forces_operand_size_but_not_address_size() {
    let ctx = X86Ctx {
        cpu_mode: X86CpuMode::LongMode,
        code_segment_default_operand_size: X86SegmentDefaultOperandSize::B32,
    };
    let prefixes = prefixes_with(true, true, Some(RexPrefix::from_bits(1)));
    assert_eq!(ctx.resolve_operand_size(&prefixes), OperandSize::B8);
    assert_eq!(ctx.resolve_address_size(&prefixes), OperandSize::B4);
}

#[test]
fn push_rcx_in_protected_mode() {
    let translation = protected32().translate(&[0x51]).unwrap();
    assert_eq!(translation.len(), 2);
    assert_eq!(
        translation.get(0),
        Some(&Insn::new(
            Opcode::Add,
            Reg::RspAh.operand(OperandSize::B8),
            Operand::negative_constant(8, OperandSize::B8),
        ))
    );
    assert_eq!(
        translation.get(1),
        Some(&Insn::new(
            Opcode::Store,
            Reg::RspAh.operand(OperandSize::B8),
            Reg::Rcx.operand(OperandSize::B8),
        ))
    );
    assert_eq!(translation, expected_push(1));
}

#[test]
fn push_of_every_register_in_every_mode() {
    for ctx in all_contexts() {
        for index in 0..8u8 {
            let translation = ctx.translate(&[0x50 + index]).unwrap();
            assert_eq!(translation, expected_push(index as u64));
            assert_eq!(translation.len(), 2);
            let store = translation.get(1).unwrap();
            assert_eq!(store.opcode, Opcode::Store);
            assert_eq!(store.operands[1], REGS[index as usize].operand(OperandSize::B8));
        }
    }
}

#[test]
fn push_rax_with_operand_size_override_resolves_two_bytes() {
    let ctx = protected32();
    let bytes = [0x66u8, 0x50];
    let mut code: &[u8] = &bytes;
    let prefixes = extract_prefixes(&mut code).unwrap();
    assert_eq!(code, &[0x50]);
    assert_eq!(ctx.resolve_operand_size(&prefixes), OperandSize::B2);
    assert_eq!(ctx.resolve_address_size(&prefixes), OperandSize::B4);
    assert_eq!(ctx.translate(&bytes), Ok(expected_push(0)));
}

#[test]
fn push_width_does_not_follow_the_prefixes() {
    let long = X86Ctx {
        cpu_mode: X86CpuMode::LongMode,
        code_segment_default_operand_size: X86SegmentDefaultOperandSize::B32,
    };
    assert_eq!(long.translate(&[0x66, 0x67, 0xf0, 0x2e, 0x49, 0x57]), Ok(expected_push(7)));
    assert_eq!(protected32().translate(&[0x41, 0x51]), Ok(expected_push(1)));
}

#[test]
fn translate_push_reg_ignores_the_sizes() {
    let ctx = protected32();
    for size in [OperandSize::B1, OperandSize::B2, OperandSize::B4, OperandSize::B8] {
        let post = PostPrefixesCtx {
            operand_size: size,
            address_size: size,
            prefixes: prefixes_with(false, false, None),
        };
        assert_eq!(ctx.translate_push_reg(Reg::Rbx, post), expected_push(3));
    }
}

#[test]
fn empty_input_is_truncated() {
    for ctx in all_contexts() {
        assert_eq!(ctx.translate(&[]), Err(DecodeError::Truncated));
    }
}

#[test]
fn prefixes_without_opcode_are_truncated() {
    let ctx = protected32();
    assert_eq!(ctx.translate(&[0x66]), Err(DecodeError::Truncated));
    assert_eq!(ctx.translate(&[0x41]), Err(DecodeError::Truncated));
    assert_eq!(ctx.translate(&[0xf0, 0x67, 0x48]), Err(DecodeError::Truncated));
}

#[test]
fn other_opcodes_are_unknown() {
    let ctx = protected32();
    assert_eq!(
        ctx.translate(&[0x90]),
        Err(DecodeError::UnknownOpcode { opcode: 0x90, remaining: 1 })
    );
    assert_eq!(
        ctx.translate(&[0x4f + 9]),
        Err(DecodeError::UnknownOpcode { opcode: 0x58, remaining: 1 })
    );
    assert_eq!(
        ctx.translate(&[0x66, 0x3f]),
        Err(DecodeError::UnknownOpcode { opcode: 0x3f, remaining: 1 })
    );
}

#[test]
fn bytes_behind_a_push_are_unknown() {
    let ctx = protected32();
    assert_eq!(
        ctx.translate(&[0x50, 0x00]),
        Err(DecodeError::UnknownOpcode { opcode: 0x50, remaining: 2 })
    );
    assert_eq!(
        ctx.translate(&[0x48, 0x66, 0x50]),
        Err(DecodeError::UnknownOpcode { opcode: 0x66, remaining: 2 })
    );
    assert_eq!(
        ctx.translate(&[0x41, 0x42, 0x50]),
        Err(DecodeError::UnknownOpcode { opcode: 0x42, remaining: 2 })
    );
}

#[test]
fn conflicting_prefixes_are_malformed() {
    for ctx in all_contexts() {
        assert_eq!(ctx.translate(&[0x2e, 0x36, 0x50]), Err(DecodeError::MalformedPrefixes));
        assert_eq!(ctx.translate(&[0xf0, 0x66, 0xf2, 0x50]), Err(DecodeError::MalformedPrefixes));
        assert_eq!(ctx.translate(&[0x67, 0x67]), Err(DecodeError::MalformedPrefixes));
    }
}

#[test]
fn order_of_prefixes_does_not_change_the_translation() {
    let ctx = protected32();
    let first = ctx.translate(&[0x66, 0xf3, 0x65, 0x41, 0x52]);
    let second = ctx.translate(&[0x65, 0x66, 0xf3, 0x41, 0x52]);
    assert_eq!(first, Ok(expected_push(2)));
    assert_eq!(first, second);
}

#[test]
fn post_prefixes_ctx_holds_the_resolved_sizes() {
    let long = X86Ctx {
        cpu_mode: X86CpuMode::LongMode,
        code_segment_default_operand_size: X86SegmentDefaultOperandSize::B16,
    };
    let prefixes = prefixes_with(true, true, Some(RexPrefix::from_bits(1)));
    let post = long.post_prefixes_ctx(prefixes);
    assert_eq!(post.operand_size, OperandSize::B8);
    assert_eq!(post.address_size, OperandSize::B4);
    assert_eq!(post.prefixes, prefixes);
    let post = protected32().post_prefixes_ctx(prefixes_with(true, false, None));
    assert_eq!(post.operand_size, OperandSize::B2);
    assert_eq!(post.address_size, OperandSize::B4);
}

#[test]
fn translate_opcode_reads_the_bytes_behind_the_prefixes() {
    let ctx = protected32();
    let post = ctx.post_prefixes_ctx(prefixes_with(false, false, None));
    assert_eq!(ctx.translate_opcode(&[0x56], post), Ok(expected_push(6)));
    assert_eq!(ctx.translate_opcode(&[], post), Err(DecodeError::Truncated));
    assert_eq!(
        ctx.translate_opcode(&[0x4f], post),
        Err(DecodeError::UnknownOpcode { opcode: 0x4f, remaining: 1 })
    );
    assert_eq!(
        ctx.translate_opcode(&[0x66, 0x50], post),
        Err(DecodeError::UnknownOpcode { opcode: 0x66, remaining: 2 })
    );
}
