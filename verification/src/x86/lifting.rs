//! Lifting one instruction: prefixes, sizes, then the lowering of the opcode.

use crate::x86::prefixes::{
    extract_prefixes, has_group_conflict, is_legacy_prefix_byte, is_rex_byte, legacy_run,
    legacy_run_len, legacy_slots, lemma_legacy_run_behind_prefixes, lemma_legacy_run_len,
    lemma_slots_of_permutation, prefixes_len, rex_len, rex_of, byte_group, InsnPrefixes,
    LegacyPrefix,
};
use crate::x86::registers::Reg;
use crate::x86::sizes::{effective_address_size, effective_operand_size, X86Ctx};
use crate::{
    insns_push, ArchCtx, DecodeError, Insn, Opcode, Operand, OperandAddr, OperandSize,
    OperandSpace, Translation,
};
use vstd::multiset::group_multiset_axioms;
use vstd::prelude::*;
use vstd::seq_lib::{lemma_multiset_commutative, to_multiset_contains, to_multiset_len};

verus! {

/// What is known of an instruction once its prefixes are read.
#[derive(Debug, Clone, Copy, PartialEq, Eq, Hash)]
pub struct PostPrefixesCtx {
    pub operand_size: OperandSize,
    pub address_size: OperandSize,
    pub prefixes: InsnPrefixes,
}

/// The first opcode byte of the push-register family.
pub const PUSH_REG_BASE: u8 = 0x50;

/// What pushing a register lowers to: the stack pointer goes down by eight
/// bytes, then the register is stored, at eight bytes, where the stack
/// pointer points. The push is eight bytes wide in every mode and at every
/// resolved operand size.
pub open spec fn push_reg_insns(reg: Reg) -> Seq<Insn> {
    seq![
        Insn::spec_new(
            Opcode::Add,
            Reg::RspAh.spec_operand(OperandSize::B8),
            Operand::spec_negative_constant(8, OperandSize::B8),
        ),
        Insn::spec_new(
            Opcode::Store,
            Reg::RspAh.spec_operand(OperandSize::B8),
            reg.spec_operand(OperandSize::B8),
        ),
    ]
}

/// What the bytes behind the prefixes lower to. A single byte from `0x50` to
/// `0x57` pushes the register that its low three bits name. No byte at all is
/// a truncated instruction; anything else is not known.
pub open spec fn lower_opcode(rest: Seq<u8>) -> Result<Seq<Insn>, DecodeError> {
    if rest.len() == 0 {
        Err(DecodeError::Truncated)
    } else if rest.len() == 1 && 0x50 <= rest[0] <= 0x57 {
        Ok(push_reg_insns(Reg::spec_from_bits((rest[0] - 0x50) as u8)))
    } else {
        Err(DecodeError::UnknownOpcode { opcode: rest[0], remaining: rest.len() as usize })
    }
}

/// What the bytes of one instruction lift to: conflicting legacy prefixes are
/// malformed; otherwise the bytes behind the prefixes decide.
pub open spec fn lift(code: Seq<u8>) -> Result<Seq<Insn>, DecodeError> {
    if has_group_conflict(legacy_run(code)) {
        Err(DecodeError::MalformedPrefixes)
    } else {
        lower_opcode(code.skip(prefixes_len(code) as int))
    }
}

impl X86Ctx {
    /// Lowers the push of a register.
    pub fn translate_push_reg(&self, reg: Reg, ctx: PostPrefixesCtx) -> (translation: Translation)
        ensures
            translation@ == push_reg_insns(reg),
    {
        let mut translation = Translation::new();
        insns_push(
            &mut translation.insns,
            Insn::new(
                Opcode::Add,
                Reg::RspAh.qword(),
                Operand::negative_constant(8, OperandSize::B8),
            ),
        );
        insns_push(
            &mut translation.insns,
            Insn::new(Opcode::Store, Reg::RspAh.qword(), reg.operand(OperandSize::B8)),
        );
        proof {
            assert(translation@ =~= push_reg_insns(reg));
        }
        translation
    }
}

impl X86Ctx {
    /// Resolves the operand and address sizes of an instruction from its
    /// prefixes.
    pub fn post_prefixes_ctx(&self, prefixes: InsnPrefixes) -> (ctx: PostPrefixesCtx)
        ensures
            ctx.prefixes == prefixes,
            ctx.operand_size == effective_operand_size(
                self.cpu_mode,
                self.code_segment_default_operand_size,
                prefixes.legacy.spec_contains(LegacyPrefix::OperandSizeOverride),
                prefixes.rex_w(),
            ),
            ctx.address_size == effective_address_size(
                self.cpu_mode,
                self.code_segment_default_operand_size,
                prefixes.legacy.spec_contains(LegacyPrefix::AddressSizeOverride),
                prefixes.rex_w(),
            ),
    {
        PostPrefixesCtx {
            operand_size: self.resolve_operand_size(&prefixes),
            address_size: self.resolve_address_size(&prefixes),
            prefixes,
        }
    }

    /// Lowers the bytes that stand behind the prefixes. Each family of
    /// opcodes has its own test and its own lowering.
    pub fn translate_opcode(&self, rest: &[u8], ctx: PostPrefixesCtx) -> (lowered: Result<
        Translation,
        DecodeError,
    >)
        ensures
            match lowered {
                Ok(translation) => lower_opcode(rest@) == Ok::<Seq<Insn>, DecodeError>(
                    translation@,
                ),
                Err(e) => lower_opcode(rest@) == Err::<Seq<Insn>, DecodeError>(e),
            },
    {
        if rest.len() == 0 {
            return Err(DecodeError::Truncated);
        }
        let opcode: u8 = rest[0];
        if rest.len() == 1 && PUSH_REG_BASE <= opcode && opcode <= PUSH_REG_BASE
            + Reg::MAX_VALUE.bits() {
            return Ok(self.translate_push_reg(Reg::from_bits(opcode - PUSH_REG_BASE), ctx));
        }
        Err(DecodeError::UnknownOpcode { opcode, remaining: rest.len() })
    }
}

impl ArchCtx for X86Ctx {
    /// On x86 the mode and the segment default play no part in what the
    /// bytes lift to.
    open spec fn lifted(&self, code: Seq<u8>) -> Result<Seq<Insn>, DecodeError> {
        lift(code)
    }

    /// Lifts the bytes of one instruction: reads the prefixes, resolves the
    /// operand and address sizes, and lowers the opcode.
    fn translate(&self, code: &[u8]) -> (lifted: Result<Translation, DecodeError>) {
        let mut rest: &[u8] = code;
        let prefixes = match extract_prefixes(&mut rest) {
            Ok(prefixes) => prefixes,
            Err(e) => {
                return Err(e);
            },
        };
        let ctx = self.post_prefixes_ctx(prefixes);
        self.translate_opcode(rest, ctx)
    }
}

/// The order of the legacy prefixes of an instruction plays no part: the
/// same prefix bytes in another order, before the same remaining bytes, give
/// the same prefixes and lift to the same result.
pub proof fn lemma_prefix_order_irrelevant(first: Seq<u8>, second: Seq<u8>, rest: Seq<u8>)
    requires
        first.to_multiset() == second.to_multiset(),
        forall|k: int| 0 <= k < first.len() ==> is_legacy_prefix_byte(#[trigger] first[k]),
        !has_group_conflict(legacy_run(first + rest)),
    ensures
        !has_group_conflict(legacy_run(second + rest)),
        legacy_slots(legacy_run(first + rest)) == legacy_slots(legacy_run(second + rest)),
        rex_of(first + rest) == rex_of(second + rest),
        lift(first + rest) == lift(second + rest),
{
    broadcast use group_multiset_axioms;

    to_multiset_len(first);
    to_multiset_len(second);
    assert forall|k: int| 0 <= k < second.len() implies is_legacy_prefix_byte(
        #[trigger] second[k],
    ) by {
        to_multiset_contains(second, second[k]);
        to_multiset_contains(first, second[k]);
        assert(second.contains(second[k]));
        let a = choose|a: int| 0 <= a < first.len() && first[a] == second[k];
        assert(is_legacy_prefix_byte(first[a]));
    }
    lemma_legacy_run_behind_prefixes(first, rest);
    lemma_legacy_run_behind_prefixes(second, rest);
    let run = legacy_run(rest);
    lemma_multiset_commutative(first, run);
    lemma_multiset_commutative(second, run);
    lemma_slots_of_permutation(first + run, second + run);
    let n = legacy_run_len(rest) as int;
    let k = rex_len(rest.skip(n)) as int;
    lemma_legacy_run_len(rest);
    assert((first + rest).skip(first.len() + n + k) =~= rest.skip(n + k));
    assert((second + rest).skip(second.len() + n + k) =~= rest.skip(n + k));
}

/// Two prefixes of one group among the legacy prefixes of an instruction make
/// it malformed, whichever two they are and wherever they stand.
pub proof fn lemma_same_group_pair_rejected(code: Seq<u8>, i: int, j: int)
    requires
        0 <= i < j < legacy_run_len(code),
        byte_group(code[i]) == byte_group(code[j]),
    ensures
        has_group_conflict(legacy_run(code)),
        lift(code) == Err::<Seq<Insn>, DecodeError>(DecodeError::MalformedPrefixes),
{
    lemma_legacy_run_len(code);
    let run = legacy_run(code);
    assert(run[i] == code[i] && run[j] == code[j]);
    assert(is_legacy_prefix_byte(code[i]));
}

/// Two prefixes of one group, one right behind the other at the front of
/// the code, make it malformed.
pub proof fn lemma_same_group_prefixes_rejected(
    first: LegacyPrefix,
    second: LegacyPrefix,
    rest: Seq<u8>,
)
    requires
        first.spec_group() == second.spec_group(),
    ensures
        lift(seq![first.spec_byte(), second.spec_byte()] + rest) == Err::<Seq<Insn>, DecodeError>(
            DecodeError::MalformedPrefixes,
        ),
{
    let front = seq![first.spec_byte(), second.spec_byte()];
    lemma_legacy_run_behind_prefixes(front, rest);
    lemma_same_group_pair_rejected(front + rest, 0, 1);
}

/// A single opcode byte from `0x50` to `0x57`, with no prefix, lifts to the
/// push of the register that it names: two instructions, the first adds minus
/// eight to the stack pointer, the second stores the register at eight bytes
/// where the stack pointer points. The mode of the processor plays no part.
pub proof fn lemma_push_reg_lifts(index: u8)
    requires
        index <= 7,
    ensures
        lift(seq![(0x50 + index) as u8]) == Ok::<Seq<Insn>, DecodeError>(
            push_reg_insns(Reg::spec_from_bits(index)),
        ),
        push_reg_insns(Reg::spec_from_bits(index)).len() == 2,
        push_reg_insns(Reg::spec_from_bits(index))[0] == Insn::spec_new(
            Opcode::Add,
            Operand {
                addr: OperandAddr { space: OperandSpace::Regs, offset: 32 },
                size: OperandSize::B8,
            },
            Operand {
                addr: OperandAddr { space: OperandSpace::Const, offset: 0xffff_ffff_ffff_fff8 },
                size: OperandSize::B8,
            },
        ),
        push_reg_insns(Reg::spec_from_bits(index))[1] == Insn::spec_new(
            Opcode::Store,
            Operand {
                addr: OperandAddr { space: OperandSpace::Regs, offset: 32 },
                size: OperandSize::B8,
            },
            Operand {
                addr: OperandAddr { space: OperandSpace::Regs, offset: (8 * index) as u64 },
                size: OperandSize::B8,
            },
        ),
{
    let byte = (0x50 + index) as u8;
    let code = seq![byte];
    assert(!is_legacy_prefix_byte(byte));
    assert(legacy_run_len(code) == 0);
    assert(!is_rex_byte(byte)) by (bit_vector)
        requires
            0x50 <= byte <= 0x57,
    ;
    assert(code.skip(0) =~= code);
    assert(legacy_run(code) =~= Seq::<u8>::empty());
    assert(prefixes_len(code) == 0);
    assert((byte - 0x50) as u8 == index);
}

} // verus!
