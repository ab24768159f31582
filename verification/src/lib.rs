//! A lifter from machine code to a small architecture-neutral intermediate
//! representation: typed operands over disjoint storage spaces, two-operand
//! instructions, and bounded translations of one source instruction each.

use arrayvec::ArrayVec;
use vstd::prelude::*;

pub mod text;
pub mod x86;

verus! {

/// The largest number of instructions that one translation can hold.
pub const TRANSLATION_MAX_INSNS: usize = 128;

/// The address domain in which an operand lives. Offsets of different spaces
/// are unrelated.
#[derive(Debug, Clone, Copy, PartialEq, Eq, Hash, Structural)]
pub enum OperandSpace {
    Ram,
    Const,
    Regs,
    Tmp,
}

/// The width of an operand access.
#[derive(Debug, Clone, Copy, PartialEq, Eq, Hash, Structural)]
pub enum OperandSize {
    /// 1 byte
    B1,
    /// 2 bytes
    B2,
    /// 4 bytes
    B4,
    /// 8 bytes
    B8,
}

impl OperandSize {
    /// The width in bytes.
    pub open spec fn spec_bytes(&self) -> nat {
        match self {
            OperandSize::B1 => 1,
            OperandSize::B2 => 2,
            OperandSize::B4 => 4,
            OperandSize::B8 => 8,
        }
    }

    /// The width in bits.
    pub open spec fn spec_bits(&self) -> nat {
        self.spec_bytes() * 8
    }

    /// The number of values of this width, two to the power of its bits.
    pub open spec fn modulus(&self) -> int {
        match self {
            OperandSize::B1 => 0x100,
            OperandSize::B2 => 0x1_0000,
            OperandSize::B4 => 0x1_0000_0000,
            OperandSize::B8 => 0x1_0000_0000_0000_0000,
        }
    }

    /// The largest value of this width: all of its bits set.
    pub open spec fn spec_mask(&self) -> u64 {
        match self {
            OperandSize::B1 => 0xff,
            OperandSize::B2 => 0xffff,
            OperandSize::B4 => 0xffff_ffff,
            OperandSize::B8 => 0xffff_ffff_ffff_ffff,
        }
    }

    pub fn bytes(&self) -> (n: usize)
        ensures
            n == self.spec_bytes(),
    {
        match self {
            OperandSize::B1 => 1,
            OperandSize::B2 => 2,
            OperandSize::B4 => 4,
            OperandSize::B8 => 8,
        }
    }

    pub fn bits(&self) -> (n: usize)
        ensures
            n == self.spec_bits(),
            n == 8 * self.spec_bytes(),
    {
        self.bytes() * 8
    }

    /// The mask that keeps the bits of a value that fit in this width.
    pub fn mask(&self) -> (m: u64)
        ensures
            m == self.spec_mask(),
            m as int == self.modulus() - 1,
    {
        match self {
            OperandSize::B1 => 0xff,
            OperandSize::B2 => 0xffff,
            OperandSize::B4 => 0xffff_ffff,
            OperandSize::B8 => 0xffff_ffff_ffff_ffff,
        }
    }
}

/// A place within a space.
#[derive(Debug, Clone, Copy, PartialEq, Eq, Hash, Structural)]
pub struct OperandAddr {
    pub space: OperandSpace,
    pub offset: u64,
}

/// An address together with the width at which it is accessed.
#[derive(Debug, Clone, Copy, PartialEq, Eq, Hash, Structural)]
pub struct Operand {
    pub addr: OperandAddr,
    pub size: OperandSize,
}

/// What masking to a width does to a value: it keeps the value modulo the
/// number of values of that width.
pub proof fn lemma_mask_is_modulus(value: u64, size: OperandSize)
    ensures
        (value & size.spec_mask()) as int == (value as int) % size.modulus(),
{
    assert(value & 0xff == value % 0x100) by (bit_vector);
    assert(value & 0xffff == value % 0x1_0000) by (bit_vector);
    assert(value & 0xffff_ffff == value % 0x1_0000_0000) by (bit_vector);
    assert(value & 0xffff_ffff_ffff_ffff == value) by (bit_vector);
}

impl Operand {
    /// The constant operand that a value and a width denote: it lives in the
    /// constant space, at the value reduced to the width.
    pub open spec fn spec_constant(value: u64, size: OperandSize) -> Operand {
        Operand {
            addr: OperandAddr {
                space: OperandSpace::Const,
                offset: ((value as int) % size.modulus()) as u64,
            },
            size,
        }
    }

    /// The constant operand that stands for minus `absolute_value` at a
    /// width, in two's complement.
    pub open spec fn spec_negative_constant(absolute_value: u64, size: OperandSize) -> Operand {
        Operand {
            addr: OperandAddr {
                space: OperandSpace::Const,
                offset: ((-(absolute_value as int)) % size.modulus()) as u64,
            },
            size,
        }
    }

    /// An immediate: the offset is the value itself, cut to the width.
    pub fn constant(value: u64, size: OperandSize) -> (op: Self)
        ensures
            op == Self::spec_constant(value, size),
            op.addr.offset as int == (value as int) % size.modulus(),
            (value as int) < size.modulus() ==> op.addr.offset == value,
    {
        proof {
            lemma_mask_is_modulus(value, size);
        }
        Operand {
            addr: OperandAddr { space: OperandSpace::Const, offset: value & size.mask() },
            size,
        }
    }

    /// The two's complement encoding of minus `absolute_value` at the given
    /// width.
    pub fn negative_constant(absolute_value: u64, size: OperandSize) -> (op: Self)
        ensures
            op == Self::spec_negative_constant(absolute_value, size),
            op.addr.offset as int == (-(absolute_value as int)) % size.modulus(),
    {
        let negated: u64 = 0u64.wrapping_sub(absolute_value);
        proof {
            lemma_mask_is_modulus(negated, size);
            let m = size.modulus();
            let a = absolute_value as int;
            assert(negated as int == if a == 0 { 0 } else { 0x1_0000_0000_0000_0000 - a });
            assert((negated as int) % m == (-a) % m) by {
                if size == OperandSize::B1 {
                    assert((0x1_0000_0000_0000_0000 - a) % 0x100 == (-a) % 0x100);
                } else if size == OperandSize::B2 {
                    assert((0x1_0000_0000_0000_0000 - a) % 0x1_0000 == (-a) % 0x1_0000);
                } else if size == OperandSize::B4 {
                    assert((0x1_0000_0000_0000_0000 - a) % 0x1_0000_0000 == (-a) % 0x1_0000_0000);
                } else {
                    assert((0x1_0000_0000_0000_0000 - a) % 0x1_0000_0000_0000_0000 == (-a)
                        % 0x1_0000_0000_0000_0000);
                }
            }
            assert(((negated as int) % m) % m == (negated as int) % m);
        }
        Self::constant(negated, size)
    }

    /// The constant zero at a width.
    pub fn zero(size: OperandSize) -> (op: Self)
        ensures
            op == Self::spec_constant(0, size),
            op.addr.space == OperandSpace::Const,
            op.addr.offset == 0,
            op.size == size,
    {
        Self::constant(0, size)
    }

    /// A scratch location.
    pub fn tmp(offset: u64, size: OperandSize) -> (op: Self)
        ensures
            op == (Operand { addr: OperandAddr { space: OperandSpace::Tmp, offset }, size }),
    {
        Operand { addr: OperandAddr { space: OperandSpace::Tmp, offset }, size }
    }
}

/// The operations of the intermediate representation. Each takes two operands.
#[derive(Debug, Clone, Copy, PartialEq, Eq, Hash, Structural)]
pub enum Opcode {
    Move,
    Add,
    Store,
}

/// One operation on two operands.
#[derive(Debug, Clone, Copy, PartialEq, Eq, Hash)]
pub struct Insn {
    pub opcode: Opcode,
    pub operands: [Operand; 2],
}

impl Insn {
    /// The instruction that an operation and its two operands make.
    pub open spec fn spec_new(
        opcode: Opcode,
        first_operand: Operand,
        second_operand: Operand,
    ) -> Insn {
        Insn { opcode, operands: [first_operand, second_operand] }
    }

    pub fn new(opcode: Opcode, first_operand: Operand, second_operand: Operand) -> (insn: Self)
        ensures
            insn == Self::spec_new(opcode, first_operand, second_operand),
            insn.opcode == opcode,
            insn.operands[0] == first_operand,
            insn.operands[1] == second_operand,
    {
        let insn = Insn { opcode, operands: [first_operand, second_operand] };
        assert(insn.operands =~= Self::spec_new(opcode, first_operand, second_operand).operands);
        insn
    }
}

/// Why a byte sequence could not be lifted.
#[derive(Debug, Clone, Copy, PartialEq, Eq, Hash, Structural)]
pub enum DecodeError {
    /// Two legacy prefixes of one group stand before the opcode.
    MalformedPrefixes,
    /// The bytes after the prefixes match no lowering rule. `opcode` is the
    /// first of them and `remaining` their number.
    UnknownOpcode { opcode: u8, remaining: usize },
    /// A translation would have grown beyond its capacity.
    CapacityExceeded,
    /// The input ends before the opcode.
    Truncated,
}

/// `arrayvec::ArrayVec`, a vector of a fixed capacity that holds its elements
/// inline. Nothing of its inside is visible here; what it holds goes by the
/// name `insns_of`.
#[verifier::external_type_specification]
#[verifier::external_body]
#[verifier::reject_recursive_types(T)]
pub struct ExArrayVec<T, const CAP: usize>(ArrayVec<T, CAP>);

/// The storage of a translation.
pub type TranslationInsns = ArrayVec<Insn, TRANSLATION_MAX_INSNS>;

/// The instructions that a bounded vector holds, first pushed first.
pub uninterp spec fn insns_of(insns: TranslationInsns) -> Seq<Insn>;

/// `ArrayVec::new`: the vector starts out empty. It panics only for a capacity
/// beyond `u32::MAX`, which the capacity of a translation is not.
#[verifier::external_body]
fn insns_new() -> (insns: TranslationInsns)
    ensures
        insns_of(insns) == Seq::<Insn>::empty(),
{
    ArrayVec::new()
}

/// `ArrayVec::len`: the number of elements held, which never exceeds the
/// capacity.
#[verifier::external_body]
fn insns_len(insns: &TranslationInsns) -> (n: usize)
    ensures
        n == insns_of(*insns).len(),
        n <= TRANSLATION_MAX_INSNS,
{
    insns.len()
}

/// `ArrayVec::push`: appends the element behind those already held. It
/// panics on a full vector, which the precondition leaves out.
#[verifier::external_body]
pub(crate) fn insns_push(insns: &mut TranslationInsns, insn: Insn)
    requires
        insns_of(*old(insns)).len() < TRANSLATION_MAX_INSNS,
    ensures
        insns_of(*final(insns)) == insns_of(*old(insns)).push(insn),
{
    insns.push(insn)
}

/// `ArrayVec::as_slice`: a slice of all the elements held, in their order.
#[verifier::external_body]
fn insns_as_slice(insns: &TranslationInsns) -> (slice: &[Insn])
    ensures
        slice@ == insns_of(*insns),
{
    insns.as_slice()
}

/// `Clone::clone` of `ArrayVec`: a vector of clones of the elements, in the
/// same order. An instruction is plain data, so its clone equals it.
#[verifier::external_body]
fn insns_clone(insns: &TranslationInsns) -> (copy: TranslationInsns)
    ensures
        insns_of(copy) == insns_of(*insns),
{
    insns.clone()
}

/// The micro-operations that one source instruction lowers to, in the order
/// in which they execute.
#[derive(Debug, PartialEq, Eq, Hash)]
pub struct Translation {
    pub insns: TranslationInsns,
}

impl Clone for Translation {
    fn clone(&self) -> (copy: Self)
        ensures
            copy@ == self@,
    {
        Translation { insns: insns_clone(&self.insns) }
    }
}

impl View for Translation {
    type V = Seq<Insn>;

    open spec fn view(&self) -> Seq<Insn> {
        insns_of(self.insns)
    }
}

impl Translation {
    /// The empty translation.
    pub fn new() -> (translation: Self)
        ensures
            translation@ == Seq::<Insn>::empty(),
    {
        Translation { insns: insns_new() }
    }

    /// The number of instructions held.
    pub fn len(&self) -> (n: usize)
        ensures
            n == self@.len(),
            n <= TRANSLATION_MAX_INSNS,
    {
        insns_len(&self.insns)
    }

    /// The instructions, in their order.
    pub fn as_slice(&self) -> (slice: &[Insn])
        ensures
            slice@ == self@,
    {
        insns_as_slice(&self.insns)
    }

    /// The instruction at a position, if there is one.
    pub fn get(&self, i: usize) -> (insn: Option<&Insn>)
        ensures
            i < self@.len() ==> insn == Some(&self@[i as int]),
            i >= self@.len() ==> insn.is_none(),
    {
        let slice = insns_as_slice(&self.insns);
        if i < slice.len() {
            Some(&slice[i])
        } else {
            None
        }
    }

    /// Appends an instruction. A full translation is left as it is and the
    /// instruction is refused: nothing is ever dropped silently.
    pub fn push(&mut self, insn: Insn) -> (pushed: Result<(), DecodeError>)
        ensures
            old(self)@.len() < TRANSLATION_MAX_INSNS ==> pushed == Ok::<(), DecodeError>(())
                && final(self)@ == old(self)@.push(insn),
            old(self)@.len() >= TRANSLATION_MAX_INSNS ==> pushed == Err::<(), DecodeError>(
                DecodeError::CapacityExceeded,
            ) && final(self)@ == old(self)@,
    {
        if insns_len(&self.insns) < TRANSLATION_MAX_INSNS {
            insns_push(&mut self.insns, insn);
            Ok(())
        } else {
            Err(DecodeError::CapacityExceeded)
        }
    }
}

/// A target architecture: it lifts the bytes of one instruction.
pub trait ArchCtx {
    /// What the bytes of one instruction lift to on this architecture: the
    /// instructions in their order, or the reason why there are none.
    spec fn lifted(&self, code: Seq<u8>) -> Result<Seq<Insn>, DecodeError>;

    /// Lifts the bytes of one instruction.
    fn translate(&self, code: &[u8]) -> (lifted: Result<Translation, DecodeError>)
        ensures
            match lifted {
                Ok(translation) => self.lifted(code@) == Ok::<Seq<Insn>, DecodeError>(
                    translation@,
                ),
                Err(e) => self.lifted(code@) == Err::<Seq<Insn>, DecodeError>(e),
            },
    ;
}

} // verus!
