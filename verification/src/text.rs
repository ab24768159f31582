//! The text form of operands, instructions and translations, for
//! diagnostics: `Regs[0x20]:8`, `Add Regs[0x20]:8, Const[0xfffffffffffffff8]:8`.

use crate::{Insn, Opcode, Operand, OperandAddr, OperandSize, OperandSpace, Translation};
use vstd::prelude::*;

verus! {

/// `String::push` appends the character behind the text.
pub assume_specification[ String::push ](text: &mut String, ch: char)
    ensures
        final(text)@ == old(text)@.push(ch),
;

/// `String::push_str` appends the slice behind the text.
pub assume_specification[ String::push_str ](text: &mut String, string: &str)
    ensures
        final(text)@ == old(text)@ + string@,
;

/// The sixteen hexadecimal digits, in lower case.
pub open spec fn hex_digits() -> Seq<char> {
    seq!['0', '1', '2', '3', '4', '5', '6', '7', '8', '9', 'a', 'b', 'c', 'd', 'e', 'f']
}

/// A number in hexadecimal, without leading zeros; zero is `0`.
pub open spec fn hex_text(value: u64) -> Seq<char>
    decreases value,
{
    if value < 16 {
        seq![hex_digits()[value as int]]
    } else {
        hex_text(value / 16).push(hex_digits()[(value % 16) as int])
    }
}

/// The name of a space.
pub open spec fn space_text(space: OperandSpace) -> Seq<char> {
    match space {
        OperandSpace::Ram => seq!['R', 'a', 'm'],
        OperandSpace::Const => seq!['C', 'o', 'n', 's', 't'],
        OperandSpace::Regs => seq!['R', 'e', 'g', 's'],
        OperandSpace::Tmp => seq!['T', 'm', 'p'],
    }
}

/// The name of an operation.
pub open spec fn opcode_text(opcode: Opcode) -> Seq<char> {
    match opcode {
        Opcode::Move => seq!['M', 'o', 'v', 'e'],
        Opcode::Add => seq!['A', 'd', 'd'],
        Opcode::Store => seq!['S', 't', 'o', 'r', 'e'],
    }
}

/// The number of bytes of a size, as a digit.
pub open spec fn size_text(size: OperandSize) -> Seq<char> {
    match size {
        OperandSize::B1 => seq!['1'],
        OperandSize::B2 => seq!['2'],
        OperandSize::B4 => seq!['4'],
        OperandSize::B8 => seq!['8'],
    }
}

/// An address reads as the space, then the offset in hexadecimal between
/// square brackets.
pub open spec fn addr_text(addr: OperandAddr) -> Seq<char> {
    space_text(addr.space) + seq!['[', '0', 'x'] + hex_text(addr.offset) + seq![']']
}

/// An operand reads as its address, a colon and its size in bytes.
pub open spec fn operand_text(operand: Operand) -> Seq<char> {
    addr_text(operand.addr) + seq![':'] + size_text(operand.size)
}

/// An instruction reads as the operation, a space, and the two operands with
/// a comma and a space between them.
pub open spec fn insn_text(insn: Insn) -> Seq<char> {
    opcode_text(insn.opcode) + seq![' '] + operand_text(insn.operands[0]) + seq![',', ' ']
        + operand_text(insn.operands[1])
}

/// A translation reads as its instructions in order, each on a line of its
/// own.
pub open spec fn insns_text(insns: Seq<Insn>) -> Seq<char>
    decreases insns.len(),
{
    if insns.len() == 0 {
        Seq::<char>::empty()
    } else {
        insns_text(insns.drop_last()) + insn_text(insns.last()) + seq!['\n']
    }
}

fn hex_digit(nibble: u8) -> (digit: char)
    requires
        nibble < 16,
    ensures
        digit == hex_digits()[nibble as int],
{
    match nibble {
        0 => '0',
        1 => '1',
        2 => '2',
        3 => '3',
        4 => '4',
        5 => '5',
        6 => '6',
        7 => '7',
        8 => '8',
        9 => '9',
        10 => 'a',
        11 => 'b',
        12 => 'c',
        13 => 'd',
        14 => 'e',
        _ => 'f',
    }
}

fn push_hex(text: &mut String, value: u64)
    ensures
        final(text)@ == old(text)@ + hex_text(value),
    decreases value,
{
    if value >= 16 {
        push_hex(text, value / 16);
    }
    text.push(hex_digit((value % 16) as u8));
    assert(final(text)@ =~= old(text)@ + hex_text(value));
}

fn push_space(text: &mut String, space: OperandSpace)
    ensures
        final(text)@ == old(text)@ + space_text(space),
{
    proof {
        reveal_strlit("Ram");
        reveal_strlit("Const");
        reveal_strlit("Regs");
        reveal_strlit("Tmp");
    }
    let name = match space {
        OperandSpace::Ram => "Ram",
        OperandSpace::Const => "Const",
        OperandSpace::Regs => "Regs",
        OperandSpace::Tmp => "Tmp",
    };
    assert(name@ =~= space_text(space));
    text.push_str(name);
}

fn push_opcode(text: &mut String, opcode: Opcode)
    ensures
        final(text)@ == old(text)@ + opcode_text(opcode),
{
    proof {
        reveal_strlit("Move");
        reveal_strlit("Add");
        reveal_strlit("Store");
    }
    let name = match opcode {
        Opcode::Move => "Move",
        Opcode::Add => "Add",
        Opcode::Store => "Store",
    };
    assert(name@ =~= opcode_text(opcode));
    text.push_str(name);
}

fn push_size(text: &mut String, size: OperandSize)
    ensures
        final(text)@ == old(text)@ + size_text(size),
{
    let digit = match size {
        OperandSize::B1 => '1',
        OperandSize::B2 => '2',
        OperandSize::B4 => '4',
        OperandSize::B8 => '8',
    };
    text.push(digit);
    assert(final(text)@ =~= old(text)@ + size_text(size));
}

fn push_addr(text: &mut String, addr: &OperandAddr)
    ensures
        final(text)@ == old(text)@ + addr_text(*addr),
{
    push_space(text, addr.space);
    text.push('[');
    text.push('0');
    text.push('x');
    push_hex(text, addr.offset);
    text.push(']');
    assert(final(text)@ =~= old(text)@ + addr_text(*addr));
}

fn push_operand(text: &mut String, operand: &Operand)
    ensures
        final(text)@ == old(text)@ + operand_text(*operand),
{
    push_addr(text, &operand.addr);
    text.push(':');
    push_size(text, operand.size);
    assert(final(text)@ =~= old(text)@ + operand_text(*operand));
}

fn push_insn(text: &mut String, insn: &Insn)
    ensures
        final(text)@ == old(text)@ + insn_text(*insn),
{
    push_opcode(text, insn.opcode);
    text.push(' ');
    push_operand(text, &insn.operands[0]);
    text.push(',');
    text.push(' ');
    push_operand(text, &insn.operands[1]);
    assert(final(text)@ =~= old(text)@ + insn_text(*insn));
}

impl OperandAddr {
    /// The address as text, such as `Regs[0x20]`.
    pub fn to_string(&self) -> (text: String)
        ensures
            text@ == addr_text(*self),
    {
        let mut text = String::new();
        push_addr(&mut text, self);
        assert(text@ =~= addr_text(*self));
        text
    }
}

impl Operand {
    /// The operand as text, such as `Regs[0x20]:8`.
    pub fn to_string(&self) -> (text: String)
        ensures
            text@ == operand_text(*self),
    {
        let mut text = String::new();
        push_operand(&mut text, self);
        assert(text@ =~= operand_text(*self));
        text
    }
}

impl Insn {
    /// The instruction as text, such as `Store Regs[0x20]:8, Regs[0x8]:8`.
    pub fn to_string(&self) -> (text: String)
        ensures
            text@ == insn_text(*self),
    {
        let mut text = String::new();
        push_insn(&mut text, self);
        assert(text@ =~= insn_text(*self));
        text
    }
}

impl Translation {
    /// The translation as text: one line for each instruction, in order.
    pub fn to_string(&self) -> (text: String)
        ensures
            text@ == insns_text(self@),
    {
        let mut text = String::new();
        let insns = self.as_slice();
        let n = insns.len();
        let mut i: usize = 0;
        assert(self@.take(0) =~= Seq::<Insn>::empty());
        while i < n
            invariant
                insns@ == self@,
                n == self@.len(),
                i <= n,
                text@ == insns_text(self@.take(i as int)),
            decreases n - i,
        {
            push_insn(&mut text, &insns[i]);
            text.push('\n');
            proof {
                let longer = self@.take(i + 1);
                assert(longer.drop_last() =~= self@.take(i as int));
                assert(longer.last() == self@[i as int]);
            }
            i += 1;
        }
        assert(self@.take(n as int) =~= self@);
        text
    }
}

} // verus!
