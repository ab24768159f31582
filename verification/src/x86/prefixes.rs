//! Instruction prefixes: the legacy prefixes with their four groups, the REX
//! prefix, and their extraction from the front of the code.

use crate::DecodeError;
use vstd::multiset::group_multiset_axioms;
use vstd::prelude::*;
use vstd::seq_lib::{to_multiset_contains, to_multiset_remove};
use vstd::slice::slice_subrange;

verus! {

/// The four groups of legacy prefixes. An instruction takes at most one
/// prefix of each.
#[derive(Debug, PartialEq, Eq, Clone, Copy, Hash, Structural)]
pub enum LegacyPrefixGroup {
    Group1,
    Group2,
    Group3,
    Group4,
}

impl LegacyPrefixGroup {
    pub const GROUPS_AMOUNT: usize = 4;

    /// The place of this group among the four.
    pub open spec fn slot(&self) -> int {
        match self {
            LegacyPrefixGroup::Group1 => 0,
            LegacyPrefixGroup::Group2 => 1,
            LegacyPrefixGroup::Group3 => 2,
            LegacyPrefixGroup::Group4 => 3,
        }
    }

    pub fn index(&self) -> (i: usize)
        ensures
            i == self.slot(),
            i < 4,
    {
        match self {
            LegacyPrefixGroup::Group1 => 0,
            LegacyPrefixGroup::Group2 => 1,
            LegacyPrefixGroup::Group3 => 2,
            LegacyPrefixGroup::Group4 => 3,
        }
    }
}

/// The bytes that may stand before an opcode and change its meaning.
#[derive(Debug, PartialEq, Eq, Clone, Copy, Hash, Structural)]
pub enum LegacyPrefix {
    Lock,
    Repnz,
    RepOrRepz,
    CsSegmentOverrideOrBranchNotTaken,
    SsSegmentOverride,
    DsSegmentOverrideOrBranchTaken,
    EsSegmentOverride,
    FsSegmentOverride,
    GsSegmentOverride,
    OperandSizeOverride,
    AddressSizeOverride,
}

impl LegacyPrefix {
    /// The byte that encodes this prefix.
    pub open spec fn spec_byte(&self) -> u8 {
        match self {
            LegacyPrefix::Lock => 0xf0,
            LegacyPrefix::Repnz => 0xf2,
            LegacyPrefix::RepOrRepz => 0xf3,
            LegacyPrefix::CsSegmentOverrideOrBranchNotTaken => 0x2e,
            LegacyPrefix::SsSegmentOverride => 0x36,
            LegacyPrefix::DsSegmentOverrideOrBranchTaken => 0x3e,
            LegacyPrefix::EsSegmentOverride => 0x26,
            LegacyPrefix::FsSegmentOverride => 0x64,
            LegacyPrefix::GsSegmentOverride => 0x65,
            LegacyPrefix::OperandSizeOverride => 0x66,
            LegacyPrefix::AddressSizeOverride => 0x67,
        }
    }

    /// The prefix that a byte encodes, if it encodes one.
    pub open spec fn spec_from_byte(byte: u8) -> Option<LegacyPrefix> {
        if byte == 0xf0 {
            Some(LegacyPrefix::Lock)
        } else if byte == 0xf2 {
            Some(LegacyPrefix::Repnz)
        } else if byte == 0xf3 {
            Some(LegacyPrefix::RepOrRepz)
        } else if byte == 0x2e {
            Some(LegacyPrefix::CsSegmentOverrideOrBranchNotTaken)
        } else if byte == 0x36 {
            Some(LegacyPrefix::SsSegmentOverride)
        } else if byte == 0x3e {
            Some(LegacyPrefix::DsSegmentOverrideOrBranchTaken)
        } else if byte == 0x26 {
            Some(LegacyPrefix::EsSegmentOverride)
        } else if byte == 0x64 {
            Some(LegacyPrefix::FsSegmentOverride)
        } else if byte == 0x65 {
            Some(LegacyPrefix::GsSegmentOverride)
        } else if byte == 0x66 {
            Some(LegacyPrefix::OperandSizeOverride)
        } else if byte == 0x67 {
            Some(LegacyPrefix::AddressSizeOverride)
        } else {
            None
        }
    }

    /// The group that this prefix belongs to.
    pub open spec fn spec_group(&self) -> LegacyPrefixGroup {
        match self {
            LegacyPrefix::Lock | LegacyPrefix::Repnz | LegacyPrefix::RepOrRepz => {
                LegacyPrefixGroup::Group1
            },
            LegacyPrefix::CsSegmentOverrideOrBranchNotTaken
            | LegacyPrefix::SsSegmentOverride
            | LegacyPrefix::DsSegmentOverrideOrBranchTaken
            | LegacyPrefix::EsSegmentOverride
            | LegacyPrefix::FsSegmentOverride
            | LegacyPrefix::GsSegmentOverride => LegacyPrefixGroup::Group2,
            LegacyPrefix::OperandSizeOverride => LegacyPrefixGroup::Group3,
            LegacyPrefix::AddressSizeOverride => LegacyPrefixGroup::Group4,
        }
    }

    pub fn byte(&self) -> (byte: u8)
        ensures
            byte == self.spec_byte(),
            Self::spec_from_byte(byte) == Some(*self),
    {
        match self {
            LegacyPrefix::Lock => 0xf0,
            LegacyPrefix::Repnz => 0xf2,
            LegacyPrefix::RepOrRepz => 0xf3,
            LegacyPrefix::CsSegmentOverrideOrBranchNotTaken => 0x2e,
            LegacyPrefix::SsSegmentOverride => 0x36,
            LegacyPrefix::DsSegmentOverrideOrBranchTaken => 0x3e,
            LegacyPrefix::EsSegmentOverride => 0x26,
            LegacyPrefix::FsSegmentOverride => 0x64,
            LegacyPrefix::GsSegmentOverride => 0x65,
            LegacyPrefix::OperandSizeOverride => 0x66,
            LegacyPrefix::AddressSizeOverride => 0x67,
        }
    }

    /// Reads a byte as a legacy prefix.
    pub fn from_byte(byte: u8) -> (prefix: Option<LegacyPrefix>)
        ensures
            prefix == Self::spec_from_byte(byte),
            prefix matches Some(p) ==> p.spec_byte() == byte,
    {
        match byte {
            0xf0 => Some(LegacyPrefix::Lock),
            0xf2 => Some(LegacyPrefix::Repnz),
            0xf3 => Some(LegacyPrefix::RepOrRepz),
            0x2e => Some(LegacyPrefix::CsSegmentOverrideOrBranchNotTaken),
            0x36 => Some(LegacyPrefix::SsSegmentOverride),
            0x3e => Some(LegacyPrefix::DsSegmentOverrideOrBranchTaken),
            0x26 => Some(LegacyPrefix::EsSegmentOverride),
            0x64 => Some(LegacyPrefix::FsSegmentOverride),
            0x65 => Some(LegacyPrefix::GsSegmentOverride),
            0x66 => Some(LegacyPrefix::OperandSizeOverride),
            0x67 => Some(LegacyPrefix::AddressSizeOverride),
            _ => None,
        }
    }

    pub fn group(&self) -> (group: LegacyPrefixGroup)
        ensures
            group == self.spec_group(),
    {
        match self {
            LegacyPrefix::Lock | LegacyPrefix::Repnz | LegacyPrefix::RepOrRepz => {
                LegacyPrefixGroup::Group1
            },
            LegacyPrefix::CsSegmentOverrideOrBranchNotTaken
            | LegacyPrefix::SsSegmentOverride
            | LegacyPrefix::DsSegmentOverrideOrBranchTaken
            | LegacyPrefix::EsSegmentOverride
            | LegacyPrefix::FsSegmentOverride
            | LegacyPrefix::GsSegmentOverride => LegacyPrefixGroup::Group2,
            LegacyPrefix::OperandSizeOverride => LegacyPrefixGroup::Group3,
            LegacyPrefix::AddressSizeOverride => LegacyPrefixGroup::Group4,
        }
    }
}

/// The legacy prefixes of one instruction: for each group the prefix that
/// was given, if any.
#[derive(Debug, PartialEq, Eq, Clone, Copy, Hash)]
pub struct InsnLegacyPrefixes {
    pub by_group: [Option<LegacyPrefix>; 4],
}

impl InsnLegacyPrefixes {
    /// The prefix recorded for a group.
    pub open spec fn slot(&self, group: LegacyPrefixGroup) -> Option<LegacyPrefix> {
        self.by_group@[group.slot()]
    }

    /// Whether a prefix is among those recorded.
    pub open spec fn spec_contains(&self, prefix: LegacyPrefix) -> bool {
        self.slot(prefix.spec_group()) == Some(prefix)
    }

    /// Every recorded prefix stands in the slot of its own group.
    pub open spec fn wf(&self) -> bool {
        forall|group: LegacyPrefixGroup|
            match #[trigger] self.slot(group) {
                Some(p) => p.spec_group() == group,
                None => true,
            }
    }

    /// No prefix at all.
    pub fn new() -> (prefixes: Self)
        ensures
            prefixes.by_group@ == seq![
                None::<LegacyPrefix>,
                None::<LegacyPrefix>,
                None::<LegacyPrefix>,
                None::<LegacyPrefix>,
            ],
            prefixes.wf(),
            forall|p: LegacyPrefix| !prefixes.spec_contains(p),
    {
        let prefixes = InsnLegacyPrefixes { by_group: [None, None, None, None] };
        assert(prefixes.by_group@ =~= seq![
            None::<LegacyPrefix>,
            None::<LegacyPrefix>,
            None::<LegacyPrefix>,
            None::<LegacyPrefix>,
        ]);
        prefixes
    }

    /// Records a prefix in the slot of its group. Where the slot is taken,
    /// by another prefix of the group or by the same one, the prefixes are
    /// malformed and nothing is recorded.
    pub fn add(&mut self, prefix: LegacyPrefix) -> (added: Result<(), DecodeError>)
        ensures
            old(self).slot(prefix.spec_group()) is None ==> {
                &&& added == Ok::<(), DecodeError>(())
                &&& final(self).by_group@ == old(self).by_group@.update(
                    prefix.spec_group().slot(),
                    Some(prefix),
                )
                &&& final(self).spec_contains(prefix)
            },
            old(self).slot(prefix.spec_group()) is Some ==> {
                &&& added == Err::<(), DecodeError>(DecodeError::MalformedPrefixes)
                &&& *final(self) == *old(self)
            },
            old(self).wf() ==> final(self).wf(),
    {
        let group = prefix.group();
        if self.by_group[group.index()].is_some() {
            return Err(DecodeError::MalformedPrefixes);
        }
        self.by_group[group.index()] = Some(prefix);
        proof {
            assert forall|g: LegacyPrefixGroup| g != group implies final(self).slot(g) == old(
                self,
            ).slot(g) by {
                assert(g.slot() != group.slot());
            }
        }
        Ok(())
    }

    pub fn contains(&self, prefix: LegacyPrefix) -> (found: bool)
        ensures
            found == self.spec_contains(prefix),
    {
        match self.by_group[prefix.group().index()] {
            Some(p) => p == prefix,
            None => false,
        }
    }
}

/// The REX prefix: four flags in the low four bits of a byte whose high
/// four bits are `0100`. The flags are packed from the lowest bit up, in
/// the order W, R, X, B.
#[derive(Debug, Clone, Copy, PartialEq, Eq, Hash, Structural)]
pub struct RexPrefix {
    pub w_bit: bool,
    pub r_bit: bool,
    pub x_bit: bool,
    pub b_bit: bool,
}

impl RexPrefix {
    /// The flags that the low four bits of a byte hold.
    pub open spec fn spec_from_bits(bits: u8) -> RexPrefix {
        RexPrefix {
            w_bit: bits & 1 != 0,
            r_bit: bits & 2 != 0,
            x_bit: bits & 4 != 0,
            b_bit: bits & 8 != 0,
        }
    }

    /// The four bits that hold these flags.
    pub open spec fn spec_bits(&self) -> u8 {
        ((if self.w_bit { 1int } else { 0 }) + (if self.r_bit { 2int } else { 0 })
            + (if self.x_bit { 4int } else { 0 }) + (if self.b_bit { 8int } else { 0 })) as u8
    }

    /// Decodes the low four bits of a byte. The bits above them are ignored.
    pub fn from_bits(bits: u8) -> (rex: RexPrefix)
        ensures
            rex == Self::spec_from_bits(bits),
            rex.spec_bits() == bits & 0xf,
    {
        proof {
            lemma_rex_bits_round_trip(bits);
        }
        RexPrefix {
            w_bit: bits & 1 != 0,
            r_bit: bits & 2 != 0,
            x_bit: bits & 4 != 0,
            b_bit: bits & 8 != 0,
        }
    }

    /// Encodes the flags as four bits.
    pub fn bits(&self) -> (bits: u8)
        ensures
            bits == self.spec_bits(),
            bits <= 0xf,
    {
        let w: u8 = if self.w_bit { 1 } else { 0 };
        let r: u8 = if self.r_bit { 2 } else { 0 };
        let x: u8 = if self.x_bit { 4 } else { 0 };
        let b: u8 = if self.b_bit { 8 } else { 0 };
        w + r + x + b
    }

    /// Whether the operand is 64 bits wide.
    pub fn w_bit(&self) -> (bit: bool)
        ensures
            bit == self.w_bit,
    {
        self.w_bit
    }

    pub fn r_bit(&self) -> (bit: bool)
        ensures
            bit == self.r_bit,
    {
        self.r_bit
    }

    pub fn x_bit(&self) -> (bit: bool)
        ensures
            bit == self.x_bit,
    {
        self.x_bit
    }

    pub fn b_bit(&self) -> (bit: bool)
        ensures
            bit == self.b_bit,
    {
        self.b_bit
    }
}

/// Decoding the low four bits of a byte into the four flags and encoding
/// them again gives those four bits back.
pub proof fn lemma_rex_bits_round_trip(byte: u8)
    ensures
        RexPrefix::spec_from_bits(byte).spec_bits() == byte & 0xf,
        RexPrefix::spec_from_bits(byte & 0xf) == RexPrefix::spec_from_bits(byte),
{
    assert(((if byte & 1 != 0 { 1int } else { 0 }) + (if byte & 2 != 0 { 2int } else { 0 })
        + (if byte & 4 != 0 { 4int } else { 0 }) + (if byte & 8 != 0 { 8int } else { 0 })) == (byte
        & 0xf) as int) by (bit_vector);
    assert((byte & 0xf) & 1 == byte & 1) by (bit_vector);
    assert((byte & 0xf) & 2 == byte & 2) by (bit_vector);
    assert((byte & 0xf) & 4 == byte & 4) by (bit_vector);
    assert((byte & 0xf) & 8 == byte & 8) by (bit_vector);
}

/// Whether a byte encodes a legacy prefix.
pub open spec fn is_legacy_prefix_byte(byte: u8) -> bool {
    LegacyPrefix::spec_from_byte(byte) is Some
}

/// The group of the legacy prefix that a byte encodes, if it encodes one.
pub open spec fn byte_group(byte: u8) -> Option<LegacyPrefixGroup> {
    match LegacyPrefix::spec_from_byte(byte) {
        Some(prefix) => Some(prefix.spec_group()),
        None => None,
    }
}

/// How many legacy prefix bytes stand at the front of the code.
pub open spec fn legacy_run_len(code: Seq<u8>) -> nat
    decreases code.len(),
{
    if code.len() > 0 && is_legacy_prefix_byte(code[0]) {
        1 + legacy_run_len(code.drop_first())
    } else {
        0
    }
}

/// The legacy prefix bytes at the front of the code.
pub open spec fn legacy_run(code: Seq<u8>) -> Seq<u8> {
    code.take(legacy_run_len(code) as int)
}

/// Whether two of the bytes, at different places, encode prefixes of one
/// group. The same prefix given twice counts.
pub open spec fn has_group_conflict(run: Seq<u8>) -> bool {
    exists|i: int, j: int|
        #![trigger run[i], run[j]]
        0 <= i < run.len() && 0 <= j < run.len() && i != j && byte_group(run[i]) is Some
            && byte_group(run[i]) == byte_group(run[j])
}

/// Whether the byte of a prefix is among the bytes.
pub open spec fn has_prefix(run: Seq<u8>, prefix: LegacyPrefix) -> bool {
    run.contains(prefix.spec_byte())
}

/// The prefix of a group that is among the bytes, if there is one. The order
/// of the bytes plays no part in it.
pub open spec fn group_slot(run: Seq<u8>, group: LegacyPrefixGroup) -> Option<LegacyPrefix> {
    match group {
        LegacyPrefixGroup::Group1 => if has_prefix(run, LegacyPrefix::Lock) {
            Some(LegacyPrefix::Lock)
        } else if has_prefix(run, LegacyPrefix::Repnz) {
            Some(LegacyPrefix::Repnz)
        } else if has_prefix(run, LegacyPrefix::RepOrRepz) {
            Some(LegacyPrefix::RepOrRepz)
        } else {
            None
        },
        LegacyPrefixGroup::Group2 => if has_prefix(
            run,
            LegacyPrefix::CsSegmentOverrideOrBranchNotTaken,
        ) {
            Some(LegacyPrefix::CsSegmentOverrideOrBranchNotTaken)
        } else if has_prefix(run, LegacyPrefix::SsSegmentOverride) {
            Some(LegacyPrefix::SsSegmentOverride)
        } else if has_prefix(run, LegacyPrefix::DsSegmentOverrideOrBranchTaken) {
            Some(LegacyPrefix::DsSegmentOverrideOrBranchTaken)
        } else if has_prefix(run, LegacyPrefix::EsSegmentOverride) {
            Some(LegacyPrefix::EsSegmentOverride)
        } else if has_prefix(run, LegacyPrefix::FsSegmentOverride) {
            Some(LegacyPrefix::FsSegmentOverride)
        } else if has_prefix(run, LegacyPrefix::GsSegmentOverride) {
            Some(LegacyPrefix::GsSegmentOverride)
        } else {
            None
        },
        LegacyPrefixGroup::Group3 => if has_prefix(run, LegacyPrefix::OperandSizeOverride) {
            Some(LegacyPrefix::OperandSizeOverride)
        } else {
            None
        },
        LegacyPrefixGroup::Group4 => if has_prefix(run, LegacyPrefix::AddressSizeOverride) {
            Some(LegacyPrefix::AddressSizeOverride)
        } else {
            None
        },
    }
}

/// The four slots that the bytes fill, one for each group.
pub open spec fn legacy_slots(run: Seq<u8>) -> Seq<Option<LegacyPrefix>> {
    seq![
        group_slot(run, LegacyPrefixGroup::Group1),
        group_slot(run, LegacyPrefixGroup::Group2),
        group_slot(run, LegacyPrefixGroup::Group3),
        group_slot(run, LegacyPrefixGroup::Group4),
    ]
}

/// The run of legacy prefixes ends within the code, holds prefix bytes only,
/// and stops at the first byte that is none.
pub proof fn lemma_legacy_run_len(code: Seq<u8>)
    ensures
        legacy_run_len(code) <= code.len(),
        forall|k: int|
            0 <= k < legacy_run_len(code) ==> is_legacy_prefix_byte(#[trigger] code[k]),
        legacy_run_len(code) < code.len() ==> !is_legacy_prefix_byte(
            code[legacy_run_len(code) as int],
        ),
    decreases code.len(),
{
    if code.len() > 0 && is_legacy_prefix_byte(code[0]) {
        let tail = code.drop_first();
        lemma_legacy_run_len(tail);
        let n = legacy_run_len(tail) as int;
        assert forall|k: int| 0 <= k < n + 1 implies is_legacy_prefix_byte(#[trigger] code[k]) by {
            if k > 0 {
                assert(code[k] == tail[k - 1]);
            }
        }
        if n + 1 < code.len() {
            assert(code[n + 1] == tail[n]);
        }
    }
}

/// A slot holds a prefix of its group whose byte is among the bytes; it is
/// empty exactly when no byte encodes a prefix of the group.
pub proof fn lemma_group_slot(run: Seq<u8>, group: LegacyPrefixGroup)
    ensures
        match group_slot(run, group) {
            Some(prefix) => prefix.spec_group() == group && has_prefix(run, prefix),
            None => forall|k: int|
                0 <= k < run.len() ==> byte_group(#[trigger] run[k]) != Some(group),
        },
{
    if group_slot(run, group) is None {
        assert forall|k: int| 0 <= k < run.len() implies byte_group(#[trigger] run[k]) != Some(
            group,
        ) by {
            if byte_group(run[k]) == Some(group) {
                let prefix = LegacyPrefix::spec_from_byte(run[k]).unwrap();
                assert(prefix.spec_byte() == run[k]);
                assert(has_prefix(run, prefix));
            }
        }
    }
}

/// Among bytes free of conflict, a prefix stands in the slot of its group
/// exactly when its byte is among them.
pub proof fn lemma_slot_holds_present_prefix(run: Seq<u8>, prefix: LegacyPrefix)
    requires
        !has_group_conflict(run),
    ensures
        group_slot(run, prefix.spec_group()) == Some(prefix) <==> has_prefix(run, prefix),
{
    let group = prefix.spec_group();
    lemma_group_slot(run, group);
    if has_prefix(run, prefix) {
        let i = choose|i: int| 0 <= i < run.len() && run[i] == prefix.spec_byte();
        assert(byte_group(run[i]) == Some(group));
        let held = group_slot(run, group).unwrap();
        if held != prefix {
            let j = choose|j: int| 0 <= j < run.len() && run[j] == held.spec_byte();
            assert(byte_group(run[i]) == byte_group(run[j]));
            assert(false);
        }
    }
}

/// Prefixes that fill their slots from bytes free of conflict contain a
/// prefix exactly when its byte is among the bytes.
pub proof fn lemma_contains_present_prefixes(prefixes: InsnLegacyPrefixes, run: Seq<u8>)
    requires
        !has_group_conflict(run),
        prefixes.by_group@ == legacy_slots(run),
    ensures
        forall|prefix: LegacyPrefix| #[trigger]
            prefixes.spec_contains(prefix) <==> has_prefix(run, prefix),
{
    assert forall|prefix: LegacyPrefix| #[trigger]
        prefixes.spec_contains(prefix) <==> has_prefix(run, prefix) by {
        lemma_slot_holds_present_prefix(run, prefix);
        assert(prefixes.slot(prefix.spec_group()) == group_slot(run, prefix.spec_group()));
    }
}

/// A further prefix of a group that is taken already makes a conflict.
pub proof fn lemma_taken_group_conflicts(run: Seq<u8>, byte: u8)
    requires
        byte_group(byte) matches Some(group) && group_slot(run, group) is Some,
    ensures
        has_group_conflict(run.push(byte)),
{
    let group = byte_group(byte).unwrap();
    lemma_group_slot(run, group);
    let held = group_slot(run, group).unwrap();
    let k = choose|k: int| 0 <= k < run.len() && run[k] == held.spec_byte();
    let longer = run.push(byte);
    assert(longer[k] == run[k]);
    assert(longer[run.len() as int] == byte);
    assert(byte_group(longer[k]) == Some(group));
}

/// A prefix of a group that is free yet fills the slot of its group, leaves
/// the other slots as they were, and makes no conflict.
pub proof fn lemma_free_group_fills(run: Seq<u8>, byte: u8)
    requires
        !has_group_conflict(run),
        byte_group(byte) matches Some(group) && group_slot(run, group) is None,
    ensures
        !has_group_conflict(run.push(byte)),
        legacy_slots(run.push(byte)) == legacy_slots(run).update(
            byte_group(byte).unwrap().slot(),
            LegacyPrefix::spec_from_byte(byte),
        ),
{
    let group = byte_group(byte).unwrap();
    let prefix = LegacyPrefix::spec_from_byte(byte).unwrap();
    let longer = run.push(byte);
    lemma_group_slot(run, group);
    assert forall|x: u8| longer.contains(x) <==> (run.contains(x) || x == byte) by {
        if run.contains(x) {
            let k = choose|k: int| 0 <= k < run.len() && run[k] == x;
            assert(longer[k] == x);
        }
        if x == byte {
            assert(longer[run.len() as int] == x);
        }
        if longer.contains(x) {
            let k = choose|k: int| 0 <= k < longer.len() && longer[k] == x;
            if k < run.len() {
                assert(run[k] == x);
            }
        }
    }
    assert forall|q: LegacyPrefix| q.spec_group() == group implies !has_prefix(run, q) by {
        if has_prefix(run, q) {
            let k = choose|k: int| 0 <= k < run.len() && run[k] == q.spec_byte();
            assert(byte_group(run[k]) == Some(group));
        }
    }
    assert(prefix.spec_byte() == byte);
    assert(group_slot(longer, group) == Some(prefix));
    assert forall|other: LegacyPrefixGroup| other != group implies group_slot(longer, other)
        == group_slot(run, other) by {}
    assert(legacy_slots(longer) =~= legacy_slots(run).update(group.slot(), Some(prefix)));
    if has_group_conflict(longer) {
        let (i, j) = choose|i: int, j: int|
            #![trigger longer[i], longer[j]]
            0 <= i < longer.len() && 0 <= j < longer.len() && i != j && byte_group(longer[i])
                is Some && byte_group(longer[i]) == byte_group(longer[j]);
        if i < run.len() && j < run.len() {
            assert(run[i] == longer[i] && run[j] == longer[j]);
            assert(false);
        } else if i < run.len() {
            assert(run[i] == longer[i]);
            assert(false);
        } else {
            assert(run[j] == longer[j]);
            assert(false);
        }
    }
}

/// A conflict among the first bytes of a run is a conflict of the run.
pub proof fn lemma_conflict_extends(run: Seq<u8>, n: int)
    requires
        0 <= n <= run.len(),
        has_group_conflict(run.take(n)),
    ensures
        has_group_conflict(run),
{
    let part = run.take(n);
    let (i, j) = choose|i: int, j: int|
        #![trigger part[i], part[j]]
        0 <= i < part.len() && 0 <= j < part.len() && i != j && byte_group(part[i]) is Some
            && byte_group(part[i]) == byte_group(part[j]);
    assert(run[i] == part[i] && run[j] == part[j]);
}

/// Reads the legacy prefixes at the cursor and moves the cursor behind them,
/// to the first byte that encodes none. Two prefixes of one group are a
/// decode error, and the cursor then stays where it was.
pub fn extract_legacy_prefixes(code: &mut &[u8]) -> (extracted: Result<
    InsnLegacyPrefixes,
    DecodeError,
>)
    ensures
        match extracted {
            Ok(prefixes) => {
                &&& !has_group_conflict(legacy_run(old(code)@))
                &&& prefixes.by_group@ == legacy_slots(legacy_run(old(code)@))
                &&& prefixes.wf()
                &&& forall|prefix: LegacyPrefix| #[trigger]
                    prefixes.spec_contains(prefix) <==> has_prefix(legacy_run(old(code)@), prefix)
                &&& final(code)@ == old(code)@.skip(legacy_run_len(old(code)@) as int)
            },
            Err(e) => {
                &&& e == DecodeError::MalformedPrefixes
                &&& has_group_conflict(legacy_run(old(code)@))
                &&& final(code)@ == old(code)@
            },
        },
{
    let start: &[u8] = *code;
    let mut prefixes = InsnLegacyPrefixes::new();
    let mut i: usize = 0;
    proof {
        assert(start@.take(0) =~= Seq::<u8>::empty());
        assert(prefixes.by_group@ =~= legacy_slots(start@.take(0)));
    }
    while i < start.len()
        invariant
            *code == start,
            start == *old(code),
            i <= start.len(),
            forall|k: int| 0 <= k < i ==> is_legacy_prefix_byte(#[trigger] start@[k]),
            !has_group_conflict(start@.take(i as int)),
            prefixes.by_group@ == legacy_slots(start@.take(i as int)),
            prefixes.wf(),
        ensures
            i <= start.len(),
            i < start.len() ==> !is_legacy_prefix_byte(start@[i as int]),
        decreases start.len() - i,
    {
        let byte: u8 = start[i];
        match LegacyPrefix::from_byte(byte) {
            None => {
                break ;
            },
            Some(prefix) => {
                proof {
                    lemma_legacy_run_len(start@);
                    assert(start@.take(i + 1) =~= start@.take(i as int).push(byte));
                    assert(legacy_run_len(start@) > i);
                    if prefixes.slot(prefix.spec_group()) is Some {
                        lemma_taken_group_conflicts(start@.take(i as int), byte);
                        assert(legacy_run(start@).take(i + 1) =~= start@.take(i + 1));
                        lemma_conflict_extends(legacy_run(start@), i + 1);
                    } else {
                        lemma_free_group_fills(start@.take(i as int), byte);
                    }
                }
                match prefixes.add(prefix) {
                    Ok(()) => {},
                    Err(e) => {
                        return Err(e);
                    },
                }
                i += 1;
            },
        }
    }
    proof {
        lemma_legacy_run_len(start@);
        assert(legacy_run_len(start@) == i);
        assert(legacy_run(start@) =~= start@.take(i as int));
        lemma_contains_present_prefixes(prefixes, legacy_run(start@));
    }
    *code = slice_subrange(start, i, start.len());
    proof {
        assert(start@.subrange(i as int, start@.len() as int) =~= start@.skip(i as int));
    }
    Ok(prefixes)
}

/// Whether a byte is a REX prefix: its high four bits are `0100`.
pub open spec fn is_rex_byte(byte: u8) -> bool {
    byte & 0xf0 == 0x40
}

/// The REX prefixes are the bytes from `0x40` to `0x4f`.
pub proof fn lemma_rex_byte_range(byte: u8)
    ensures
        is_rex_byte(byte) <==> 0x40 <= byte <= 0x4f,
{
    assert((byte & 0xf0 == 0x40) <==> (0x40 <= byte && byte <= 0x4f)) by (bit_vector);
}

/// The REX prefix at the front of the bytes, if they start with one.
pub open spec fn rex_at(rest: Seq<u8>) -> Option<RexPrefix> {
    if rest.len() > 0 && is_rex_byte(rest[0]) {
        Some(RexPrefix::spec_from_bits(rest[0]))
    } else {
        None
    }
}

/// The number of bytes that the REX prefix at the front takes: one or none.
pub open spec fn rex_len(rest: Seq<u8>) -> nat {
    if rest.len() > 0 && is_rex_byte(rest[0]) {
        1
    } else {
        0
    }
}

/// Reads a REX prefix at the cursor, if one stands there, and moves the
/// cursor behind it. Otherwise, and where no byte is left, the cursor stays.
pub fn extract_rex_prefix(code: &mut &[u8]) -> (rex: Option<RexPrefix>)
    ensures
        rex == rex_at(old(code)@),
        final(code)@ == old(code)@.skip(rex_len(old(code)@) as int),
        rex matches Some(found) ==> found.spec_bits() == old(code)@[0] & 0xf,
{
    let start: &[u8] = *code;
    if start.len() > 0 && start[0] & 0xf0 == 0x40 {
        let rex_prefix = RexPrefix::from_bits(start[0] & 0xf);
        proof {
            lemma_rex_bits_round_trip(start@[0]);
            let byte = start@[0];
            assert((byte & 0xf) & 0xf == byte & 0xf) by (bit_vector);
        }
        *code = slice_subrange(start, 1, start.len());
        proof {
            assert(start@.subrange(1, start@.len() as int) =~= start@.skip(1));
        }
        Some(rex_prefix)
    } else {
        proof {
            assert(start@.skip(0) =~= start@);
        }
        None
    }
}

/// All the prefixes of one instruction.
#[derive(Debug, Clone, Copy, PartialEq, Eq, Hash)]
pub struct InsnPrefixes {
    pub legacy: InsnLegacyPrefixes,
    pub rex: Option<RexPrefix>,
}

impl InsnPrefixes {
    /// Whether a REX prefix is present with its W flag set.
    pub open spec fn rex_w(&self) -> bool {
        self.rex matches Some(rex) && rex.w_bit
    }
}

/// The number of bytes that the prefixes take at the front of the code: the
/// legacy prefixes, and the REX prefix where one follows them directly.
pub open spec fn prefixes_len(code: Seq<u8>) -> nat {
    legacy_run_len(code) + rex_len(code.skip(legacy_run_len(code) as int))
}

/// The REX prefix of the code: the one that follows the legacy prefixes
/// directly, if any.
pub open spec fn rex_of(code: Seq<u8>) -> Option<RexPrefix> {
    rex_at(code.skip(legacy_run_len(code) as int))
}

/// Reads all prefixes at the cursor, the legacy ones and then REX, and moves
/// the cursor to the opcode. Where the legacy prefixes are in conflict the
/// cursor stays where it was.
pub fn extract_prefixes(code: &mut &[u8]) -> (extracted: Result<InsnPrefixes, DecodeError>)
    ensures
        match extracted {
            Ok(prefixes) => {
                &&& !has_group_conflict(legacy_run(old(code)@))
                &&& prefixes.legacy.by_group@ == legacy_slots(legacy_run(old(code)@))
                &&& prefixes.legacy.wf()
                &&& forall|prefix: LegacyPrefix| #[trigger]
                    prefixes.legacy.spec_contains(prefix) <==> has_prefix(
                        legacy_run(old(code)@),
                        prefix,
                    )
                &&& prefixes.rex == rex_of(old(code)@)
                &&& final(code)@ == old(code)@.skip(prefixes_len(old(code)@) as int)
            },
            Err(e) => {
                &&& e == DecodeError::MalformedPrefixes
                &&& has_group_conflict(legacy_run(old(code)@))
                &&& final(code)@ == old(code)@
            },
        },
{
    let legacy = match extract_legacy_prefixes(code) {
        Ok(legacy) => legacy,
        Err(e) => {
            return Err(e);
        },
    };
    let rex = extract_rex_prefix(code);
    proof {
        lemma_legacy_run_len(old(code)@);
        let n = legacy_run_len(old(code)@) as int;
        let k = rex_len(old(code)@.skip(n)) as int;
        assert(old(code)@.skip(n).skip(k) =~= old(code)@.skip(n + k));
    }
    Ok(InsnPrefixes { legacy, rex })
}

/// Prefix bytes in front of a code lengthen its run of legacy prefixes by
/// their number.
pub proof fn lemma_legacy_run_behind_prefixes(front: Seq<u8>, rest: Seq<u8>)
    requires
        forall|k: int| 0 <= k < front.len() ==> is_legacy_prefix_byte(#[trigger] front[k]),
    ensures
        legacy_run_len(front + rest) == front.len() + legacy_run_len(rest),
        legacy_run(front + rest) == front + legacy_run(rest),
        (front + rest).skip(legacy_run_len(front + rest) as int) == rest.skip(
            legacy_run_len(rest) as int,
        ),
    decreases front.len(),
{
    lemma_legacy_run_len(rest);
    if front.len() == 0 {
        assert(front + rest =~= rest);
    } else {
        let tail = front.drop_first();
        assert forall|k: int| 0 <= k < tail.len() implies is_legacy_prefix_byte(
            #[trigger] tail[k],
        ) by {
            assert(tail[k] == front[k + 1]);
        }
        lemma_legacy_run_behind_prefixes(tail, rest);
        assert((front + rest).drop_first() =~= tail + rest);
        assert((front + rest)[0] == front[0]);
    }
    let n = legacy_run_len(rest) as int;
    assert((front + rest).take(front.len() + n) =~= front + rest.take(n));
    assert((front + rest).skip(front.len() + n) =~= rest.skip(n));
}

/// Two sequences of the same bytes, in whatever order, fill the same slots,
/// and where one is free of conflict so is the other.
pub proof fn lemma_slots_of_permutation(first: Seq<u8>, second: Seq<u8>)
    requires
        first.to_multiset() == second.to_multiset(),
        !has_group_conflict(first),
    ensures
        !has_group_conflict(second),
        legacy_slots(first) == legacy_slots(second),
{
    broadcast use group_multiset_axioms;

    assert forall|x: u8| first.contains(x) <==> second.contains(x) by {
        to_multiset_contains(first, x);
        to_multiset_contains(second, x);
    }
    assert(legacy_slots(first) =~= legacy_slots(second));
    if has_group_conflict(second) {
        let (i, j) = choose|i: int, j: int|
            #![trigger second[i], second[j]]
            0 <= i < second.len() && 0 <= j < second.len() && i != j && byte_group(second[i])
                is Some && byte_group(second[i]) == byte_group(second[j]);
        let x = second[i];
        let y = second[j];
        assert(second.contains(x) && second.contains(y));
        let a = choose|a: int| 0 <= a < first.len() && first[a] == x;
        if x != y {
            let b = choose|b: int| 0 <= b < first.len() && first[b] == y;
            assert(byte_group(first[a]) == byte_group(first[b]));
            assert(false);
        } else {
            let shorter = second.remove(i);
            second.remove_ensures(i);
            let at = if j < i {
                j
            } else {
                j - 1
            };
            assert(shorter[at] == x);
            assert(shorter.contains(x));
            to_multiset_remove(second, i);
            to_multiset_contains(shorter, x);
            assert(second.to_multiset().count(x) >= 2);
            let without = first.remove(a);
            first.remove_ensures(a);
            to_multiset_remove(first, a);
            to_multiset_contains(without, x);
            assert(without.contains(x));
            let m = choose|m: int| 0 <= m < without.len() && without[m] == x;
            let b = if m < a {
                m
            } else {
                m + 1
            };
            assert(first[b] == x);
            assert(byte_group(first[a]) == byte_group(first[b]));
            assert(false);
        }
    }
}

} // verus!
