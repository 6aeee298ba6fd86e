//! Cross-table interaction records.
//!
//! An interaction is a declaration that a table, on some rows, sends or
//! receives a tuple of values with a multiplicity over a logical channel (the
//! interaction kind). Records are created once, by the interaction collector,
//! and never mutated afterwards.

use vstd::prelude::*;

use crate::expr::Expr;

verus! {

/// The logical channel of an interaction. Each channel carries tuples of one
/// fixed width (its arity).
#[derive(Clone, Copy, PartialEq, Eq, Structural, Debug)]
pub enum InteractionKind {
    /// A memory access: address, timestamp, value, and a realness flag.
    Memory,
    /// A program-table lookup: program counter, instruction, selector.
    Program,
    /// An arithmetic-unit lookup: opcode, two operands and a result.
    Alu,
    /// A byte-operation lookup: opcode, two operands and a result.
    Byte,
    /// A range check: a value and the number of bits it must fit in.
    Range,
    /// A system-call event: syscall number and two arguments.
    Syscall,
}

impl InteractionKind {
    /// The tag that separates this channel from the others inside the
    /// randomized fingerprint.
    pub open spec fn tag_spec(self) -> int {
        match self {
            InteractionKind::Memory => 1,
            InteractionKind::Program => 2,
            InteractionKind::Alu => 3,
            InteractionKind::Byte => 4,
            InteractionKind::Range => 5,
            InteractionKind::Syscall => 6,
        }
    }

    /// The fixed tuple width of this channel.
    pub open spec fn arity_spec(self) -> nat {
        match self {
            InteractionKind::Memory => 4,
            InteractionKind::Program => 3,
            InteractionKind::Alu => 4,
            InteractionKind::Byte => 4,
            InteractionKind::Range => 2,
            InteractionKind::Syscall => 3,
        }
    }

    /// The channel tag as a field-sized integer.
    pub fn tag(self) -> (r: u32)
        ensures
            r as int == self.tag_spec(),
    {
        match self {
            InteractionKind::Memory => 1,
            InteractionKind::Program => 2,
            InteractionKind::Alu => 3,
            InteractionKind::Byte => 4,
            InteractionKind::Range => 5,
            InteractionKind::Syscall => 6,
        }
    }

    /// The fixed tuple width of this channel.
    pub fn arity(self) -> (r: usize)
        ensures
            r as nat == self.arity_spec(),
    {
        match self {
            InteractionKind::Memory => 4,
            InteractionKind::Program => 3,
            InteractionKind::Alu => 4,
            InteractionKind::Byte => 4,
            InteractionKind::Range => 2,
            InteractionKind::Syscall => 3,
        }
    }
}

/// One harvested interaction record: the tuple of sent or received values,
/// the multiplicity, the channel, and the record's index in its list.
#[derive(Debug)]
pub struct Interaction {
    /// One symbolic expression per tuple element.
    pub values: Vec<Expr>,
    /// The symbolic multiplicity with which the tuple is sent or received.
    pub multiplicity: Expr,
    /// The logical channel of the interaction.
    pub kind: InteractionKind,
    /// The index of this record in the list it was collected into.
    pub id: usize,
}

impl Interaction {
    /// The record's expressions fit the trace widths and the tuple has the
    /// channel's arity.
    pub open spec fn wf(self, prep_width: nat, main_width: nat) -> bool {
        &&& forall|i: int|
            0 <= i < self.values@.len() ==> (#[trigger] self.values@[i]).wf(
                prep_width,
                main_width,
            )
        &&& self.multiplicity.wf(prep_width, main_width)
        &&& self.values@.len() == self.kind.arity_spec()
    }
}

} // verus!
