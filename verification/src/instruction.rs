//! The typed mutation instructions that a reconcile emits, and the ordered
//! batch that carries them to the engine.

use vstd::prelude::*;

use crate::graph::{PropVal, PropValue};

verus! {

/// One low-level mutation instruction.
#[derive(Debug, PartialEq)]
pub enum Instruction {
    /// Instantiate a node of the given kind under the given id.
    Create(i32, String),
    /// Wire the child's output into the parent's input on the given channel.
    AppendChild(i32, i32, u32),
    /// Set one named parameter on a node.
    SetProperty(i32, String, PropValue),
    /// Replace the active top-level set with exactly these ids.
    ActivateRoots(Vec<i32>),
    /// Apply all preceding instructions of the batch atomically.
    Commit,
}

/// The mathematical value of an [`Instruction`].
pub ghost enum Inst {
    Create(i32, Seq<char>),
    AppendChild(i32, i32, u32),
    SetProperty(i32, Seq<char>, PropVal),
    ActivateRoots(Seq<i32>),
    Commit,
}

impl DeepView for Instruction {
    type V = Inst;

    open spec fn deep_view(&self) -> Inst {
        match self {
            Instruction::Create(id, kind) => Inst::Create(*id, kind@),
            Instruction::AppendChild(parent, child, channel) => Inst::AppendChild(
                *parent,
                *child,
                *channel,
            ),
            Instruction::SetProperty(id, name, value) => Inst::SetProperty(
                *id,
                name@,
                value.deep_view(),
            ),
            Instruction::ActivateRoots(ids) => Inst::ActivateRoots(ids@),
            Instruction::Commit => Inst::Commit,
        }
    }
}

/// The numeric opcode an instruction serialises under; it also orders the
/// opcode classes within a batch.
pub open spec fn opcode(i: Inst) -> int {
    match i {
        Inst::Create(_, _) => 0,
        Inst::AppendChild(_, _, _) => 2,
        Inst::SetProperty(_, _, _) => 3,
        Inst::ActivateRoots(_) => 4,
        Inst::Commit => 5,
    }
}

/// An ordered sequence of instructions, ready to serialise: all creates,
/// then all child appends, then all property sets, then the activation of
/// the roots, then the final commit.
pub struct InstructionBatch {
    pub items: Vec<Instruction>,
}

impl View for InstructionBatch {
    type V = Seq<Inst>;

    open spec fn view(&self) -> Seq<Inst> {
        self.items.deep_view()
    }
}

impl InstructionBatch {
    /// How many instructions the batch holds.
    pub fn len(&self) -> (n: usize)
        ensures
            n == self@.len(),
    {
        self.items.len()
    }
}

} // verus!
