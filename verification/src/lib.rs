//! An incremental reconciler for trees of audio-processing nodes.
//!
//! A client describes the desired graph as a tree of [`graph::NodeRepr`]
//! values.  The [`table::MountTable`] remembers which node ids have already
//! been mounted on the engine; [`table::MountTable::reconcile`] walks a new
//! description breadth-first and emits the ordered
//! [`instruction::InstructionBatch`] that brings the engine up to date.
//! [`codec`] serialises a batch to the textual wire format the engine
//! accepts, and [`session`] drives one connection's directive loop.

use vstd::prelude::*;

pub mod codec;
pub mod graph;
pub mod instruction;
pub mod laws;
pub mod payload;
pub mod reconcile;
pub mod session;
pub mod table;

verus! {

/// Name tag of the engine library.
pub fn say_name() -> (name: String)
    ensures
        name@ == "Elementary"@,
{
    "Elementary".to_owned()
}

} // verus!
