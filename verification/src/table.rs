//! The per-session record of which node ids have already been mounted on
//! the engine, and what was last applied for each.

use vstd::prelude::*;

use crate::graph::{EntryV, MountEntry};

verus! {

broadcast use vstd::std_specs::btree::group_btree_axioms, vstd::laws_cmp::group_laws_cmp;

/// Maps a mounted node's id to the shallow projection recorded when the id
/// was first mounted.  Entries are inserted on first mount and never
/// removed: the protocol has no unmount instruction.
pub struct MountTable {
    entries: std::collections::BTreeMap<i32, MountEntry>,
}

impl View for MountTable {
    type V = Map<i32, EntryV>;

    closed spec fn view(&self) -> Map<i32, EntryV> {
        self.entries@.map_values(|e: MountEntry| e.deep_view())
    }
}

impl MountTable {
    /// A table with nothing mounted yet: the state of a fresh session.
    pub fn new() -> (table: MountTable)
        ensures
            table@ == Map::<i32, EntryV>::empty(),
    {
        let table = MountTable { entries: std::collections::BTreeMap::new() };
        proof {
            assert(table@ =~= Map::<i32, EntryV>::empty());
        }
        table
    }

    /// Whether `id` has been mounted already.
    pub fn contains(&self, id: i32) -> (present: bool)
        ensures
            present == self@.contains_key(id),
    {
        let present = self.entries.contains_key(&id);
        proof {
            assert(obeys_cmp_i32());
            assert(self@.dom() =~= self.entries@.dom());
        }
        present
    }

    /// Record that `id` is now mounted with the given projection.
    pub fn insert(&mut self, id: i32, entry: MountEntry)
        ensures
            final(self)@ == old(self)@.insert(id, entry.deep_view()),
    {
        let ghost before = self.entries@;
        let ghost moved = entry;
        self.entries.insert(id, entry);
        proof {
            assert(obeys_cmp_i32());
            assert(self.entries@ == before.insert(id, moved));
            assert(self@ =~= old(self)@.insert(id, moved.deep_view()));
        }
    }

    /// How many ids are mounted.
    pub fn len(&self) -> (n: usize)
        ensures
            n == self@.dom().len(),
    {
        let n = self.entries.len();
        proof {
            assert(self@.dom() =~= self.entries@.dom());
        }
        n
    }

    /// The entry recorded for `id`, if `id` is mounted.
    pub fn get(&self, id: i32) -> (entry: Option<&MountEntry>)
        ensures
            match entry {
                Some(e) => self@.contains_key(id) && e.deep_view() == self@[id],
                None => !self@.contains_key(id),
            },
    {
        let entry = self.entries.get(&id);
        proof {
            assert(obeys_cmp_i32());
            assert(self@.dom() =~= self.entries@.dom());
        }
        entry
    }
}

/// `i32` comparisons agree with their specification, so the standard
/// ordered-map contracts apply at key type `i32`.
spec fn obeys_cmp_i32() -> bool {
    vstd::laws_cmp::obeys_cmp::<i32>()
}

} // verus!
