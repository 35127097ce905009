//! The reconciler: walk a newly received graph description breadth-first,
//! diff it against the mount table, and emit the ordered instruction batch
//! that brings the engine's live graph into agreement with the description.

use vstd::prelude::*;

use crate::graph::{
    clone_prop_value, entry_of, lemma_nodes_size_concat, node_size, nodes_size, shallow_clone,
    EntryV, NodeRepr,
};
use crate::instruction::{Inst, Instruction, InstructionBatch};
use crate::table::MountTable;

verus! {

broadcast use vstd::std_specs::hash::group_hash_axioms;

/// Everything one traversal emits from a given state on, grouped by opcode
/// class, together with the table and visited set it ends in.
pub ghost struct Trace {
    pub creates: Seq<Inst>,
    pub appends: Seq<Inst>,
    pub sets: Seq<Inst>,
    pub table: Map<i32, EntryV>,
    pub visited: Set<i32>,
}

/// The CREATE instruction that mounts `n`.
pub open spec fn create_inst(n: NodeRepr) -> Inst {
    Inst::Create(n.hash, n.kind@)
}

/// The APPEND_CHILD instructions that wire `n`'s children, in child order.
pub open spec fn append_insts(n: NodeRepr) -> Seq<Inst> {
    Seq::new(
        n.children@.len(),
        |i: int|
            Inst::AppendChild(n.hash, n.children@[i].hash, n.children@[i].output_channel),
    )
}

/// The SET_PROPERTY instructions for `n`'s properties, in property order.
pub open spec fn set_insts(n: NodeRepr) -> Seq<Inst> {
    Seq::new(
        n.props@.len(),
        |i: int| Inst::SetProperty(n.hash, n.props@[i].name@, n.props@[i].value.deep_view()),
    )
}

/// One breadth-first traversal, starting from the work queue `queue` with
/// `visited` ids already processed this call and `table` already mounted.
/// A node whose id was processed before is skipped entirely; a node whose
/// id is not yet mounted contributes its CREATE and APPEND_CHILD
/// instructions and a fresh table entry; every processed node contributes
/// its SET_PROPERTY instructions and enqueues its children.
pub open spec fn traverse(queue: Seq<NodeRepr>, visited: Set<i32>, table: Map<i32, EntryV>) -> Trace
    decreases nodes_size(queue),
    via traverse_decreases
{
    if queue.len() == 0 {
        Trace {
            creates: Seq::empty(),
            appends: Seq::empty(),
            sets: Seq::empty(),
            table,
            visited,
        }
    } else {
        let n = queue[0];
        if visited.contains(n.hash) {
            traverse(queue.drop_first(), visited, table)
        } else if table.contains_key(n.hash) {
            let r = traverse(queue.drop_first() + n.children@, visited.insert(n.hash), table);
            Trace { sets: set_insts(n) + r.sets, ..r }
        } else {
            let r = traverse(
                queue.drop_first() + n.children@,
                visited.insert(n.hash),
                table.insert(n.hash, entry_of(n)),
            );
            Trace {
                creates: seq![create_inst(n)] + r.creates,
                appends: append_insts(n) + r.appends,
                sets: set_insts(n) + r.sets,
                ..r
            }
        }
    }
}

#[via_fn]
proof fn traverse_decreases(queue: Seq<NodeRepr>, visited: Set<i32>, table: Map<i32, EntryV>) {
    if queue.len() > 0 {
        lemma_nodes_size_concat(queue.drop_first(), queue[0].children@);
        assert(nodes_size(queue) == node_size(queue[0]) + nodes_size(queue.drop_first()));
        assert(node_size(queue[0]) == 1 + nodes_size(queue[0].children@));
    }
}

/// The ids of the given roots, in the order supplied, duplicates kept.
pub open spec fn root_ids(roots: Seq<NodeRepr>) -> Seq<i32> {
    Seq::new(roots.len(), |i: int| roots[i].hash)
}

/// The traversal a reconcile call performs: from the supplied roots, with
/// nothing visited yet, against the current table.
pub open spec fn reconcile_trace(roots: Seq<NodeRepr>, table: Map<i32, EntryV>) -> Trace {
    traverse(roots, Set::empty(), table)
}

/// The full batch a reconcile call returns: the emitted instructions in
/// opcode-class order, then the activation of the supplied roots, then the
/// final commit.
pub open spec fn reconcile_batch(roots: Seq<NodeRepr>, table: Map<i32, EntryV>) -> Seq<Inst> {
    let t = reconcile_trace(roots, table);
    t.creates + t.appends + t.sets + seq![Inst::ActivateRoots(root_ids(roots)), Inst::Commit]
}

/// The nodes of the work queue that are still to be processed, as values.
spec fn pending(q: Seq<&NodeRepr>, head: int) -> Seq<NodeRepr> {
    Seq::new((q.len() - head) as nat, |i: int| *q[head + i])
}

/// The relation the main traversal loop maintains: what has been emitted so
/// far, plus everything the traversal still to come will emit, is exactly
/// the whole call's trace.
spec fn traversal_mid(
    goal: Trace,
    creates: Seq<Inst>,
    appends: Seq<Inst>,
    sets: Seq<Inst>,
    rem: Seq<NodeRepr>,
    visited: Set<i32>,
    table: Map<i32, EntryV>,
) -> bool {
    let tr = traverse(rem, visited, table);
    &&& goal.creates == creates + tr.creates
    &&& goal.appends == appends + tr.appends
    &&& goal.sets == sets + tr.sets
    &&& goal.table == tr.table
}

/// Append the APPEND_CHILD instructions for `n`'s children.
fn push_appends(out: &mut Vec<Instruction>, n: &NodeRepr)
    ensures
        final(out).deep_view() == old(out).deep_view() + append_insts(*n),
{
    let mut j: usize = 0;
    while j < n.children.len()
        invariant
            j <= n.children@.len(),
            out@.len() == old(out)@.len() + j,
            out@.take(old(out)@.len() as int) =~= old(out)@,
            forall|k: int|
                0 <= k < j ==> out@[old(out)@.len() + k].deep_view() == append_insts(*n)[k],
        decreases n.children@.len() - j,
    {
        out.push(Instruction::AppendChild(n.hash, n.children[j].hash, n.children[j].output_channel));
        j += 1;
    }
    proof {
        assert(final(out).deep_view() =~= old(out).deep_view() + append_insts(*n));
    }
}

/// Append the SET_PROPERTY instructions for `n`'s properties.
fn push_sets(out: &mut Vec<Instruction>, n: &NodeRepr)
    ensures
        final(out).deep_view() == old(out).deep_view() + set_insts(*n),
{
    let mut j: usize = 0;
    while j < n.props.len()
        invariant
            j <= n.props@.len(),
            out@.len() == old(out)@.len() + j,
            out@.take(old(out)@.len() as int) =~= old(out)@,
            forall|k: int| 0 <= k < j ==> out@[old(out)@.len() + k].deep_view() == set_insts(*n)[k],
        decreases n.props@.len() - j,
    {
        out.push(
            Instruction::SetProperty(
                n.hash,
                n.props[j].name.clone(),
                clone_prop_value(&n.props[j].value),
            ),
        );
        j += 1;
    }
    proof {
        assert(final(out).deep_view() =~= old(out).deep_view() + set_insts(*n));
    }
}

/// The ids of the given roots, in order.
fn collect_root_ids(roots: &Vec<NodeRepr>) -> (ids: Vec<i32>)
    ensures
        ids@ == root_ids(roots@),
{
    let mut ids: Vec<i32> = Vec::new();
    let mut i: usize = 0;
    while i < roots.len()
        invariant
            i <= roots@.len(),
            ids@.len() == i,
            forall|j: int| 0 <= j < i ==> ids@[j] == roots@[j].hash,
        decreases roots@.len() - i,
    {
        ids.push(roots[i].hash);
        i += 1;
    }
    proof {
        assert(ids@ =~= root_ids(roots@));
    }
    ids
}

impl MountTable {
    /// Compute the instruction batch that brings the engine from the state
    /// this table records to the state `roots` describes, mounting every id
    /// seen for the first time; the table is updated in place with the new
    /// mounts.  The batch always ends with the activation of exactly the
    /// supplied roots followed by the single commit, whatever was emitted
    /// before.
    pub fn reconcile(&mut self, roots: &Vec<NodeRepr>) -> (batch: InstructionBatch)
        ensures
            batch@ == reconcile_batch(roots@, old(self)@),
            final(self)@ == reconcile_trace(roots@, old(self)@).table,
    {
        let ghost t0 = self@;
        let mut visited: std::collections::HashSet<i32> = std::collections::HashSet::new();
        let mut queue: Vec<&NodeRepr> = Vec::new();
        let mut creates: Vec<Instruction> = Vec::new();
        let mut appends: Vec<Instruction> = Vec::new();
        let mut sets: Vec<Instruction> = Vec::new();

        let mut i: usize = 0;
        while i < roots.len()
            invariant
                i <= roots@.len(),
                queue@.len() == i,
                forall|j: int| 0 <= j < i ==> *queue@[j] == roots@[j],
            decreases roots@.len() - i,
        {
            queue.push(&roots[i]);
            i += 1;
        }

        let ghost goal = reconcile_trace(roots@, t0);
        proof {
            assert(pending(queue@, 0) =~= roots@);
            assert(creates.deep_view() =~= Seq::<Inst>::empty());
            assert(appends.deep_view() =~= Seq::<Inst>::empty());
            assert(sets.deep_view() =~= Seq::<Inst>::empty());
            assert(Seq::<Inst>::empty() + goal.creates =~= goal.creates);
            assert(Seq::<Inst>::empty() + goal.appends =~= goal.appends);
            assert(Seq::<Inst>::empty() + goal.sets =~= goal.sets);
        }

        let mut head: usize = 0;
        while head < queue.len()
            invariant
                head <= queue@.len(),
                traversal_mid(
                    goal,
                    creates.deep_view(),
                    appends.deep_view(),
                    sets.deep_view(),
                    pending(queue@, head as int),
                    visited@,
                    self@,
                ),
            decreases nodes_size(pending(queue@, head as int)),
        {
            let ghost rem = pending(queue@, head as int);
            let ghost v0 = visited@;
            let ghost tb0 = self@;
            let ghost c0 = creates.deep_view();
            let ghost a0 = appends.deep_view();
            let ghost s0 = sets.deep_view();
            let n: &NodeRepr = queue[head];
            head += 1;
            proof {
                assert(rem.len() > 0);
                assert(rem[0] == *n);
            }

            if visited.contains(&n.hash) {
                proof {
                    assert(pending(queue@, head as int) =~= rem.drop_first());
                    assert(traverse(rem, v0, tb0) == traverse(rem.drop_first(), v0, tb0));
                    lemma_nodes_size_concat(rem.drop_first(), seq![rem[0]]);
                    assert(nodes_size(rem) == node_size(rem[0]) + nodes_size(rem.drop_first()));
                }
            } else {
                if !self.contains(n.hash) {
                    creates.push(Instruction::Create(n.hash, n.kind.clone()));
                    push_appends(&mut appends, n);
                    let entry = shallow_clone(n);
                    self.insert(n.hash, entry);
                    proof {
                        assert(creates.deep_view() =~= c0 + seq![create_inst(*n)]);
                    }
                } else {
                    proof {
                        assert(tb0.contains_key(n.hash));
                    }
                }
                push_sets(&mut sets, n);
                let mut j: usize = 0;
                let ghost q0 = queue@;
                while j < n.children.len()
                    invariant
                        j <= n.children@.len(),
                        queue@.len() == q0.len() + j,
                        queue@.take(q0.len() as int) =~= q0,
                        forall|k: int| 0 <= k < j ==> *queue@[q0.len() + k] == n.children@[k],
                    decreases n.children@.len() - j,
                {
                    queue.push(&n.children[j]);
                    j += 1;
                }
                visited.insert(n.hash);
                proof {
                    assert(pending(queue@, head as int) =~= rem.drop_first() + n.children@);
                    assert(visited@ == v0.insert(n.hash));
                    lemma_nodes_size_concat(rem.drop_first(), n.children@);
                    assert(nodes_size(rem) == node_size(rem[0]) + nodes_size(rem.drop_first()));
                    assert(node_size(rem[0]) == 1 + nodes_size(rem[0].children@));
                    let r = traverse(rem.drop_first() + n.children@, v0.insert(n.hash), self@);
                    if tb0.contains_key(n.hash) {
                        assert(self@ == tb0);
                        assert(traverse(rem, v0, tb0) == Trace { sets: set_insts(*n) + r.sets, ..r });
                        assert(goal.sets == s0 + (set_insts(*n) + r.sets));
                        assert(s0 + (set_insts(*n) + r.sets) =~= (s0 + set_insts(*n)) + r.sets);
                    } else {
                        assert(self@ == tb0.insert(n.hash, entry_of(*n)));
                        assert(traverse(rem, v0, tb0) == Trace {
                            creates: seq![create_inst(*n)] + r.creates,
                            appends: append_insts(*n) + r.appends,
                            sets: set_insts(*n) + r.sets,
                            ..r
                        });
                        assert(c0 + (seq![create_inst(*n)] + r.creates) =~= (c0
                            + seq![create_inst(*n)]) + r.creates);
                        assert(a0 + (append_insts(*n) + r.appends) =~= (a0 + append_insts(*n))
                            + r.appends);
                        assert(s0 + (set_insts(*n) + r.sets) =~= (s0 + set_insts(*n)) + r.sets);
                    }
                }
            }
        }

        proof {
            let rem = pending(queue@, head as int);
            assert(rem.len() == 0);
            let tr = traverse(rem, visited@, self@);
            assert(tr.creates == Seq::<Inst>::empty());
            assert(creates.deep_view() + tr.creates =~= creates.deep_view());
            assert(appends.deep_view() + tr.appends =~= appends.deep_view());
            assert(sets.deep_view() + tr.sets =~= sets.deep_view());
            assert(goal.creates == creates.deep_view());
            assert(goal.appends == appends.deep_view());
            assert(goal.sets == sets.deep_view());
            assert(goal.table == self@);
        }

        let ghost c_final = creates.deep_view();
        let ghost a_final = appends.deep_view();
        let ghost s_final = sets.deep_view();
        let mut items = creates;
        items.append(&mut appends);
        items.append(&mut sets);
        proof {
            assert(items.deep_view() =~= c_final + a_final + s_final);
        }
        let ids = collect_root_ids(roots);
        items.push(Instruction::ActivateRoots(ids));
        items.push(Instruction::Commit);
        let batch = InstructionBatch { items };
        proof {
            assert(batch@ =~= goal.creates + goal.appends + goal.sets + seq![
                Inst::ActivateRoots(root_ids(roots@)),
                Inst::Commit,
            ]);
        }
        batch
    }
}

} // verus!
