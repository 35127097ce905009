//! Properties of the reconciler that hold for every input graph: what a
//! traversal does to the table and visited set, that remounting the same
//! graph is idempotent, that a batch is ordered by opcode class, and that
//! no id is created twice.

use vstd::prelude::*;

use crate::graph::{lemma_nodes_size_concat, node_size, nodes_size, EntryV, NodeRepr};
use crate::instruction::{opcode, Inst};
use crate::reconcile::{reconcile_batch, reconcile_trace, root_ids, traverse};

verus! {

/// The id a CREATE instruction carries.
pub open spec fn create_id(i: Inst) -> i32
    recommends
        i is Create,
{
    match i {
        Inst::Create(id, _) => id,
        _ => 0,
    }
}

/// Both measure facts a traversal step needs.
proof fn lemma_step_measure(q: Seq<NodeRepr>)
    requires
        q.len() > 0,
    ensures
        nodes_size(q.drop_first()) < nodes_size(q),
        nodes_size(q.drop_first() + q[0].children@) < nodes_size(q),
{
    lemma_nodes_size_concat(q.drop_first(), q[0].children@);
    assert(nodes_size(q) == node_size(q[0]) + nodes_size(q.drop_first()));
    assert(node_size(q[0]) == 1 + nodes_size(q[0].children@));
}

/// Every instruction a traversal emits has the variant of its group.
pub proof fn lemma_traverse_shapes(q: Seq<NodeRepr>, v: Set<i32>, t: Map<i32, EntryV>)
    ensures
        forall|i: int|
            0 <= i < traverse(q, v, t).creates.len() ==> traverse(q, v, t).creates[i] is Create,
        forall|i: int|
            0 <= i < traverse(q, v, t).appends.len() ==> traverse(
                q,
                v,
                t,
            ).appends[i] is AppendChild,
        forall|i: int|
            0 <= i < traverse(q, v, t).sets.len() ==> traverse(q, v, t).sets[i] is SetProperty,
    decreases nodes_size(q),
{
    if q.len() > 0 {
        let n = q[0];
        lemma_step_measure(q);
        if v.contains(n.hash) {
            lemma_traverse_shapes(q.drop_first(), v, t);
        } else if t.contains_key(n.hash) {
            lemma_traverse_shapes(q.drop_first() + n.children@, v.insert(n.hash), t);
        } else {
            lemma_traverse_shapes(
                q.drop_first() + n.children@,
                v.insert(n.hash),
                t.insert(n.hash, crate::graph::entry_of(n)),
            );
        }
    }
}

/// What one traversal does to its state: the visited set only grows; the
/// table keeps every entry it had, unchanged; every id processed this
/// traversal ends up mounted; every id mounted by this traversal was
/// processed by it; and the emitted CREATE instructions carry exactly the
/// ids this traversal mounted, each at most once.
pub proof fn lemma_traverse_frame(q: Seq<NodeRepr>, v: Set<i32>, t: Map<i32, EntryV>)
    ensures
        ({
            let tr = traverse(q, v, t);
            &&& forall|k: i32| #[trigger] v.contains(k) ==> tr.visited.contains(k)
            &&& forall|k: i32| #[trigger]
                t.contains_key(k) ==> tr.table.contains_key(k) && tr.table[k] == t[k]
            &&& forall|k: i32| #[trigger]
                tr.visited.contains(k) && !v.contains(k) ==> tr.table.contains_key(k)
            &&& forall|k: i32| #[trigger]
                tr.table.contains_key(k) && !t.contains_key(k) ==> tr.visited.contains(k)
                    && !v.contains(k)
            &&& forall|i: int|
                0 <= i < tr.creates.len() ==> !t.contains_key(
                    create_id(#[trigger] tr.creates[i]),
                ) && tr.table.contains_key(create_id(tr.creates[i]))
            &&& forall|i: int, j: int|
                0 <= i < j < tr.creates.len() ==> create_id(#[trigger] tr.creates[i])
                    != create_id(#[trigger] tr.creates[j])
        }),
    decreases nodes_size(q),
{
    if q.len() > 0 {
        let n = q[0];
        lemma_step_measure(q);
        let tr = traverse(q, v, t);
        if v.contains(n.hash) {
            lemma_traverse_frame(q.drop_first(), v, t);
        } else {
            let q1 = q.drop_first() + n.children@;
            let v1 = v.insert(n.hash);
            let t1 = if t.contains_key(n.hash) {
                t
            } else {
                t.insert(n.hash, crate::graph::entry_of(n))
            };
            lemma_traverse_frame(q1, v1, t1);
            let r = traverse(q1, v1, t1);
            assert(tr.table == r.table && tr.visited == r.visited);
            assert(t1.contains_key(n.hash));
            assert(r.table.contains_key(n.hash) && r.table[n.hash] == t1[n.hash]);
            assert forall|k: i32| #[trigger] v.contains(k) implies tr.visited.contains(k) by {
                assert(v1.contains(k));
            }
            assert forall|k: i32| #[trigger]
                t.contains_key(k) implies tr.table.contains_key(k) && tr.table[k] == t[k] by {
                assert(t1.contains_key(k) && t1[k] == t[k]);
            }
            assert forall|k: i32| #[trigger]
                tr.visited.contains(k) && !v.contains(k) implies tr.table.contains_key(k) by {
                if k == n.hash {
                    assert(t1.contains_key(k));
                } else {
                    assert(r.visited.contains(k) && !v1.contains(k));
                }
            }
            assert forall|k: i32| #[trigger]
                tr.table.contains_key(k) && !t.contains_key(k) implies tr.visited.contains(k)
                && !v.contains(k) by {
                assert(r.table.contains_key(k));
                if k == n.hash {
                    assert(v1.contains(k));
                    assert(r.visited.contains(k));
                } else {
                    assert(!t1.contains_key(k));
                }
            }
            if t.contains_key(n.hash) {
                assert(tr.creates == r.creates);
            } else {
                assert(tr.creates == seq![crate::reconcile::create_inst(n)] + r.creates);
                assert(create_id(tr.creates[0]) == n.hash);
            }
            assert forall|i: int| 0 <= i < tr.creates.len() implies !t.contains_key(
                create_id(#[trigger] tr.creates[i]),
            ) && tr.table.contains_key(create_id(tr.creates[i])) by {
                if t.contains_key(n.hash) {
                    assert(tr.creates[i] == r.creates[i]);
                } else if i > 0 {
                    assert(tr.creates[i] == r.creates[i - 1]);
                    assert(!t1.contains_key(create_id(r.creates[i - 1])));
                } else {
                    assert(t1.contains_key(n.hash));
                }
            }
            assert forall|i: int, j: int| 0 <= i < j < tr.creates.len() implies create_id(
                #[trigger] tr.creates[i],
            ) != create_id(#[trigger] tr.creates[j]) by {
                if t.contains_key(n.hash) {
                    assert(tr.creates[i] == r.creates[i]);
                    assert(tr.creates[j] == r.creates[j]);
                } else if i > 0 {
                    assert(tr.creates[i] == r.creates[i - 1]);
                    assert(tr.creates[j] == r.creates[j - 1]);
                } else {
                    assert(tr.creates[j] == r.creates[j - 1]);
                    assert(!t1.contains_key(create_id(r.creates[j - 1])));
                }
            }
        }
    }
}

/// A traversal against a table that already holds every id the traversal
/// will process creates nothing, appends nothing, leaves the table as it
/// is, and still emits exactly the property sets of a first traversal.
pub proof fn lemma_traverse_remount(
    q: Seq<NodeRepr>,
    v: Set<i32>,
    t1: Map<i32, EntryV>,
    t2: Map<i32, EntryV>,
)
    requires
        forall|k: i32|
            traverse(q, v, t1).visited.contains(k) && !v.contains(k) ==> t2.contains_key(k),
    ensures
        ({
            let tr1 = traverse(q, v, t1);
            let tr2 = traverse(q, v, t2);
            &&& tr2.creates == Seq::<Inst>::empty()
            &&& tr2.appends == Seq::<Inst>::empty()
            &&& tr2.sets == tr1.sets
            &&& tr2.table == t2
            &&& tr2.visited == tr1.visited
        }),
    decreases nodes_size(q),
{
    if q.len() > 0 {
        let n = q[0];
        lemma_step_measure(q);
        if v.contains(n.hash) {
            lemma_traverse_remount(q.drop_first(), v, t1, t2);
        } else {
            let q1 = q.drop_first() + n.children@;
            let v1 = v.insert(n.hash);
            let u1 = if t1.contains_key(n.hash) {
                t1
            } else {
                t1.insert(n.hash, crate::graph::entry_of(n))
            };
            lemma_traverse_frame(q1, v1, u1);
            assert(v1.contains(n.hash));
            assert(traverse(q1, v1, u1).visited.contains(n.hash));
            assert(traverse(q, v, t1).visited == traverse(q1, v1, u1).visited);
            assert(traverse(q, v, t1).visited.contains(n.hash));
            assert(t2.contains_key(n.hash));
            lemma_traverse_remount(q1, v1, u1, t2);
        }
    }
}

/// Idempotent remount: reconciling the same roots again, against the table
/// the first reconcile left behind, creates nothing and appends nothing,
/// leaves the table unchanged, and still emits every property set of the
/// first pass; the second batch is exactly those property sets followed by
/// the activation of the roots and the commit.
pub proof fn lemma_reconcile_idempotent(roots: Seq<NodeRepr>, table: Map<i32, EntryV>)
    ensures
        ({
            let first = reconcile_trace(roots, table);
            let second = reconcile_trace(roots, first.table);
            &&& second.creates == Seq::<Inst>::empty()
            &&& second.appends == Seq::<Inst>::empty()
            &&& second.sets == first.sets
            &&& second.table == first.table
            &&& reconcile_batch(roots, first.table) == first.sets + seq![
                Inst::ActivateRoots(root_ids(roots)),
                Inst::Commit,
            ]
        }),
{
    let first = reconcile_trace(roots, table);
    lemma_traverse_frame(roots, Set::empty(), table);
    lemma_traverse_remount(roots, Set::empty(), table, first.table);
    let second = reconcile_trace(roots, first.table);
    assert(second.creates + second.appends + second.sets + seq![
        Inst::ActivateRoots(root_ids(roots)),
        Inst::Commit,
    ] =~= first.sets + seq![Inst::ActivateRoots(root_ids(roots)), Inst::Commit]);
}

/// Ordering invariant: in every batch the opcode classes come in
/// non-decreasing order, the activation of the roots stands second to
/// last, the commit stands last, and neither occurs anywhere else.
pub proof fn lemma_reconcile_batch_ordered(roots: Seq<NodeRepr>, table: Map<i32, EntryV>)
    ensures
        ({
            let b = reconcile_batch(roots, table);
            &&& b.len() >= 2
            &&& forall|i: int, j: int| 0 <= i <= j < b.len() ==> opcode(b[i]) <= opcode(b[j])
            &&& b[b.len() - 2] == Inst::ActivateRoots(root_ids(roots))
            &&& b[b.len() - 1] == Inst::Commit
            &&& forall|i: int|
                0 <= i < b.len() - 2 ==> !(b[i] is ActivateRoots) && !(b[i] is Commit)
        }),
{
    lemma_traverse_shapes(roots, Set::empty(), table);
    let tr = reconcile_trace(roots, table);
    let b = reconcile_batch(roots, table);
    let nc = tr.creates.len() as int;
    let na = tr.appends.len() as int;
    let ns = tr.sets.len() as int;
    assert forall|i: int| 0 <= i < b.len() implies opcode(b[i]) == (if i < nc {
        0int
    } else if i < nc + na {
        2int
    } else if i < nc + na + ns {
        3int
    } else if i == nc + na + ns {
        4int
    } else {
        5int
    }) by {
        if i < nc {
            assert(b[i] == tr.creates[i]);
        } else if i < nc + na {
            assert(b[i] == tr.appends[i - nc]);
        } else if i < nc + na + ns {
            assert(b[i] == tr.sets[i - nc - na]);
        } else if i == nc + na + ns {
            assert(b[i] == Inst::ActivateRoots(root_ids(roots)));
        } else {
            assert(b[i] == Inst::Commit);
        }
    }
    assert(b[b.len() - 2] == Inst::ActivateRoots(root_ids(roots)));
    assert(b[b.len() - 1] == Inst::Commit);
    assert forall|i: int| 0 <= i < b.len() - 2 implies !(b[i] is ActivateRoots) && !(
    b[i] is Commit) by {
        assert(opcode(b[i]) <= 3);
    }
}

/// Dedup on shared nodes: however many parents list the same id, one
/// reconcile emits at most one CREATE for it — the emitted CREATE ids are
/// pairwise distinct, and each one was absent from the table before the
/// call and mounted by it.
pub proof fn lemma_reconcile_creates_unique(roots: Seq<NodeRepr>, table: Map<i32, EntryV>)
    ensures
        ({
            let tr = reconcile_trace(roots, table);
            &&& forall|i: int, j: int|
                0 <= i < j < tr.creates.len() ==> create_id(tr.creates[i]) != create_id(
                    tr.creates[j],
                )
            &&& forall|i: int|
                0 <= i < tr.creates.len() ==> !table.contains_key(create_id(tr.creates[i]))
                    && tr.table.contains_key(create_id(tr.creates[i]))
        }),
{
    lemma_traverse_frame(roots, Set::empty(), table);
}

} // verus!
