//! The data a client sends to describe a graph, and the shallow projection
//! of it that the mount table stores.

use vstd::prelude::*;

verus! {

/// One scalar parameter value inside a node's property list.
///
/// Numbers that are not integers are carried verbatim as the decimal text
/// the client sent (`Num`); the reconciler never computes with property
/// values, it only forwards them to the engine.
#[derive(Debug, PartialEq)]
pub enum ScalarValue {
    Null,
    Bool(bool),
    Int(i64),
    Num(String),
    Text(String),
}

/// The mathematical value of a [`ScalarValue`].
pub ghost enum ScalarVal {
    Null,
    Bool(bool),
    Int(i64),
    Num(Seq<char>),
    Text(Seq<char>),
}

impl DeepView for ScalarValue {
    type V = ScalarVal;

    open spec fn deep_view(&self) -> ScalarVal {
        match self {
            ScalarValue::Null => ScalarVal::Null,
            ScalarValue::Bool(b) => ScalarVal::Bool(*b),
            ScalarValue::Int(i) => ScalarVal::Int(*i),
            ScalarValue::Num(s) => ScalarVal::Num(s@),
            ScalarValue::Text(s) => ScalarVal::Text(s@),
        }
    }
}

/// A property value: a scalar, or a flat array of scalars.
#[derive(Debug, PartialEq)]
pub enum PropValue {
    Scalar(ScalarValue),
    Array(Vec<ScalarValue>),
}

/// The mathematical value of a [`PropValue`].
pub ghost enum PropVal {
    Scalar(ScalarVal),
    Array(Seq<ScalarVal>),
}

impl DeepView for PropValue {
    type V = PropVal;

    open spec fn deep_view(&self) -> PropVal {
        match self {
            PropValue::Scalar(s) => PropVal::Scalar(s.deep_view()),
            PropValue::Array(a) => PropVal::Array(a.deep_view()),
        }
    }
}

/// One named parameter of a node.
#[derive(Debug, PartialEq)]
pub struct Prop {
    pub name: String,
    pub value: PropValue,
}

/// The mathematical value of a [`Prop`].
pub ghost struct PropV {
    pub name: Seq<char>,
    pub value: PropVal,
}

impl DeepView for Prop {
    type V = PropV;

    open spec fn deep_view(&self) -> PropV {
        PropV { name: self.name@, value: self.value.deep_view() }
    }
}

/// One node of a graph description: the identity chosen by the client, the
/// processing kind, the parameters, the channel its output feeds into its
/// parent, and the child subtrees.
#[derive(Debug, PartialEq)]
pub struct NodeRepr {
    pub hash: i32,
    pub kind: String,
    pub props: Vec<Prop>,
    pub output_channel: u32,
    pub children: Vec<NodeRepr>,
}

/// Size of a node's subtree, counting the node itself: the termination
/// measure for traversals.
pub open spec fn node_size(n: NodeRepr) -> nat
    decreases n,
{
    1 + nodes_size(n.children@)
}

/// Total size of a sequence of subtrees.
pub open spec fn nodes_size(q: Seq<NodeRepr>) -> nat
    decreases q,
{
    if q.len() == 0 {
        0
    } else {
        node_size(q[0]) + nodes_size(q.drop_first())
    }
}

pub proof fn lemma_nodes_size_concat(a: Seq<NodeRepr>, b: Seq<NodeRepr>)
    ensures
        nodes_size(a + b) == nodes_size(a) + nodes_size(b),
    decreases a.len(),
{
    if a.len() == 0 {
        assert(a + b =~= b);
    } else {
        assert((a + b).drop_first() =~= a.drop_first() + b);
        assert((a + b)[0] == a[0]);
        lemma_nodes_size_concat(a.drop_first(), b);
    }
}

/// What the mount table stores for one mounted node: everything from the
/// node itself, but children only by id, never as subtrees.
#[derive(Debug, PartialEq)]
pub struct MountEntry {
    pub hash: i32,
    pub kind: String,
    pub props: Vec<Prop>,
    pub output_channel: u32,
    pub children: Vec<i32>,
}

/// The mathematical value of a [`MountEntry`].
pub ghost struct EntryV {
    pub hash: i32,
    pub kind: Seq<char>,
    pub props: Seq<PropV>,
    pub output_channel: u32,
    pub children: Seq<i32>,
}

impl DeepView for MountEntry {
    type V = EntryV;

    open spec fn deep_view(&self) -> EntryV {
        EntryV {
            hash: self.hash,
            kind: self.kind@,
            props: self.props.deep_view(),
            output_channel: self.output_channel,
            children: self.children@,
        }
    }
}

/// The entry that mounting `n` records.
pub open spec fn entry_of(n: NodeRepr) -> EntryV {
    EntryV {
        hash: n.hash,
        kind: n.kind@,
        props: n.props.deep_view(),
        output_channel: n.output_channel,
        children: Seq::new(n.children@.len(), |i: int| n.children@[i].hash),
    }
}

/// A copy of a scalar with the same mathematical value.
pub fn clone_scalar(v: &ScalarValue) -> (r: ScalarValue)
    ensures
        r.deep_view() == v.deep_view(),
{
    match v {
        ScalarValue::Null => ScalarValue::Null,
        ScalarValue::Bool(b) => ScalarValue::Bool(*b),
        ScalarValue::Int(i) => ScalarValue::Int(*i),
        ScalarValue::Num(s) => ScalarValue::Num(s.clone()),
        ScalarValue::Text(s) => ScalarValue::Text(s.clone()),
    }
}

/// A copy of a property value with the same mathematical value.
pub fn clone_prop_value(v: &PropValue) -> (r: PropValue)
    ensures
        r.deep_view() == v.deep_view(),
{
    match v {
        PropValue::Scalar(s) => PropValue::Scalar(clone_scalar(s)),
        PropValue::Array(a) => {
            let mut out: Vec<ScalarValue> = Vec::new();
            let mut i: usize = 0;
            while i < a.len()
                invariant
                    i <= a.len(),
                    out@.len() == i,
                    forall|j: int| 0 <= j < i ==> out@[j].deep_view() == a@[j].deep_view(),
                decreases a.len() - i,
            {
                out.push(clone_scalar(&a[i]));
                i += 1;
            }
            proof {
                assert(out.deep_view() =~= a.deep_view());
            }
            PropValue::Array(out)
        },
    }
}

/// A copy of a property list with the same mathematical value.
pub fn clone_props(props: &Vec<Prop>) -> (r: Vec<Prop>)
    ensures
        r.deep_view() == props.deep_view(),
{
    let mut out: Vec<Prop> = Vec::new();
    let mut i: usize = 0;
    while i < props.len()
        invariant
            i <= props.len(),
            out@.len() == i,
            forall|j: int| 0 <= j < i ==> out@[j].deep_view() == props@[j].deep_view(),
        decreases props.len() - i,
    {
        out.push(Prop { name: props[i].name.clone(), value: clone_prop_value(&props[i].value) });
        i += 1;
    }
    proof {
        assert(out.deep_view() =~= props.deep_view());
    }
    out
}

/// The shallow projection that the mount table stores for `node`: its own
/// data plus its children's ids, in order.
pub fn shallow_clone(node: &NodeRepr) -> (entry: MountEntry)
    ensures
        entry.deep_view() == entry_of(*node),
{
    let mut children: Vec<i32> = Vec::new();
    let mut i: usize = 0;
    while i < node.children.len()
        invariant
            i <= node.children.len(),
            children@ =~= entry_of(*node).children.take(i as int),
        decreases node.children.len() - i,
    {
        children.push(node.children[i].hash);
        i += 1;
        proof {
            assert(children@ =~= entry_of(*node).children.take(i as int));
        }
    }
    let entry = MountEntry {
        hash: node.hash,
        kind: node.kind.clone(),
        props: clone_props(&node.props),
        output_channel: node.output_channel,
        children,
    };
    proof {
        assert(entry_of(*node).children.take(node.children@.len() as int) =~= entry_of(
            *node,
        ).children);
        assert(entry.deep_view() == entry_of(*node));
    }
    entry
}

} // verus!
