use elementary::graph::{NodeRepr, Prop, PropValue, ScalarValue};
use elementary::instruction::Instruction;
use elementary::table::MountTable;

fn node(hash: i32, kind: &str, props: Vec<(&str, i64)>, children: Vec<NodeRepr>) -> NodeRepr {
    NodeRepr {
        hash,
        kind: kind.to_string(),
        props: props
            .into_iter()
            .map(|(name, v)| Prop {
                name: name.to_string(),
                value: PropValue::Scalar(ScalarValue::Int(v)),
            })
            .collect(),
        output_channel: 0,
        children,
    }
}

fn opcode_rank(i: &Instruction) -> u8 {
    match i {
        Instruction::Create(_, _) => 0,
        Instruction::AppendChild(_, _, _) => 2,
        Instruction::SetProperty(_, _, _) => 3,
        Instruction::ActivateRoots(_) => 4,
        Instruction::Commit => 5,
    }
}

#[test]
fn says_its_name() {
    assert_eq!(elementary::say_name(), "Elementary");
}

#[test]
fn single_sine_node_exact_batch() {
    let mut table = MountTable::new();
    let roots = vec![node(1, "sine", vec![("freq", 440)], vec![])];
    let batch = table.reconcile(&roots);
    assert_eq!(
        batch.items,
        vec![
            Instruction::Create(1, "sine".to_string()),
            Instruction::SetProperty(
                1,
                "freq".to_string(),
                PropValue::Scalar(ScalarValue::Int(440))
            ),
            Instruction::ActivateRoots(vec![1]),
            Instruction::Commit,
        ]
    );
}

#[test]
fn idempotent_remount() {
    let child = node(2, "gain", vec![("level", 3)], vec![]);
    let roots = vec![node(1, "out", vec![("mix", 1)], vec![child])];
    let mut table = MountTable::new();
    let first = table.reconcile(&roots);
    assert!(first
        .items
        .iter()
        .any(|i| matches!(i, Instruction::Create(_, _))));
    let second = table.reconcile(&roots);
    assert!(!second
        .items
        .iter()
        .any(|i| matches!(i, Instruction::Create(_, _))));
    assert!(!second
        .items
        .iter()
        .any(|i| matches!(i, Instruction::AppendChild(_, _, _))));
    let sets: Vec<&Instruction> = second
        .items
        .iter()
        .filter(|i| matches!(i, Instruction::SetProperty(_, _, _)))
        .collect();
    assert_eq!(sets.len(), 2);
    let n = second.items.len();
    assert_eq!(second.items[n - 2], Instruction::ActivateRoots(vec![1]));
    assert_eq!(second.items[n - 1], Instruction::Commit);
}

#[test]
fn dedup_on_shared_child() {
    let shared_a = node(7, "noise", vec![("seed", 4)], vec![]);
    let shared_b = node(7, "noise", vec![("seed", 4)], vec![]);
    let roots = vec![
        node(1, "left", vec![], vec![shared_a]),
        node(2, "right", vec![], vec![shared_b]),
    ];
    let mut table = MountTable::new();
    let batch = table.reconcile(&roots);
    let creates_of_7 = batch
        .items
        .iter()
        .filter(|i| matches!(i, Instruction::Create(7, _)))
        .count();
    assert_eq!(creates_of_7, 1);
    let appends_to_7: Vec<&Instruction> = batch
        .items
        .iter()
        .filter(|i| matches!(i, Instruction::AppendChild(_, 7, _)))
        .collect();
    assert_eq!(appends_to_7.len(), 2);
    assert_eq!(*appends_to_7[0], Instruction::AppendChild(1, 7, 0));
    assert_eq!(*appends_to_7[1], Instruction::AppendChild(2, 7, 0));
    let sets_of_7 = batch
        .items
        .iter()
        .filter(|i| matches!(i, Instruction::SetProperty(7, _, _)))
        .count();
    assert_eq!(sets_of_7, 1);
}

#[test]
fn cycle_by_id_terminates_and_processes_once() {
    let back_reference = node(1, "osc", vec![("phase", 0)], vec![]);
    let middle = node(2, "delay", vec![], vec![back_reference, node(3, "tap", vec![], vec![])]);
    let roots = vec![node(1, "osc", vec![("phase", 0)], vec![middle])];
    let mut table = MountTable::new();
    let batch = table.reconcile(&roots);
    let creates_of_1 = batch
        .items
        .iter()
        .filter(|i| matches!(i, Instruction::Create(1, _)))
        .count();
    assert_eq!(creates_of_1, 1);
    let sets_of_1 = batch
        .items
        .iter()
        .filter(|i| matches!(i, Instruction::SetProperty(1, _, _)))
        .count();
    assert_eq!(sets_of_1, 1);
    let creates: Vec<i32> = batch
        .items
        .iter()
        .filter_map(|i| match i {
            Instruction::Create(id, _) => Some(*id),
            _ => None,
        })
        .collect();
    assert_eq!(creates, vec![1, 2, 3]);
}

#[test]
fn activation_reflects_latest_roots_only() {
    let mut table = MountTable::new();
    let first_roots = vec![
        node(1, "sine", vec![], vec![]),
        node(2, "saw", vec![], vec![]),
    ];
    let first = table.reconcile(&first_roots);
    let n = first.items.len();
    assert_eq!(first.items[n - 2], Instruction::ActivateRoots(vec![1, 2]));
    let second_roots = vec![node(3, "square", vec![], vec![])];
    let second = table.reconcile(&second_roots);
    let m = second.items.len();
    assert_eq!(second.items[m - 2], Instruction::ActivateRoots(vec![3]));
    assert_eq!(second.items[m - 1], Instruction::Commit);
}

#[test]
fn batch_is_ordered_by_opcode_class() {
    let grandchild = node(4, "noise", vec![("seed", 9)], vec![]);
    let child_a = node(2, "gain", vec![("level", 2)], vec![grandchild]);
    let child_b = node(3, "pan", vec![], vec![]);
    let roots = vec![node(1, "mix", vec![("wet", 1)], vec![child_a, child_b])];
    let mut table = MountTable::new();
    let batch = table.reconcile(&roots);
    let ranks: Vec<u8> = batch.items.iter().map(opcode_rank).collect();
    let mut sorted = ranks.clone();
    sorted.sort();
    assert_eq!(ranks, sorted);
    let n = batch.items.len();
    assert!(matches!(batch.items[n - 2], Instruction::ActivateRoots(_)));
    assert_eq!(batch.items[n - 1], Instruction::Commit);
}

#[test]
fn children_append_in_child_order_with_channels() {
    let mut child_a = node(2, "gain", vec![], vec![]);
    child_a.output_channel = 5;
    let mut child_b = node(3, "pan", vec![], vec![]);
    child_b.output_channel = 1;
    let roots = vec![node(1, "mix", vec![], vec![child_a, child_b])];
    let mut table = MountTable::new();
    let batch = table.reconcile(&roots);
    let appends: Vec<&Instruction> = batch
        .items
        .iter()
        .filter(|i| matches!(i, Instruction::AppendChild(_, _, _)))
        .collect();
    assert_eq!(*appends[0], Instruction::AppendChild(1, 2, 5));
    assert_eq!(*appends[1], Instruction::AppendChild(1, 3, 1));
}

#[test]
fn mount_table_records_shallow_entries() {
    let child = node(2, "gain", vec![], vec![]);
    let roots = vec![node(1, "out", vec![("mix", 1)], vec![child])];
    let mut table = MountTable::new();
    table.reconcile(&roots);
    assert_eq!(table.len(), 2);
    assert!(table.contains(1));
    assert!(table.contains(2));
    assert!(!table.contains(3));
    let entry = table.get(1).unwrap();
    assert_eq!(entry.hash, 1);
    assert_eq!(entry.kind, "out");
    assert_eq!(entry.children, vec![2]);
    assert_eq!(entry.props.len(), 1);
    assert_eq!(entry.props[0].name, "mix");
}

#[test]
fn remount_keeps_original_entry_and_mounts_new_children() {
    let mut table = MountTable::new();
    let first_roots = vec![node(1, "sine", vec![("freq", 440)], vec![])];
    table.reconcile(&first_roots);
    let second_roots = vec![node(
        1,
        "sine",
        vec![("freq", 880)],
        vec![node(9, "lfo", vec![], vec![])],
    )];
    let second = table.reconcile(&second_roots);
    // The id was already mounted: its entry is not rewritten, and no new
    // child wiring is emitted for it; the new child id is still mounted.
    let entry = table.get(1).unwrap();
    assert_eq!(entry.children, Vec::<i32>::new());
    assert_eq!(
        entry.props[0].value,
        PropValue::Scalar(ScalarValue::Int(440))
    );
    assert!(!second
        .items
        .iter()
        .any(|i| matches!(i, Instruction::AppendChild(_, _, _))));
    assert!(second
        .items
        .iter()
        .any(|i| matches!(i, Instruction::Create(9, _))));
    assert_eq!(
        second
            .items
            .iter()
            .filter(|i| matches!(i, Instruction::SetProperty(1, _, _)))
            .count(),
        1
    );
}

#[test]
fn shallow_clone_projects_children_to_ids() {
    let child_a = node(2, "gain", vec![], vec![node(4, "deep", vec![], vec![])]);
    let child_b = node(3, "pan", vec![], vec![]);
    let parent = node(1, "mix", vec![("wet", 1)], vec![child_a, child_b]);
    let entry = elementary::graph::shallow_clone(&parent);
    assert_eq!(entry.hash, 1);
    assert_eq!(entry.kind, "mix");
    assert_eq!(entry.children, vec![2, 3]);
    assert_eq!(entry.props.len(), 1);
}
