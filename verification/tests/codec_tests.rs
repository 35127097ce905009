use elementary::codec::encode_batch;
use elementary::graph::{NodeRepr, Prop, PropValue, ScalarValue};
use elementary::instruction::{Instruction, InstructionBatch};
use elementary::table::MountTable;

fn batch_of(items: Vec<Instruction>) -> InstructionBatch {
    InstructionBatch { items }
}

#[test]
fn encodes_single_sine_batch() {
    let mut table = MountTable::new();
    let roots = vec![NodeRepr {
        hash: 1,
        kind: "sine".to_string(),
        props: vec![Prop {
            name: "freq".to_string(),
            value: PropValue::Scalar(ScalarValue::Int(440)),
        }],
        output_channel: 0,
        children: vec![],
    }];
    let batch = table.reconcile(&roots);
    assert_eq!(
        encode_batch(&batch),
        "[[0,1,\"sine\"],[3,1,\"freq\",440],[4,[1]],[5]]"
    );
}

#[test]
fn encodes_empty_graph_as_activate_and_commit() {
    let mut table = MountTable::new();
    let batch = table.reconcile(&vec![]);
    assert_eq!(encode_batch(&batch), "[[4,[]],[5]]");
}

#[test]
fn encodes_append_child_with_channel() {
    let b = batch_of(vec![Instruction::AppendChild(1, 7, 3)]);
    assert_eq!(encode_batch(&b), "[[2,1,7,3]]");
}

#[test]
fn encodes_negative_and_extreme_integers() {
    let b = batch_of(vec![
        Instruction::Create(-3, "x".to_string()),
        Instruction::SetProperty(
            -3,
            "v".to_string(),
            PropValue::Scalar(ScalarValue::Int(i64::MIN)),
        ),
        Instruction::SetProperty(
            -3,
            "w".to_string(),
            PropValue::Scalar(ScalarValue::Int(i64::MAX)),
        ),
    ]);
    assert_eq!(
        encode_batch(&b),
        "[[0,-3,\"x\"],[3,-3,\"v\",-9223372036854775808],[3,-3,\"w\",9223372036854775807]]"
    );
}

#[test]
fn escapes_json_strings() {
    let b = batch_of(vec![Instruction::Create(
        1,
        "a\"b\\c\nd\te\ru\u{8}v\u{c}w\u{1f}z".to_string(),
    )]);
    assert_eq!(
        encode_batch(&b),
        "[[0,1,\"a\\\"b\\\\c\\nd\\te\\ru\\bv\\fw\\u001fz\"]]"
    );
}

#[test]
fn keeps_unicode_text_unescaped() {
    let b = batch_of(vec![Instruction::SetProperty(
        2,
        "label".to_string(),
        PropValue::Scalar(ScalarValue::Text("sinus 440 Hz \u{e9}".to_string())),
    )]);
    assert_eq!(
        encode_batch(&b),
        "[[3,2,\"label\",\"sinus 440 Hz \u{e9}\"]]"
    );
}

#[test]
fn carries_numeric_literals_verbatim() {
    let b = batch_of(vec![Instruction::SetProperty(
        1,
        "q".to_string(),
        PropValue::Scalar(ScalarValue::Num("3.14".to_string())),
    )]);
    assert_eq!(encode_batch(&b), "[[3,1,\"q\",3.14]]");
}

#[test]
fn encodes_scalar_variants_and_arrays() {
    let b = batch_of(vec![Instruction::SetProperty(
        5,
        "mix".to_string(),
        PropValue::Array(vec![
            ScalarValue::Int(1),
            ScalarValue::Null,
            ScalarValue::Bool(true),
            ScalarValue::Bool(false),
            ScalarValue::Text("x".to_string()),
        ]),
    )]);
    assert_eq!(encode_batch(&b), "[[3,5,\"mix\",[1,null,true,false,\"x\"]]]");
}

#[test]
fn encodes_empty_array_value() {
    let b = batch_of(vec![Instruction::SetProperty(
        5,
        "taps".to_string(),
        PropValue::Array(vec![]),
    )]);
    assert_eq!(encode_batch(&b), "[[3,5,\"taps\",[]]]");
}

#[test]
fn encodes_activation_of_several_roots() {
    let b = batch_of(vec![
        Instruction::ActivateRoots(vec![1, -2, 3]),
        Instruction::Commit,
    ]);
    assert_eq!(encode_batch(&b), "[[4,[1,-2,3]],[5]]");
}
