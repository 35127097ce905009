use elementary::graph::{NodeRepr, Prop, PropValue, ScalarValue};
use elementary::session::{Session, SessionAction, SessionEvent};

fn sine_graph() -> Vec<NodeRepr> {
    vec![NodeRepr {
        hash: 1,
        kind: "sine".to_string(),
        props: vec![Prop {
            name: "freq".to_string(),
            value: PropValue::Scalar(ScalarValue::Int(440)),
        }],
        output_channel: 0,
        children: vec![],
    }]
}

#[test]
fn directive_with_graph_applies_and_echoes() {
    let mut session = Session::new();
    let action = session.step(SessionEvent::Directive {
        graph: Some(sine_graph()),
        raw: "{\"graph\":[...]}".to_string(),
    });
    match action {
        SessionAction::ApplyAndEcho { payload, echo } => {
            assert_eq!(payload, "[[0,1,\"sine\"],[3,1,\"freq\",440],[4,[1]],[5]]");
            assert_eq!(echo, "{\"graph\":[...]}");
        }
        other => panic!("expected an apply, got {:?}", describe(&other)),
    }
}

#[test]
fn second_directive_reuses_the_mounted_graph() {
    let mut session = Session::new();
    session.step(SessionEvent::Directive {
        graph: Some(sine_graph()),
        raw: "first".to_string(),
    });
    let action = session.step(SessionEvent::Directive {
        graph: Some(sine_graph()),
        raw: "second".to_string(),
    });
    match action {
        SessionAction::ApplyAndEcho { payload, echo } => {
            assert_eq!(payload, "[[3,1,\"freq\",440],[4,[1]],[5]]");
            assert_eq!(echo, "second");
        }
        other => panic!("expected an apply, got {:?}", describe(&other)),
    }
}

#[test]
fn directive_without_graph_is_only_echoed() {
    let mut session = Session::new();
    let action = session.step(SessionEvent::Directive {
        graph: None,
        raw: "not even json".to_string(),
    });
    match action {
        SessionAction::Echo { echo } => assert_eq!(echo, "not even json"),
        other => panic!("expected an echo, got {:?}", describe(&other)),
    }
}

#[test]
fn non_text_frame_is_rejected() {
    let mut session = Session::new();
    let action = session.step(SessionEvent::NonText);
    match action {
        SessionAction::Reject { reply } => assert_eq!(reply, "No thanks"),
        other => panic!("expected a rejection, got {:?}", describe(&other)),
    }
}

#[test]
fn close_shuts_the_session_down() {
    let mut session = Session::new();
    let action = session.step(SessionEvent::Closed);
    assert!(matches!(action, SessionAction::Shutdown));
}

fn describe(action: &SessionAction) -> &'static str {
    match action {
        SessionAction::ApplyAndEcho { .. } => "ApplyAndEcho",
        SessionAction::Echo { .. } => "Echo",
        SessionAction::Reject { .. } => "Reject",
        SessionAction::Shutdown => "Shutdown",
    }
}
