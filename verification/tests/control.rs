use std::sync::mpsc;

use parity_jsonrpc::control::{Handler, Session, SplitAction, SplitState};
use parity_jsonrpc::json::{json_eq, JsonNumber, JsonValue};

#[test]
fn control_should_map_handler_correctly() {
    // given
    let (tx, rx) = mpsc::channel();
    let handler = Handler::new(move |output| {
        tx.send(output).unwrap();
    }, |data: usize| data + 10);

    // when
    handler.send(20);

    // then
    assert_eq!(rx.recv().unwrap(), 30);
}

#[test]
fn control_should_return_new_mapping_handler() {
    // given
    let (tx, rx) = mpsc::channel();
    let handler = Handler::new(move |output| {
        tx.send(output).unwrap();
    }, |data: usize| data + 10).map(|x| x + 15usize);

    // when
    handler.send(20);

    // then
    assert_eq!(rx.recv().unwrap(), 45);
}

fn deliver<F: Fn(i64)>(
    upstream: &F,
    action: SplitAction<usize>,
    map_many: &dyn Fn(Vec<usize>) -> i64,
    map_single: &dyn Fn(usize) -> i64,
) {
    match action {
        SplitAction::Complete(all) => upstream(map_many(all)),
        SplitAction::Forward(one) => upstream(map_single(one)),
        SplitAction::Wait | SplitAction::Discard => {},
    }
}

#[test]
fn control_should_split_handler() {
    // given
    let (tx, rx) = mpsc::channel();
    let handler = Handler::new(move |output| {
        tx.send(output).unwrap();
    }, |data: i64| data);
    let upstream = |x: i64| handler.send(x);
    let map_many = |data: Vec<usize>| data.into_iter().fold(0, |a, b| a + b) as i64;
    let map_single = |single: usize| single as i64;
    // split handler
    let (mut split, now) = SplitState::new(2);
    assert!(now.is_none());

    // when
    let a = split.respond(0, 10);
    deliver(&upstream, a, &map_many, &map_single);
    let b = split.respond(1, 20);
    deliver(&upstream, b, &map_many, &map_single);

    // then
    assert_eq!(rx.recv().unwrap(), 30i64);
}

#[test]
fn should_split_handler_and_send_more_events_afterwards() {
    // given
    let (tx, rx) = mpsc::channel();
    let handler = Handler::new(move |output| {
        tx.send(output).unwrap();
    }, |data: i64| data);
    let upstream = |x: i64| handler.send(x);
    let map_many = |data: Vec<usize>| data.into_iter().fold(0, |a, b| a + b) as i64;
    let map_single = |single: usize| (single + 5) as i64;
    let (mut split, _) = SplitState::new(2);

    // then
    let r = split.respond(0, 10);
    deliver(&upstream, r, &map_many, &map_single);
    let r = split.respond(0, 30); // This message should be discarded
    assert!(matches!(r, SplitAction::Discard));
    deliver(&upstream, r, &map_many, &map_single);
    let r = split.respond(1, 20);
    deliver(&upstream, r, &map_many, &map_single);

    let r = split.respond(0, 50); // This should be propagated
    deliver(&upstream, r, &map_many, &map_single);
    let r = split.respond(1, 100); // And this too
    deliver(&upstream, r, &map_many, &map_single);

    assert_eq!(rx.recv().unwrap(), 30i64);
    assert_eq!(rx.recv().unwrap(), 55i64);
    assert_eq!(rx.recv().unwrap(), 105i64);
}

#[test]
fn should_handle_empty_batch() {
    let (tx, rx) = mpsc::channel();
    let handler = Handler::new(move |output| {
        tx.send(output).unwrap();
    }, |data: i64| data);
    let map_many = |data: Vec<usize>| data.into_iter().fold(0, |a, b| a + b) as i64;

    // when
    let (split, now) = SplitState::<usize>::new(0);
    assert!(split.is_initial_sent());
    if let Some(all) = now {
        handler.send(map_many(all));
    }

    // then
    assert_eq!(rx.recv().unwrap(), 0);
}

#[test]
fn identity_handler_passes_responses_through() {
    let (tx, rx) = mpsc::channel();
    let handler = Handler::id(move |output: String| {
        tx.send(output).unwrap();
    });
    handler.send("1".to_string());
    assert_eq!(rx.recv().unwrap(), "1");
}

#[test]
fn split_waits_and_completes_with_first_responses_in_arrival_order() {
    let (mut split, _) = SplitState::new(3);
    assert!(matches!(split.respond(2, "c"), SplitAction::Wait));
    assert!(matches!(split.respond(0, "a"), SplitAction::Wait));
    assert!(matches!(split.respond(2, "c2"), SplitAction::Discard));
    assert!(!split.is_initial_sent());
    match split.respond(1, "b") {
        SplitAction::Complete(all) => assert_eq!(all, vec!["c", "a", "b"]),
        _ => panic!("the batch is complete"),
    }
    assert!(split.is_initial_sent());
    match split.respond(1, "later") {
        SplitAction::Forward(one) => assert_eq!(one, "later"),
        _ => panic!("responses after the batch are forwarded"),
    }
}

fn close_session(session: Session<Box<dyn Fn(JsonValue)>>) {
    for (id, unsubscribe) in session.close() {
        unsubscribe(id);
    }
}

#[test]
fn should_unsubscribe_when_session_is_dropped() {
    // given
    let (tx, rx) = mpsc::channel();
    let mut session: Session<Box<dyn Fn(JsonValue)>> = Session::new();
    let command: Box<dyn Fn(JsonValue)> = Box::new(move |id| tx.send(id).unwrap());

    // when
    session.add_subscription("a".into(), JsonValue::String("1".into()), command);
    close_session(session);

    // then
    assert_eq!(rx.recv().unwrap(), JsonValue::String("1".into()));
}

#[test]
fn should_not_unsubscribe_if_removed_manually() {
    // given
    let (tx, rx) = mpsc::channel();
    let mut session: Session<Box<dyn Fn(JsonValue)>> = Session::new();
    let command: Box<dyn Fn(JsonValue)> = Box::new(move |id| tx.send(id).unwrap());

    // when
    session.add_subscription("a".into(), JsonValue::String("1".into()), command);
    session.remove_subscription("a".into(), JsonValue::String("1".into()));
    close_session(session);

    // then
    assert!(rx.recv().is_err(), "Should not get anything!");
}

#[test]
fn removing_a_subscription_drops_only_that_subscription() {
    let mut session: Session<u8> = Session::new();
    session.add_subscription("a".into(), JsonValue::Number(JsonNumber::PosInt(1)), 1);
    session.add_subscription("b".into(), JsonValue::Number(JsonNumber::PosInt(2)), 2);
    session.add_subscription("a".into(), JsonValue::Number(JsonNumber::PosInt(3)), 3);
    session.add_subscription("c".into(), JsonValue::Number(JsonNumber::PosInt(1)), 4);
    session.add_subscription("d".into(), JsonValue::Number(JsonNumber::PosInt(5)), 5);
    session.remove_subscription("a".into(), JsonValue::Number(JsonNumber::PosInt(1)));
    let left: Vec<u8> = session.close().into_iter().map(|(_, u)| u).collect();
    assert_eq!(left, vec![2, 3, 4, 5]);
}

#[test]
fn json_values_compare_deeply() {
    let a = JsonValue::Object(vec![("k".into(), JsonValue::Array(vec![JsonValue::Null, JsonValue::Bool(true)]))]);
    let b = JsonValue::Object(vec![("k".into(), JsonValue::Array(vec![JsonValue::Null, JsonValue::Bool(true)]))]);
    let c = JsonValue::Object(vec![("k".into(), JsonValue::Array(vec![JsonValue::Null, JsonValue::Bool(false)]))]);
    assert!(json_eq(&a, &b));
    assert!(!json_eq(&a, &c));
    assert!(!json_eq(&JsonValue::Number(JsonNumber::PosInt(1)), &JsonValue::Number(JsonNumber::NegInt(-1))));
}

#[test]
fn handler_transform_gives_what_the_client_receives() {
    let handler = Handler::new(|_: usize| {}, |data: usize| data + 10).map(|x: usize| x + 15);
    assert_eq!(handler.transform(20), 45);
}

#[test]
fn split_calls_upstream_once_with_first_responses_then_passes_later_ones() {
    let (mut split, now) = SplitState::new(2);
    assert!(now.is_none());
    let mut upstream = Vec::new();
    for (index, res) in [(0usize, "a"), (0, "a2"), (1, "b"), (1, "b2"), (0, "a3")] {
        match split.respond(index, res) {
            SplitAction::Complete(all) => upstream.push(format!("batch {:?}", all)),
            SplitAction::Forward(one) => upstream.push(format!("single {}", one)),
            SplitAction::Wait | SplitAction::Discard => {},
        }
    }
    assert_eq!(upstream, vec![
        "batch [\"a\", \"b\"]".to_owned(),
        "single b2".to_owned(),
        "single a3".to_owned(),
    ]);
}

#[test]
fn removing_one_of_two_subscriptions_with_the_same_name_keeps_the_other() {
    let mut session: Session<u8> = Session::new();
    session.add_subscription("a".into(), JsonValue::Number(JsonNumber::PosInt(1)), 1);
    session.add_subscription("a".into(), JsonValue::Number(JsonNumber::PosInt(2)), 2);
    session.remove_subscription("a".into(), JsonValue::Number(JsonNumber::PosInt(1)));
    let left = session.close();
    assert_eq!(left.len(), 1);
    assert!(json_eq(&left[0].0, &JsonValue::Number(JsonNumber::PosInt(2))));
    assert_eq!(left[0].1, 2);
}
