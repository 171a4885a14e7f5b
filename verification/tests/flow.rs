use std::sync::mpsc;

use parity_jsonrpc::flow::{Handler, SplitAction, SplitState};

#[test]
fn flow_should_map_handler_correctly() {
    // given
    let (tx, rx) = mpsc::channel();
    let handler = Handler::new(move |output| {
        tx.send(output).unwrap();
    }, |data: usize| data + 10);

    // when
    handler.send(20);

    // then
    assert_eq!(rx.recv().unwrap(), 30);
}

#[test]
fn flow_should_return_new_mapping_handler() {
    // given
    let (tx, rx) = mpsc::channel();
    let handler = Handler::new(move |output| {
        tx.send(output).unwrap();
    }, |data: usize| data + 10).map(|x| x + 15usize);

    // when
    handler.send(20);

    // then
    assert_eq!(rx.recv().unwrap(), 45);
}

#[test]
fn flow_should_split_handler() {
    // given
    let (tx, rx) = mpsc::channel();
    let handler = Handler::new(move |output| {
        tx.send(output).unwrap();
    }, |data: i64| data);
    let map = |data: Vec<usize>| data.into_iter().fold(0, |a, b| a + b) as i64;
    // split handler
    let mut split = SplitState::new(2);

    // then
    for (index, res) in [(0usize, 10usize), (1, 20)] {
        if let SplitAction::Complete(all) = split.respond(index, res) {
            handler.send(map(all));
        }
    }

    assert_eq!(rx.recv().unwrap(), 30i64);
}

#[test]
fn flow_split_completes_when_every_sub_handler_answered() {
    let mut split = SplitState::new(2);
    assert!(matches!(split.respond(0, 1), SplitAction::Wait));
    assert!(matches!(split.respond(0, 2), SplitAction::Discard));
    assert!(!split.is_done());
    match split.respond(1, 7) {
        SplitAction::Complete(all) => assert_eq!(all, vec![1, 7]),
        _ => panic!("both sub-handlers answered"),
    }
    assert!(split.is_done());
}
