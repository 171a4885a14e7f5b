use std::cell::RefCell;
use std::rc::Rc;

use parity_jsonrpc::commander::{Commander, Data, MethodAction, Subscription, SubscriptionCommand};
use parity_jsonrpc::error::ErrorCode;
use parity_jsonrpc::json::{JsonNumber, JsonValue};
use parity_jsonrpc::types::Params;

struct Recorder(Rc<RefCell<Vec<String>>>);

impl SubscriptionCommand for Recorder {
    fn execute(&self, subscription: Subscription) {
        let event = match subscription {
            Subscription::Open { .. } => "open".to_owned(),
            Subscription::Close { id, .. } => format!("close {:?}", id),
        };
        self.0.borrow_mut().push(event);
    }
}

fn commander(log: Rc<RefCell<Vec<String>>>) -> Commander {
    let mut c = Commander::new();
    c.add_method("hello".to_owned(), Box::new(|_: Params| -> Data { Ok(JsonValue::Bool(true)) }));
    c.add_notification("note".to_owned(), Box::new(|_: Params| {}));
    c.add_subscription("sub".to_owned(), "unsub".to_owned(), Box::new(Recorder(log)));
    c
}

fn one() -> JsonValue {
    JsonValue::Number(JsonNumber::PosInt(1))
}

#[test]
fn dispatch_of_a_method_call_runs_it() {
    let c = commander(Rc::new(RefCell::new(Vec::new())));
    assert!(matches!(c.dispatch_method("hello", Params::Empty, false), MethodAction::Call(Params::Empty)));
    assert_eq!(c.execute_method("hello", Params::Empty), Ok(JsonValue::Bool(true)));
}

#[test]
fn dispatch_of_an_unknown_name_or_a_notification_is_not_found() {
    let c = commander(Rc::new(RefCell::new(Vec::new())));
    assert!(matches!(c.dispatch_method("nope", Params::Empty, true), MethodAction::Fail(ErrorCode::MethodNotFound)));
    assert!(matches!(c.dispatch_method("note", Params::Empty, true), MethodAction::Fail(ErrorCode::MethodNotFound)));
}

#[test]
fn subscriptions_need_a_session() {
    let c = commander(Rc::new(RefCell::new(Vec::new())));
    assert!(matches!(c.dispatch_method("sub", Params::Empty, false), MethodAction::Fail(ErrorCode::SessionNotSupported)));
    assert!(matches!(
        c.dispatch_method("unsub", Params::Array(vec![one()]), false),
        MethodAction::Fail(ErrorCode::SessionNotSupported)
    ));
    assert_eq!(c.execute_method("sub", Params::Empty).unwrap_err().code, ErrorCode::SessionNotSupported);
}

#[test]
fn subscribe_in_a_session_opens_a_subscription() {
    let log = Rc::new(RefCell::new(Vec::new()));
    let c = commander(log.clone());
    assert!(matches!(c.dispatch_method("sub", Params::Empty, true), MethodAction::Subscribe(Params::Empty)));
    c.execute_subscription("sub", Subscription::Open {
        params: Params::Empty,
        subscriber: Box::new(|_: Data| {}),
    });
    assert_eq!(*log.borrow(), vec!["open".to_owned()]);
}

#[test]
fn unsubscribe_takes_the_first_parameter_as_the_id() {
    let log = Rc::new(RefCell::new(Vec::new()));
    let c = commander(log.clone());
    match c.dispatch_method("unsub", Params::Array(vec![one(), JsonValue::Null]), true) {
        MethodAction::Unsubscribe(id) => {
            assert_eq!(id, one());
            c.execute_subscription("unsub", Subscription::Close { id, ready: Box::new(|_: Data| {}) });
        },
        _ => panic!("an unsubscribe call with an id"),
    }
    assert_eq!(log.borrow().len(), 1);
    assert!(log.borrow()[0].starts_with("close"));
}

#[test]
fn unsubscribe_without_an_id_has_invalid_params() {
    let c = commander(Rc::new(RefCell::new(Vec::new())));
    assert!(matches!(c.dispatch_method("unsub", Params::Array(vec![]), true), MethodAction::Fail(ErrorCode::InvalidParams)));
    assert!(matches!(c.dispatch_method("unsub", Params::Empty, true), MethodAction::Fail(ErrorCode::InvalidParams)));
}
