use parity_jsonrpc::async_result::{AsyncResultHandler, BatchCollector, SetOutcome};
use parity_jsonrpc::json::{JsonNumber, JsonValue};
use parity_jsonrpc::response::{Success, SyncOutput, SyncResponse};
use parity_jsonrpc::types::{Id, Version};

fn output(result: Result<JsonValue, parity_jsonrpc::error::Error>) -> SyncOutput {
    SyncOutput::from(result, Id::Null, Version::V2)
}

#[test]
fn should_wait_for_all_results_in_batch() {
    // given
    let mut res1 = AsyncResultHandler::new();
    let mut res2 = AsyncResultHandler::new();
    let mut batch = BatchCollector::new(2);
    // both outputs are pending: their callbacks become listeners
    assert!(res1.on_result().is_none());
    assert!(res2.on_result().is_none());
    let (fired_now, fired) = batch.finish();
    assert!(fired_now.is_none());
    assert!(!fired);
    let mut val = None;

    // when
    // resolve first
    if let SetOutcome::Deliver(r) = res1.set_result(Ok(JsonValue::Number(JsonNumber::PosInt(1)))) {
        if let Some(all) = batch.add_resolved(output(r)) {
            val = Some(SyncResponse::Batch(all));
        }
    }
    assert_eq!(val.is_none(), true);
    // resolve second
    if let SetOutcome::Deliver(r) = res2.set_result(Ok(JsonValue::Number(JsonNumber::PosInt(2)))) {
        if let Some(all) = batch.add_resolved(output(r)) {
            val = Some(SyncResponse::Batch(all));
        }
    }
    assert_eq!(val.is_none(), false);

    // then
    assert_eq!(val.unwrap(), SyncResponse::Batch(vec![
        SyncOutput::Success(Success { result: JsonValue::Number(JsonNumber::PosInt(1)), id: Id::Null, jsonrpc: Version::V2 }),
        SyncOutput::Success(Success { result: JsonValue::Number(JsonNumber::PosInt(2)), id: Id::Null, jsonrpc: Version::V2 }),
    ]));
}

#[test]
fn should_call_on_result_if_available() {
    let mut res = AsyncResultHandler::new();
    assert!(matches!(res.set_result(Ok(JsonValue::String("hello".into()))), SetOutcome::Stored));

    // the result is there: the callback is invoked right away
    let now = res.on_result();
    assert!(now.is_some());
}

#[test]
fn should_return_output_if_available() {
    let mut res = AsyncResultHandler::new();
    res.set_result(Ok(JsonValue::String("hello".into())));

    let result = res.try_result().unwrap();
    assert_eq!(output(result), SyncOutput::Success(Success {
        id: Id::Null,
        jsonrpc: Version::V2,
        result: JsonValue::String("hello".into()),
    }));
}

#[test]
fn waiting_thread_is_notified_and_takes_the_result() {
    let mut res = AsyncResultHandler::new();
    assert!(res.try_result().is_none());
    res.notify();
    assert!(matches!(res.set_result(Ok(JsonValue::Null)), SetOutcome::Notify));
    assert_eq!(res.try_result().map(|r| r.is_ok()), Some(true));
    assert!(res.try_result().is_none());
}

#[test]
fn batch_of_available_outputs_fires_with_the_last_one() {
    let mut batch = BatchCollector::new(2);
    assert_eq!(batch.add_ready(1), None);
    assert_eq!(batch.add_ready(2), Some(vec![1, 2]));
    let (now, fired) = batch.finish();
    assert_eq!(now, None);
    assert!(fired);
    assert!(batch.has_fired());
}

#[test]
fn resolved_output_before_a_sync_one_does_not_fire_a_partial_batch() {
    let mut batch = BatchCollector::new(3);
    assert_eq!(batch.add_resolved("async"), None);
    assert_eq!(batch.add_ready("sync"), None);
    assert!(!batch.has_fired());
    assert_eq!(batch.add_resolved("late"), Some(vec!["async", "sync", "late"]));
    assert!(batch.has_fired());
}

#[test]
fn empty_batch_fires_at_finish() {
    let mut batch = BatchCollector::<u8>::new(0);
    let (now, fired) = batch.finish();
    assert_eq!(now, Some(vec![]));
    assert!(fired);
}

#[test]
fn batch_callback_fires_once_with_every_output_in_the_order_added() {
    let mut batch = BatchCollector::new(4);
    let mut calls = Vec::new();
    for (ready, out) in [(false, 1), (true, 2), (false, 3), (true, 4)] {
        let fired = if ready { batch.add_ready(out) } else { batch.add_resolved(out) };
        if let Some(all) = fired {
            calls.push(all);
        }
    }
    assert_eq!(calls, vec![vec![1, 2, 3, 4]]);
}
