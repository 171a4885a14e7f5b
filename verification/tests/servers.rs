use bytes::BytesMut;
use parity_jsonrpc::io::IoHandler;
use parity_jsonrpc::pipe::{PipeReader, PipeTokens, MAX_REQUEST_LEN, REQUEST_READ_BATCH};
use parity_jsonrpc::request_response::{ContentType, Request, Response, StatusCode};
use parity_jsonrpc::server_state::{Error, ServerState};
use parity_jsonrpc::stdio::{process_output, response_line};
use parity_jsonrpc::tcp::{response_text, AfterResponses, CodecError, LineCodec, PeerQueue, Polled, QueueStep};
use parity_jsonrpc::tcp_server::{accepts_connection, ready_actions, take_dispatch_batch, ReadyAction, WriteBuffer, MAX_WRITE_LENGTH};
use parity_jsonrpc::ws_session::{forward_step, ForwardStep};
use parity_jsonrpc::ws_server::ServerBuilder;
use parity_jsonrpc::ws_session::{
    forbidden, header_check, on_request, response_to_send, slots_to_reserve, Handshake, HeaderCheck,
    MiddlewareAction, SessionCounter,
};
use parity_jsonrpc::ws_session::{check_active, header_is_allowed, ConnectionError};
use parity_jsonrpc::tcp::{push_target, PushMessageError};

fn basic_server_builder() -> ServerBuilder {
    let io = IoHandler::new();
    ServerBuilder::new(io)
}

#[test]
fn config_usize_vals_have_correct_defaults() {
    let server = basic_server_builder();

    assert_eq!(server.max_connections, 100);
    assert_eq!(server.max_payload_bytes, 5 * 1024 * 1024);
    assert_eq!(server.max_in_buffer_capacity, 10 * 1024 * 1024);
    assert_eq!(server.max_out_buffer_capacity, 10 * 1024 * 1024);
}

#[test]
fn config_usize_vals_can_be_set() {
    let server = basic_server_builder();

    // We can set them individually
    let server = server.max_connections(10);
    assert_eq!(server.max_connections, 10);

    let server = server.max_payload(29);
    assert_eq!(server.max_payload_bytes, 29);

    let server = server.max_in_buffer_capacity(38);
    assert_eq!(server.max_in_buffer_capacity, 38);

    let server = server.max_out_buffer_capacity(47);
    assert_eq!(server.max_out_buffer_capacity, 47);

    // Setting values consecutively does not impact other values
    assert_eq!(server.max_connections, 10);
    assert_eq!(server.max_payload_bytes, 29);
    assert_eq!(server.max_in_buffer_capacity, 38);
    assert_eq!(server.max_out_buffer_capacity, 47);
}

#[test]
fn settings_hold_the_payload_in_fragments() {
    let server = basic_server_builder();
    let s = server.settings(65535);
    assert_eq!(s.max_connections, 100);
    assert_eq!(s.max_fragment_size, 5 * 1024 * 1024);
    assert_eq!(s.fragments_capacity, 80);
    assert!(!s.fragments_grow);
    assert!(s.method_strict && s.masking_strict && !s.shutdown_on_interrupt);

    let small = basic_server_builder().max_payload(10).settings(65535);
    assert_eq!(small.fragments_capacity, 1);

    let huge = basic_server_builder().max_payload(5000 * 10).settings(10);
    assert_eq!(huge.fragments_capacity, 4096);
    assert!(huge.fragments_grow);
}

fn allowed(check: HeaderCheck, patterns: &[&str]) -> bool {
    match check {
        HeaderCheck::Allow => true,
        HeaderCheck::Deny => false,
        HeaderCheck::MatchAgainst(v) => patterns.iter().any(|p| *p == v),
    }
}

#[test]
fn should_disallow_not_whitelisted_origins() {
    let origin_ok = allowed(header_check(Some("http://test.io".as_bytes()), true), &["https://parity.io"]);
    let host_ok = allowed(header_check(Some("127.0.0.1:30001".as_bytes()), true), &["127.0.0.1:30001"]);
    match on_request(MiddlewareAction::Proceed, origin_ok, host_ok, &Vec::new()) {
        Handshake::Reject(response) => {
            assert_eq!((response.status, response.reason.as_str()), (403, "Forbidden"));
            assert_eq!(response.body, "URL Blocked\nConnection Origin has been rejected.\n");
        },
        _ => panic!("origin is not allowed"),
    }
}

#[test]
fn should_disallow_not_whitelisted_hosts() {
    let origin_ok = allowed(header_check(None, true), &["https://parity.io"]);
    let host_ok = allowed(header_check(Some("myhost:30002".as_bytes()), true), &["127.0.0.1:30002"]);
    match on_request(MiddlewareAction::Proceed, origin_ok, host_ok, &Vec::new()) {
        Handshake::Reject(response) => {
            assert_eq!((response.status, response.reason.as_str()), (403, "Forbidden"));
            assert_eq!(response.body, "URL Blocked\nConnection Host has been rejected.\n");
        },
        _ => panic!("host is not allowed"),
    }
}

#[test]
fn should_allow_whitelisted_origins() {
    let origin_ok = allowed(header_check(Some("https://parity.io".as_bytes()), true), &["https://parity.io"]);
    let host_ok = allowed(header_check(Some("127.0.0.1:30003".as_bytes()), true), &["127.0.0.1:30003"]);
    assert!(matches!(on_request(MiddlewareAction::Proceed, origin_ok, host_ok, &Vec::new()), Handshake::Accept(None)));
}

#[test]
fn should_intercept_in_middleware() {
    let mut res = forbidden("x", "y");
    res.status = 200;
    res.reason = "OK".to_string();
    res.body = "Hello World!".to_string();
    res.headers.clear();
    let action = MiddlewareAction::from_response(Some(res));
    let origin_ok = allowed(header_check(Some("https://parity.io".as_bytes()), true), &["https://parity.io"]);
    let host_ok = allowed(header_check(Some("127.0.0.1:30004".as_bytes()), true), &["127.0.0.1:30004"]);
    match on_request(action, origin_ok, host_ok, &Vec::new()) {
        Handshake::Respond(response) => {
            assert_eq!((response.status, response.reason.as_str()), (200, "OK"));
            assert_eq!(response.body, "Hello World!");
        },
        _ => panic!("the middleware answers"),
    }
}

#[test]
fn handshake_checks_follow_the_middleware_action() {
    let action = MiddlewareAction::Respond { response: forbidden("a", "b"), validate_origin: false, validate_hosts: false };
    assert!(!action.should_verify_origin());
    assert!(!action.should_verify_hosts());
    assert!(matches!(on_request(action, false, false, &Vec::new()), Handshake::Respond(_)));
    assert!(MiddlewareAction::Proceed.should_verify_origin());
    let protocols = vec!["first".to_string(), "second".to_string()];
    match on_request(MiddlewareAction::Proceed, true, true, &protocols) {
        Handshake::Accept(Some(p)) => assert_eq!(p, "first"),
        _ => panic!("accepted with the first protocol"),
    }
}

#[test]
fn header_checks() {
    assert!(matches!(header_check(None, true), HeaderCheck::Allow));
    assert!(matches!(header_check(Some("x".as_bytes()), false), HeaderCheck::Allow));
    assert!(matches!(header_check(Some(&[0xffu8][..]), true), HeaderCheck::Deny));
    assert!(matches!(header_check(Some("x".as_bytes()), true), HeaderCheck::MatchAgainst(v) if v == "x"));
}

#[test]
fn forbidden_response_closes_the_connection() {
    let r = forbidden("Title", "Message");
    assert_eq!(r.status, 403);
    assert_eq!(r.body, "Title\nMessage\n");
    assert_eq!(r.headers, vec![("Connection".to_string(), "close".to_string())]);
}

#[test]
fn session_ids_and_slots() {
    let mut ids = SessionCounter::new();
    assert_eq!(ids.next_id(), 1);
    assert_eq!(ids.next_id(), 2);
    assert_eq!(slots_to_reserve(0, 0), 4);
    assert_eq!(slots_to_reserve(8, 8), 8);
    assert_eq!(slots_to_reserve(3, 8), 0);
    assert_eq!(response_to_send(true, Some("r".to_string())), Some("r".to_string()));
    assert_eq!(response_to_send(false, Some("r".to_string())), None);
}

#[test]
fn server_lifecycle() {
    let mut s = ServerState::new();
    assert_eq!(s.stop_async(), Err(Error::NotStarted));
    assert_eq!(s.run_async(), Ok(()));
    assert_eq!(s.run_async(), Err(Error::NotStopped));
    assert!(s.keeps_running());
    assert_eq!(s.stop_async(), Ok(()));
    assert_eq!(s.stop_async(), Err(Error::AlreadyStopping));
    assert!(!s.keeps_running());
    s.loop_finished();
    assert_eq!(s.run_async(), Err(Error::IsStopping));
    assert_eq!(s.stop_async(), Err(Error::NotStarted));
}

#[test]
fn line_codec_round_trip() {
    let mut codec = LineCodec;
    let mut buf = BytesMut::new();
    codec.encode("héllo".to_string(), &mut buf);
    codec.encode("second".to_string(), &mut buf);
    assert_eq!(codec.decode(&mut buf), Ok(Some("héllo".to_string())));
    assert_eq!(codec.decode(&mut buf), Ok(Some("second".to_string())));
    assert_eq!(codec.decode(&mut buf), Ok(None));
    assert!(buf.is_empty());
}

#[test]
fn line_codec_waits_for_a_whole_line_and_refuses_bad_utf8() {
    let mut codec = LineCodec;
    let mut buf = BytesMut::from(&b"partial"[..]);
    assert_eq!(codec.decode(&mut buf), Ok(None));
    assert_eq!(&buf[..], b"partial");
    let mut bad = BytesMut::from(&[0xffu8, b'\n', b'x'][..]);
    assert_eq!(codec.decode(&mut bad), Err(CodecError::InvalidUtf8));
    assert_eq!(&bad[..], b"x");
}

#[test]
fn outcome_texts() {
    assert_eq!(response_text(Ok(Some("r".to_string()))), "r");
    assert_eq!(response_text(Ok(None)), "");
    assert_eq!(response_text(Err(())), "");
}

#[test]
fn peer_queue_ends_after_responses_and_pushed_messages() {
    let mut q = PeerQueue::new();
    assert!(matches!(q.after_responses(Polled::Ready(1)), AfterResponses::Yield(1)));
    assert!(matches!(q.after_responses(Polled::<i32>::Pending), AfterResponses::PollPushed(false)));
    assert!(matches!(q.after_pushed(false, Polled::Pending), QueueStep::Pending));
    assert!(matches!(q.after_pushed(true, Polled::Ready("m".to_string())), QueueStep::Yield(m) if m == "m"));
    assert!(matches!(q.after_responses(Polled::<i32>::Closed), AfterResponses::PollPushed(true)));
    assert!(matches!(q.after_pushed(true, Polled::Pending), QueueStep::End));
    assert!(matches!(q.after_responses(Polled::<i32>::Pending), AfterResponses::End));
}

#[test]
fn write_buffer_writes_in_chunks() {
    let mut w = WriteBuffer::new();
    let data: Vec<u8> = (0..(MAX_WRITE_LENGTH + 10)).map(|i| (i % 251) as u8).collect();
    w.push(&data);
    let first = w.next_chunk();
    assert_eq!(first.len(), MAX_WRITE_LENGTH);
    let second = w.next_chunk();
    assert_eq!(second.len(), 10);
    assert!(w.is_empty());
    let mut all = first.to_vec();
    all.extend_from_slice(&second);
    assert_eq!(all, data);
}

#[test]
fn dispatch_batches_and_connection_limit() {
    let mut queue: Vec<u32> = (0..300).collect();
    let batch = take_dispatch_batch(&mut queue);
    assert_eq!(batch, (0..128).collect::<Vec<u32>>());
    assert_eq!(queue.len(), 172);
    assert_eq!(queue[0], 128);
    let mut few = vec![1, 2];
    assert_eq!(take_dispatch_batch(&mut few), vec![1, 2]);
    assert!(few.is_empty());
    assert!(accepts_connection(1023));
    assert!(!accepts_connection(1024));
}

#[test]
fn pipe_reads_fill_the_buffer_batch_by_batch() {
    let mut r = PipeReader::new();
    assert_eq!(r.window(), (0, REQUEST_READ_BATCH));
    assert_eq!(r.after_read(100), 100);
    assert_eq!(r.window(), (REQUEST_READ_BATCH, 2 * REQUEST_READ_BATCH));
    assert_eq!(r.after_read(10), REQUEST_READ_BATCH + 10);
    r.processed();
    assert_eq!(r.window(), (0, REQUEST_READ_BATCH));
    for _ in 0..(MAX_REQUEST_LEN / REQUEST_READ_BATCH) {
        assert!(r.has_room());
        r.after_read(REQUEST_READ_BATCH);
    }
    assert!(!r.has_room());
    let mut t = PipeTokens::new();
    assert_eq!((t.port_token(), t.pipe_token()), (1, 2));
    t.advance();
    assert_eq!((t.port_token(), t.pipe_token()), (3, 4));
}

#[test]
fn stdio_lines() {
    assert_eq!(response_line("{\n\"a\":1\n}".to_string()), "{\"a\":1}\n");
    assert_eq!(response_line(String::new()), "\n");
    assert_eq!(process_output(None), "");
    assert_eq!(process_output(Some("x".to_string())), "x");
}

#[test]
fn http_records() {
    let req = Request::empty();
    assert!(req.content.is_empty() && req.origin.is_none());
    let ok = Response::ok("{}".to_string());
    assert_eq!((ok.code, ok.content_type, ok.content.as_str(), ok.write_pos), (StatusCode::Success, ContentType::Json, "{}", 0));
    let empty = Response::empty();
    assert_eq!(empty.content, "");
    let bad = Response::unsupported_content_type();
    assert_eq!(bad.code, StatusCode::UnsupportedMediaType);
    assert_eq!(bad.content, "Supplied content type is not allowed. Content-Type: application/json is required\n");
    let nope = Response::method_not_allowed();
    assert_eq!(nope.code, StatusCode::MethodNotAllowed);
    assert_eq!(nope.content_type, ContentType::Html);
    assert_eq!(nope.content, "Used HTTP Method is not allowed. POST or OPTIONS is required\n");
}

#[test]
fn readiness_events_give_actions_in_order() {
    assert_eq!(ready_actions(true, true, true, true), vec![ReadyAction::Accept]);
    assert_eq!(ready_actions(false, true, true, true), vec![ReadyAction::Read, ReadyAction::Drop, ReadyAction::Write]);
    assert_eq!(ready_actions(false, false, false, true), vec![ReadyAction::Write]);
    assert!(ready_actions(false, false, false, false).is_empty());
}

#[test]
fn forwarding_task_steps() {
    assert!(matches!(forward_step(Polled::Ready("m".to_string())), ForwardStep::Send(m) if m == "m"));
    assert!(matches!(forward_step(Polled::Closed), ForwardStep::Finish));
    assert!(matches!(forward_step(Polled::Pending), ForwardStep::Wait));
}

#[test]
fn encode_within_limit_then_decode_gives_the_message_back() {
    let mut codec = LineCodec;
    let mut buf = BytesMut::new();
    assert!(codec.encode_within_limit("{\"id\":1}".to_owned(), &mut buf));
    assert_eq!(&buf[..], b"{\"id\":1}\n");
    assert_eq!(codec.decode(&mut buf), Ok(Some("{\"id\":1}".to_owned())));
    assert!(buf.is_empty());
}

fn exact(pattern: &String, value: &str) -> bool {
    pattern == "*" || pattern == value
}

#[test]
fn header_is_allowed_matches_the_allowed_patterns() {
    let allowed = Some(vec!["http://a.io".to_owned(), "http://b.io".to_owned()]);
    assert!(header_is_allowed(&allowed, None, exact));
    assert!(header_is_allowed(&None, Some(b"http://c.io"), exact));
    assert!(header_is_allowed(&allowed, Some(b"http://b.io"), exact));
    assert!(!header_is_allowed(&allowed, Some(b"http://c.io"), exact));
    assert!(!header_is_allowed(&allowed, Some(&[0xff, 0xfe]), exact));
    assert!(header_is_allowed(&Some(vec!["*".to_owned()]), Some(b"http://c.io"), exact));
}

#[test]
fn sending_needs_an_active_connection() {
    assert_eq!(check_active(true), Ok(()));
    assert_eq!(check_active(false), Err(ConnectionError::ConnectionClosed));
}

#[test]
fn pushing_to_an_unknown_peer_fails() {
    assert_eq!(push_target::<u8>(None), Err(PushMessageError::NoSuchPeer));
    assert_eq!(push_target(Some(7u8)), Ok(7));
}
