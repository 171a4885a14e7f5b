use parity_jsonrpc::validator::extract_requests;
use parity_jsonrpc::tcp_server::split_requests;

#[test]
fn can_extract_request() {
    let buf = b"{ \"val\" : 1 } ffuuu";
    let res = extract_requests(buf);
    assert_eq!(res.0[0], "{ \"val\" : 1 }");
}

#[test]
fn can_extract_requests() {
    let buf = b"{ \"val\" : 1 }{ \"val2\" : 2 }";
    let res = extract_requests(buf);
    assert_eq!(res.0[0], "{ \"val\" : 1 }");
    assert_eq!(res.0[1], "{ \"val2\" : 2 }");
}

#[test]
fn can_extract_requests_with_slash() {
    let buf = b"{ \"va\\l\" : 1 }{ \"va\\l2\" : 2 }";
    let res = extract_requests(buf);
    assert_eq!(res.0[0], "{ \"va\\l\" : 1 }");
    assert_eq!(res.0[1], "{ \"va\\l2\" : 2 }");
}

#[test]
fn can_extract_requests_with_brackets() {
    let buf = b"[{ \"val_s1\" : 10 }{ \"val_s2\" : 20 }]";
    let res = extract_requests(buf);
    assert_eq!(res.0[0], "[{ \"val_s1\" : 10 }{ \"val_s2\" : 20 }]");
}

#[test]
fn can_extract_requests_with_braces() {
    let buf = b"{ \"va{l\" : 1 }{ \"va}l2\" : 2 }";
    let res = extract_requests(buf);
    assert_eq!(res.0[0], "{ \"va{l\" : 1 }");
    assert_eq!(res.0[1], "{ \"va}l2\" : 2 }");
}

#[test]
fn can_extract_vitro1() {
    let buf = b"[{\"jsonrpc\":\"2.0\",\"id\":\"3a3472c0-c7be-4070-a05c-8042c0a94892\",\"method\":\"eth_accounts\",\"params\":[]}][{\"jsonrpc\":\"2.0\",\"id\":\"a7329aff-888e-4aa7-a925-651c9545f356\",\"method\":\"net_peerCount\",\"params\":[]}]";
    let res = extract_requests(buf);
    assert_eq!(res.0[0], "[{\"jsonrpc\":\"2.0\",\"id\":\"3a3472c0-c7be-4070-a05c-8042c0a94892\",\"method\":\"eth_accounts\",\"params\":[]}]");
    assert_eq!(res.0[1], "[{\"jsonrpc\":\"2.0\",\"id\":\"a7329aff-888e-4aa7-a925-651c9545f356\",\"method\":\"net_peerCount\",\"params\":[]}]");
}

#[test]
fn extract_gives_last_boundary() {
    let buf = b"{\"a\":1} {\"b\":";
    let res = extract_requests(buf);
    assert_eq!(res.0.len(), 1);
    assert_eq!(res.0[0], "{\"a\":1}");
    assert_eq!(res.1, 7);
}

#[test]
fn extract_nothing_from_invalid_utf8() {
    let buf: &[u8] = &[0x7b, 0xff, 0x7d];
    let res = extract_requests(buf);
    assert_eq!(res.0.len(), 0);
    assert_eq!(res.1, 0);
}

#[test]
fn extract_keeps_text_before_a_request() {
    let buf = b"xy{}";
    let res = extract_requests(buf);
    assert_eq!(res.0, vec!["xy{}".to_string()]);
}

#[test]
fn split_requests_keeps_the_incomplete_rest() {
    let buf = b"{\"a\":1}{\"b\":2";
    let (requests, rest) = split_requests(buf);
    assert_eq!(requests, vec!["{\"a\":1}".to_string()]);
    assert_eq!(rest, b"{\"b\":2".to_vec());
}

#[test]
fn split_requests_without_request_keeps_everything() {
    let buf = b"{\"b\":2";
    let (requests, rest) = split_requests(buf);
    assert!(requests.is_empty());
    assert_eq!(rest, buf.to_vec());
}

#[test]
fn requests_tile_the_text() {
    let text = "ab{}cd[1]e";
    let res = extract_requests(text.as_bytes());
    assert_eq!(res.0, vec!["ab{}".to_string(), "cd[1]".to_string()]);
    let joined: String = res.0.concat();
    assert!(text.starts_with(&joined));
}

#[test]
fn whole_requests_one_after_another_are_each_found_once() {
    let text = "{\"a\":[1,2]}[3]{}";
    let (requests, last) = extract_requests(text.as_bytes());
    assert_eq!(requests, vec!["{\"a\":[1,2]}".to_owned(), "[3]".to_owned(), "{}".to_owned()]);
    assert_eq!(last, text.len() - 1);
}

#[test]
fn every_request_ends_with_a_closing_bracket() {
    let (requests, _) = extract_requests(b" {\"x\":\"}\"} \n[1]\n{\"open\":");
    assert_eq!(requests.len(), 2);
    for r in &requests {
        assert!(r.ends_with('}') || r.ends_with(']'));
    }
}
