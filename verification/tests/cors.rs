use parity_jsonrpc::cors::{get_cors_header, read_origin, AccessControlAllowOrigin};

#[test]
fn should_return_none_for_empty_list() {
    // given
    let origin = None;

    // when
    let res = get_cors_header(&Vec::new(), &origin);

    // then
    assert_eq!(res, None);
}

#[test]
fn should_return_none_for_empty_origin() {
    // given
    let origin = None;

    // when
    let res = get_cors_header(&vec![AccessControlAllowOrigin::Value("http://ethereum.org".into())], &origin);

    // then
    assert_eq!(res, Some(AccessControlAllowOrigin::Null));
}

#[test]
fn should_return_none_for_not_matching_origin() {
    // given
    let origin = Some("http://ethcore.io".into());

    // when
    let res = get_cors_header(&vec![AccessControlAllowOrigin::Value("http://ethereum.org".into())], &origin);

    // then
    assert_eq!(res, Some(AccessControlAllowOrigin::Null));
}

#[test]
fn should_return_specific_origin_if_we_allow_any() {
    // given
    let origin = Some("http://ethcore.io".into());

    // when
    let res = get_cors_header(&vec![AccessControlAllowOrigin::Any], &origin);

    // then
    assert_eq!(res, Some(AccessControlAllowOrigin::Value("http://ethcore.io".into())));
}

#[test]
fn should_return_specific_origin_if_there_is_a_match() {
    // given
    let origin = Some("http://ethcore.io".into());

    // when
    let res = get_cors_header(
        &vec![
            AccessControlAllowOrigin::Value("http://ethereum.org".into()),
            AccessControlAllowOrigin::Value("http://ethcore.io".into()),
        ],
        &origin,
    );

    // then
    assert_eq!(res, Some(AccessControlAllowOrigin::Value("http://ethcore.io".into())));
}

#[test]
fn null_entry_before_a_match_answers_null() {
    let origin = Some("http://ethcore.io".into());
    let res = get_cors_header(
        &vec![AccessControlAllowOrigin::Null, AccessControlAllowOrigin::Value("http://ethcore.io".into())],
        &origin,
    );
    assert_eq!(res, Some(AccessControlAllowOrigin::Null));
}

#[test]
fn origin_is_read_from_a_single_utf8_value() {
    let one = vec![b"http://parity.io".to_vec()];
    assert_eq!(read_origin(Some(&one)), Some("http://parity.io".to_string()));
    let two = vec![b"a".to_vec(), b"b".to_vec()];
    assert_eq!(read_origin(Some(&two)), None);
    let bad = vec![vec![0xffu8]];
    assert_eq!(read_origin(Some(&bad)), None);
    assert_eq!(read_origin(None), None);
}
