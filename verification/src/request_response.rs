//! The request and response records of the HTTP transport.
use vstd::prelude::*;

verus! {

/// The status of an HTTP response.
#[derive(Debug, PartialEq, Eq, Clone, Copy, Structural)]
pub enum StatusCode {
    /// 200 OK
    Success,
    /// 415 Unsupported Media Type
    UnsupportedMediaType,
    /// 405 Method Not Allowed
    MethodNotAllowed,
}

/// The content type of an HTTP response.
#[derive(Debug, PartialEq, Eq, Clone, Copy, Structural)]
pub enum ContentType {
    /// `application/json`
    Json,
    /// `text/html`
    Html,
}

/// A request: its body and the value of its `Origin` header.
pub struct Request {
    /// The body.
    pub content: String,
    /// The `Origin` header.
    pub origin: Option<String>,
}

impl Request {
    /// A request with no body and no origin.
    pub fn empty() -> (r: Self)
        ensures
            r.content@ == Seq::<char>::empty(),
            r.origin is None,
    {
        Request { content: String::new(), origin: None }
    }
}

/// A response and how much of its content was written.
pub struct Response {
    /// The status.
    pub code: StatusCode,
    /// The content type.
    pub content_type: ContentType,
    /// The body.
    pub content: String,
    /// Number of bytes of the body written so far.
    pub write_pos: usize,
}

impl Response {
    /// An OK response with an empty body.
    pub fn empty() -> (r: Self)
        ensures
            r.code == StatusCode::Success,
            r.content_type == ContentType::Json,
            r.content@ == Seq::<char>::empty(),
            r.write_pos == 0,
    {
        Self::ok(String::new())
    }

    /// An OK response with a JSON body.
    pub fn ok(response: String) -> (r: Self)
        ensures
            r.code == StatusCode::Success,
            r.content_type == ContentType::Json,
            r.content@ == response@,
            r.write_pos == 0,
    {
        Response { code: StatusCode::Success, content_type: ContentType::Json, content: response, write_pos: 0 }
    }

    /// The answer to a request whose content type is not JSON.
    pub fn unsupported_content_type() -> (r: Self)
        ensures
            r.code == StatusCode::UnsupportedMediaType,
            r.content_type == ContentType::Html,
            r.content@
                == "Supplied content type is not allowed. Content-Type: application/json is required\n"@,
            r.write_pos == 0,
    {
        Response {
            code: StatusCode::UnsupportedMediaType,
            content_type: ContentType::Html,
            content: "Supplied content type is not allowed. Content-Type: application/json is required\n".to_owned(),
            write_pos: 0,
        }
    }

    /// The answer to a request whose method is neither POST nor OPTIONS.
    pub fn method_not_allowed() -> (r: Self)
        ensures
            r.code == StatusCode::MethodNotAllowed,
            r.content_type == ContentType::Html,
            r.content@ == "Used HTTP Method is not allowed. POST or OPTIONS is required\n"@,
            r.write_pos == 0,
    {
        Response {
            code: StatusCode::MethodNotAllowed,
            content_type: ContentType::Html,
            content: "Used HTTP Method is not allowed. POST or OPTIONS is required\n".to_owned(),
            write_pos: 0,
        }
    }
}

} // verus!
