//! JSON-RPC errors.
use vstd::prelude::*;

use crate::json::{into_record, members_fit, record_fits, spec_member, spec_names, spec_record, names_distinct, JsonNumber, JsonValue};

verus! {

/// JSON-RPC error code.
#[derive(Debug, PartialEq, Eq, Clone, Copy, Structural)]
pub enum ErrorCode {
    /// Invalid JSON was received by the server.
    /// An error occurred on the server while parsing the JSON text.
    ParseError,
    /// The JSON sent is not a valid Request object.
    InvalidRequest,
    /// The method does not exist / is not available.
    MethodNotFound,
    /// Invalid method parameter(s).
    InvalidParams,
    /// Internal JSON-RPC error.
    InternalError,
    /// Pub-Sub not supported
    SessionNotSupported,
    /// Reserved for implementation-defined server-errors.
    ServerError(i64),
}

impl ErrorCode {
    /// The integer value of a code.
    pub open spec fn spec_code(self) -> i64 {
        match self {
            ErrorCode::ParseError => -32700i64,
            ErrorCode::InvalidRequest => -32600i64,
            ErrorCode::MethodNotFound => -32601i64,
            ErrorCode::InvalidParams => -32602i64,
            ErrorCode::InternalError => -32603i64,
            ErrorCode::SessionNotSupported => -32001i64,
            ErrorCode::ServerError(code) => code,
        }
    }

    /// The human-readable description of a code.
    pub open spec fn spec_description(self) -> Seq<char> {
        match self {
            ErrorCode::ParseError => "Parse error"@,
            ErrorCode::InvalidRequest => "Invalid request"@,
            ErrorCode::MethodNotFound => "Method not found"@,
            ErrorCode::InvalidParams => "Invalid params"@,
            ErrorCode::InternalError => "Internal error"@,
            ErrorCode::SessionNotSupported => "Subscriptions are not supported"@,
            ErrorCode::ServerError(_) => "Server error"@,
        }
    }

    /// The code that an integer reads as.
    pub open spec fn spec_from_code(code: i64) -> ErrorCode {
        if code == -32700 {
            ErrorCode::ParseError
        } else if code == -32600 {
            ErrorCode::InvalidRequest
        } else if code == -32601 {
            ErrorCode::MethodNotFound
        } else if code == -32602 {
            ErrorCode::InvalidParams
        } else if code == -32603 {
            ErrorCode::InternalError
        } else if code == -32000 {
            ErrorCode::SessionNotSupported
        } else {
            ErrorCode::ServerError(code)
        }
    }

    /// Returns integer code value
    pub fn code(&self) -> (c: i64)
        ensures
            c == self.spec_code(),
    {
        match *self {
            ErrorCode::ParseError => -32700,
            ErrorCode::InvalidRequest => -32600,
            ErrorCode::MethodNotFound => -32601,
            ErrorCode::InvalidParams => -32602,
            ErrorCode::InternalError => -32603,
            ErrorCode::SessionNotSupported => -32001,
            ErrorCode::ServerError(code) => code,
        }
    }

    /// Returns human-readable description
    pub fn description(&self) -> (d: String)
        ensures
            d@ == self.spec_description(),
    {
        let desc = match *self {
            ErrorCode::ParseError => "Parse error",
            ErrorCode::InvalidRequest => "Invalid request",
            ErrorCode::MethodNotFound => "Method not found",
            ErrorCode::InvalidParams => "Invalid params",
            ErrorCode::InternalError => "Internal error",
            ErrorCode::SessionNotSupported => "Subscriptions are not supported",
            ErrorCode::ServerError(_) => "Server error",
        };
        desc.to_owned()
    }

    /// Reads an integer as a code (the reading of a serialized code).
    pub fn from_code(code: i64) -> (e: ErrorCode)
        ensures
            e == Self::spec_from_code(code),
    {
        if code == -32700 {
            ErrorCode::ParseError
        } else if code == -32600 {
            ErrorCode::InvalidRequest
        } else if code == -32601 {
            ErrorCode::MethodNotFound
        } else if code == -32602 {
            ErrorCode::InvalidParams
        } else if code == -32603 {
            ErrorCode::InternalError
        } else if code == -32000 {
            ErrorCode::SessionNotSupported
        } else {
            ErrorCode::ServerError(code)
        }
    }

    /// JSON form of a code: its integer value.
    pub fn to_json(&self) -> (r: JsonValue)
        ensures
            r == spec_i64_json(self.spec_code()),
    {
        i64_to_json(self.code())
    }
}

/// The JSON number for an `i64`.
pub open spec fn spec_i64_json(n: i64) -> JsonValue {
    if n >= 0 {
        JsonValue::Number(JsonNumber::PosInt(n as u64))
    } else {
        JsonValue::Number(JsonNumber::NegInt(n))
    }
}

/// Reads an `i64`.
pub open spec fn spec_i64(v: JsonValue) -> Option<i64> {
    match v {
        JsonValue::Number(JsonNumber::PosInt(n)) => if n <= i64::MAX {
            Some(n as i64)
        } else {
            None
        },
        JsonValue::Number(JsonNumber::NegInt(n)) => Some(n),
        _ => None,
    }
}

fn i64_to_json(n: i64) -> (r: JsonValue)
    ensures
        r == spec_i64_json(n),
{
    if n >= 0 {
        JsonValue::Number(JsonNumber::PosInt(n as u64))
    } else {
        JsonValue::Number(JsonNumber::NegInt(n))
    }
}

/// `j` is the JSON form of `e`: an object with members `code`, `message` and `data`
/// (`null` when there is no data), in this order.
pub open spec fn is_error_json(j: JsonValue, e: Error) -> bool {
    j matches JsonValue::Object(m) && {
        &&& m@.len() == 3
        &&& m@[0].0@ == "code"@ && m@[0].1 == spec_i64_json(e.code.spec_code())
        &&& m@[1].0@ == "message"@ && m@[1].1 == JsonValue::String(e.message)
        &&& m@[2].0@ == "data"@ && m@[2].1 == match e.data {
            Some(d) => d,
            None => JsonValue::Null,
        }
    }
}

/// Error object as defined in Spec
#[derive(Debug, PartialEq)]
pub struct Error {
    /// Code
    pub code: ErrorCode,
    /// Message
    pub message: String,
    /// Optional data
    pub data: Option<JsonValue>,
}

/// Field names of an error object.
pub open spec fn error_fields() -> Seq<Seq<char>> {
    seq!["code"@, "message"@, "data"@]
}

/// Reading an error object stops with a panic: its code is there but is not an `i64`.
pub open spec fn spec_error_panics(v: JsonValue) -> bool {
    match v {
        JsonValue::Object(m) => match spec_member(m@, "code"@) {
            Some(c) => spec_i64(c) is None,
            None => false,
        },
        JsonValue::Array(a) => a@.len() >= 1 && spec_i64(a@[0]) is None,
        _ => false,
    }
}

/// The error that `v` reads as.
pub open spec fn spec_error(v: JsonValue) -> Option<Error> {
    match spec_record(v, error_fields(), false) {
        Some(fs) => match (fs[0], fs[1]) {
            (Some(c), Some(JsonValue::String(msg))) => match spec_i64(c) {
                Some(n) => Some(
                    Error {
                        code: ErrorCode::spec_from_code(n),
                        message: msg,
                        data: match fs[2] {
                            Some(JsonValue::Null) => None,
                            d => d,
                        },
                    },
                ),
                None => None,
            },
            _ => None,
        },
        None => None,
    }
}

impl Error {
    /// Wraps given `ErrorCode`
    pub fn new(code: ErrorCode) -> (e: Self)
        ensures
            e.code == code,
            e.message@ == code.spec_description(),
            e.data is None,
    {
        Error { message: code.description(), code: code, data: None }
    }

    /// Creates new `ParseError`
    pub fn parse_error() -> (e: Self)
        ensures
            e.code == ErrorCode::ParseError,
            e.message@ == "Parse error"@,
            e.data is None,
    {
        Self::new(ErrorCode::ParseError)
    }

    /// Creates new `InvalidRequest`
    pub fn invalid_request() -> (e: Self)
        ensures
            e.code == ErrorCode::InvalidRequest,
            e.message@ == "Invalid request"@,
            e.data is None,
    {
        Self::new(ErrorCode::InvalidRequest)
    }

    /// Creates new `MethodNotFound`
    pub fn method_not_found() -> (e: Self)
        ensures
            e.code == ErrorCode::MethodNotFound,
            e.message@ == "Method not found"@,
            e.data is None,
    {
        Self::new(ErrorCode::MethodNotFound)
    }

    /// Creates new `InvalidParams`
    pub fn invalid_params() -> (e: Self)
        ensures
            e.code == ErrorCode::InvalidParams,
            e.message@ == "Invalid params"@,
            e.data is None,
    {
        Self::new(ErrorCode::InvalidParams)
    }

    /// Creates new `InternalError`
    pub fn internal_error() -> (e: Self)
        ensures
            e.code == ErrorCode::InternalError,
            e.message@ == "Internal error"@,
            e.data is None,
    {
        Self::new(ErrorCode::InternalError)
    }

    /// JSON form: an object with members `code`, `message` and `data` (`null` when absent).
    pub fn to_json(self) -> (r: JsonValue)
        ensures
            is_error_json(r, self),
    {
        let mut m: Vec<(String, JsonValue)> = Vec::new();
        m.push(("code".to_owned(), self.code.to_json()));
        m.push(("message".to_owned(), JsonValue::String(self.message)));
        let data = match self.data {
            Some(d) => d,
            None => JsonValue::Null,
        };
        m.push(("data".to_owned(), data));
        proof {
            reveal_strlit("code");
            reveal_strlit("message");
            reveal_strlit("data");
        }
        JsonValue::Object(m)
    }

    /// Reads an error object (members or positional elements `code`, `message`, `data`;
    /// other members are ignored). `None` when `v` does not read as one.
    pub fn from_json(v: JsonValue) -> (r: Option<Error>)
        requires
            !spec_error_panics(v),
        ensures
            r == spec_error(v),
    {
        let names: [&str; 3] = ["code", "message", "data"];
        proof {
            reveal_strlit("code");
            reveal_strlit("message");
            reveal_strlit("data");
            assert(spec_names(names@) =~= error_fields());
            assert(names@[0]@[0] != names@[1]@[0]);
            assert(names@[0]@[0] != names@[2]@[0]);
            assert(names@[1]@[0] != names@[2]@[0]);
            assert(names_distinct(names@));
        }
        if !record_fits(&v, names.as_slice(), false) {
            return None;
        }
        let mut fs = into_record(v, names.as_slice(), false);
        let data = fs.pop().unwrap();
        let message = fs.pop().unwrap();
        let code = fs.pop().unwrap();
        let n = match code {
            Some(JsonValue::Number(JsonNumber::PosInt(n))) => {
                if n <= i64::MAX as u64 {
                    n as i64
                } else {
                    return None;
                }
            },
            Some(JsonValue::Number(JsonNumber::NegInt(n))) => n,
            _ => return None,
        };
        let message = match message {
            Some(JsonValue::String(s)) => s,
            _ => return None,
        };
        let data = match data {
            Some(JsonValue::Null) => None,
            d => d,
        };
        Some(Error { code: ErrorCode::from_code(n), message, data })
    }
}

/// Reading a code back gives the number it came from, for every number but -32000, which
/// reads as `SessionNotSupported`, whose own code is -32001.
pub proof fn law_code_of_read_code(n: i64)
    requires
        n != -32000,
    ensures
        ErrorCode::spec_from_code(n).spec_code() == n,
{
}

/// A code survives writing and reading back, except `SessionNotSupported` and server errors
/// that carry one of the reserved numbers.
pub proof fn law_read_code_of_code(e: ErrorCode)
    requires
        e != ErrorCode::SessionNotSupported,
        e matches ErrorCode::ServerError(c) ==> c != -32700 && c != -32600 && c != -32601 && c
            != -32602 && c != -32603 && c != -32000,
    ensures
        ErrorCode::spec_from_code(e.spec_code()) == e,
{
}


/// The JSON form of an error reads back as that error, unless its code does not survive the
/// round trip (see [`law_read_code_of_code`]) or its data is `null`, which reads as no data.
pub proof fn law_error_json_reads_back(j: JsonValue, e: Error)
    requires
        is_error_json(j, e),
        ErrorCode::spec_from_code(e.code.spec_code()) == e.code,
        e.data != Some(JsonValue::Null),
    ensures
        !spec_error_panics(j),
        spec_error(j) == Some(e),
{
    reveal_strlit("code");
    reveal_strlit("message");
    reveal_strlit("data");
    let m = j->Object_0@;
    assert("code"@.len() == 4 && "message"@.len() == 7 && "data"@.len() == 4);
    assert("code"@[0] == 'c' && "data"@[0] == 'd');
    assert(m[0].0@ != m[1].0@);
    assert(m[0].0@ != m[2].0@);
    assert(m[1].0@ != m[2].0@);
    assert(members_fit(m, error_fields(), false));
    let m1 = m.drop_last();
    let m0 = m1.drop_last();
    assert(m.last() == m[2]);
    assert(m1.last() == m[1]);
    assert(m0.last() == m[0]);
    assert(m0.drop_last() =~= Seq::<(String, JsonValue)>::empty());
    assert(spec_member(m0, "code"@) == Some(m[0].1));
    assert(spec_member(m1, "code"@) == Some(m[0].1));
    assert(spec_member(m, "code"@) == Some(m[0].1));
    assert(spec_member(m1, "message"@) == Some(m[1].1));
    assert(spec_member(m, "message"@) == Some(m[1].1));
    assert(spec_member(m, "data"@) == Some(m[2].1));
    let fs = spec_record(j, error_fields(), false).unwrap();
    assert(fs[0] == Some(m[0].1));
    assert(fs[1] == Some(m[1].1));
    assert(fs[2] == Some(m[2].1));
    assert(spec_i64(spec_i64_json(e.code.spec_code())) == Some(e.code.spec_code()));
}

} // verus!
