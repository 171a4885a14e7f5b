//! Protocol version, request ids and method parameters.
use vstd::prelude::*;

use crate::json::{str_eq, JsonNumber, JsonValue};

verus! {

/// Protocol version.
#[derive(Debug, PartialEq, Eq, Clone, Copy, Structural)]
pub enum Version {
    /// JSON-RPC 2.0
    V2,
}

/// Request id: a number, a string or `null`.
#[derive(Debug, PartialEq, Eq, Clone)]
pub enum Id {
    /// No id (notification)
    Null,
    /// Numeric id
    Num(u64),
    /// String id
    Str(String),
}

/// Method parameters: positional, named, or none.
#[derive(Debug, PartialEq)]
pub enum Params {
    /// Array of values
    Array(Vec<JsonValue>),
    /// Named values (an object)
    Object(Vec<(String, JsonValue)>),
    /// No parameters
    Empty,
}

/// Reads a protocol version: exactly the string `"2.0"`.
pub open spec fn spec_version(v: JsonValue) -> Option<Version> {
    match v {
        JsonValue::String(s) => if s@ == "2.0"@ {
            Some(Version::V2)
        } else {
            None
        },
        _ => None,
    }
}

/// Reads an id: `null`, a non-negative integer, or a string.
pub open spec fn spec_id(v: JsonValue) -> Option<Id> {
    match v {
        JsonValue::Null => Some(Id::Null),
        JsonValue::Number(JsonNumber::PosInt(n)) => Some(Id::Num(n)),
        JsonValue::String(s) => Some(Id::Str(s)),
        _ => None,
    }
}

/// Reads parameters: an array, an object, or `null`.
pub open spec fn spec_params(v: JsonValue) -> Option<Params> {
    match v {
        JsonValue::Array(a) => Some(Params::Array(a)),
        JsonValue::Object(m) => Some(Params::Object(m)),
        JsonValue::Null => Some(Params::Empty),
        _ => None,
    }
}

/// Reads an optional parameters field: a missing field or `null` gives `None`.
pub open spec fn spec_opt_params(v: Option<JsonValue>) -> Option<Option<Params>> {
    match v {
        None => Some(None),
        Some(JsonValue::Null) => Some(None),
        Some(x) => match spec_params(x) {
            Some(p) => Some(Some(p)),
            None => None,
        },
    }
}

/// The JSON form of an optional parameters field: `null` when absent or empty.
pub open spec fn spec_opt_params_json(p: Option<Params>) -> JsonValue {
    match p {
        Some(Params::Array(a)) => JsonValue::Array(a),
        Some(Params::Object(m)) => JsonValue::Object(m),
        _ => JsonValue::Null,
    }
}

/// Reads a string.
pub open spec fn spec_string(v: JsonValue) -> Option<String> {
    match v {
        JsonValue::String(s) => Some(s),
        _ => None,
    }
}

impl Version {
    /// Whether `v` reads as a version.
    pub fn readable(v: &JsonValue) -> (r: bool)
        ensures
            r == spec_version(*v) is Some,
    {
        match v {
            JsonValue::String(s) => {
                proof {
                    reveal_strlit("2.0");
                }
                str_eq(s.as_str(), "2.0")
            },
            _ => false,
        }
    }

    /// JSON form: the string `"2.0"`.
    pub fn to_json(&self) -> (r: JsonValue)
        ensures
            r matches JsonValue::String(s) && s@ == "2.0"@,
            spec_version(r) == Some(*self),
    {
        proof {
            reveal_strlit("2.0");
        }
        JsonValue::String("2.0".to_owned())
    }
}

impl Id {
    /// Whether `v` reads as an id.
    pub fn readable(v: &JsonValue) -> (r: bool)
        ensures
            r == spec_id(*v) is Some,
    {
        match v {
            JsonValue::Null => true,
            JsonValue::Number(JsonNumber::PosInt(_)) => true,
            JsonValue::String(_) => true,
            _ => false,
        }
    }

    /// Reads an id out of `v`.
    pub fn from_json(v: JsonValue) -> (r: Id)
        requires
            spec_id(v) is Some,
        ensures
            spec_id(v) == Some(r),
    {
        match v {
            JsonValue::Number(JsonNumber::PosInt(n)) => Id::Num(n),
            JsonValue::String(s) => Id::Str(s),
            _ => Id::Null,
        }
    }

    /// JSON form of an id.
    pub fn to_json(self) -> (r: JsonValue)
        ensures
            spec_id(r) == Some(self),
            r == match self {
                Id::Null => JsonValue::Null,
                Id::Num(n) => JsonValue::Number(JsonNumber::PosInt(n)),
                Id::Str(s) => JsonValue::String(s),
            },
    {
        match self {
            Id::Null => JsonValue::Null,
            Id::Num(n) => JsonValue::Number(JsonNumber::PosInt(n)),
            Id::Str(s) => JsonValue::String(s),
        }
    }
}

impl Params {
    /// Whether `v` reads as an optional parameters field.
    pub fn readable_opt(v: &Option<JsonValue>) -> (r: bool)
        ensures
            r == spec_opt_params(*v) is Some,
    {
        match v {
            None => true,
            Some(JsonValue::Null) => true,
            Some(JsonValue::Array(_)) => true,
            Some(JsonValue::Object(_)) => true,
            Some(_) => false,
        }
    }

    /// Reads an optional parameters field out of `v`.
    pub fn from_json_opt(v: Option<JsonValue>) -> (r: Option<Params>)
        requires
            spec_opt_params(v) is Some,
        ensures
            spec_opt_params(v) == Some(r),
    {
        match v {
            Some(JsonValue::Array(a)) => Some(Params::Array(a)),
            Some(JsonValue::Object(m)) => Some(Params::Object(m)),
            _ => None,
        }
    }

    /// JSON form of parameters.
    pub fn to_json(self) -> (r: JsonValue)
        ensures
            spec_params(r) == Some(self),
            r == match self {
                Params::Array(a) => JsonValue::Array(a),
                Params::Object(m) => JsonValue::Object(m),
                Params::Empty => JsonValue::Null,
            },
    {
        match self {
            Params::Array(a) => JsonValue::Array(a),
            Params::Object(m) => JsonValue::Object(m),
            Params::Empty => JsonValue::Null,
        }
    }

    /// JSON form of an optional parameters field: `None` is `null`.
    pub fn opt_to_json(p: Option<Params>) -> (r: JsonValue)
        ensures
            r == spec_opt_params_json(p),
    {
        match p {
            Some(p) => p.to_json(),
            None => JsonValue::Null,
        }
    }
}

} // verus!
