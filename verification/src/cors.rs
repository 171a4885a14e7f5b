//! Cross-origin resource sharing: which `Access-Control-Allow-Origin` value answers a request.
use vstd::prelude::*;
use vstd::utf8::*;

use crate::json::str_eq;
use crate::validator::string_from_utf8;

verus! {

/// The value of an `Access-Control-Allow-Origin` header, or an entry of the list of allowed
/// origins.
#[derive(Debug, Clone, PartialEq, Eq)]
pub enum AccessControlAllowOrigin {
    /// Any origin.
    Any,
    /// The `null` origin.
    Null,
    /// One origin.
    Value(String),
}

/// Entry `e` of the allowed list answers a request from `origin`.
pub open spec fn cors_matches(e: AccessControlAllowOrigin, origin: Seq<char>) -> bool {
    match e {
        AccessControlAllowOrigin::Any => true,
        AccessControlAllowOrigin::Null => true,
        AccessControlAllowOrigin::Value(v) => v@ == origin,
    }
}

/// Entry `i` is the first of `allowed` that answers a request from `origin`.
pub open spec fn first_match(allowed: Seq<AccessControlAllowOrigin>, origin: Seq<char>, i: int) -> bool {
    &&& 0 <= i < allowed.len()
    &&& cors_matches(allowed[i], origin)
    &&& forall|j: int| 0 <= j < i ==> !cors_matches(#[trigger] allowed[j], origin)
}

/// The value of the `Origin` header, from its raw values: present when there is exactly one
/// value and it is valid UTF-8.
pub fn read_origin(raw: Option<&Vec<Vec<u8>>>) -> (r: Option<String>)
    ensures
        r is Some <==> (raw matches Some(v) && v@.len() == 1 && valid_utf8(v@[0]@)),
        r matches Some(s) ==> (raw matches Some(v) && s@ == decode_utf8(v@[0]@)),
{
    match raw {
        Some(v) => if v.len() == 1 {
            string_from_utf8(v[0].as_slice())
        } else {
            None
        },
        None => None,
    }
}

/// The `Access-Control-Allow-Origin` value for a request from `origin`: none when no origin
/// is allowed; the request's origin when the first entry that matches it is `Any` or that
/// origin; `null` when the first match is `Null`, when nothing matches, or when the request
/// has no origin.
pub fn get_cors_header(allowed: &[AccessControlAllowOrigin], origin: &Option<String>) -> (r: Option<
    AccessControlAllowOrigin,
>)
    ensures
        allowed@.len() == 0 ==> r is None,
        allowed@.len() > 0 && origin is None ==> r == Some(AccessControlAllowOrigin::Null),
        allowed@.len() > 0 && (origin matches Some(o) && forall|i: int|
            0 <= i < allowed@.len() ==> !cors_matches(#[trigger] allowed@[i], o@)) ==> r == Some(
            AccessControlAllowOrigin::Null,
        ),
        forall|i: int|
            #![trigger allowed@[i]]
            (origin matches Some(o) && first_match(allowed@, o@, i)) ==> if allowed@[i] is Null {
                r == Some(AccessControlAllowOrigin::Null)
            } else {
                r matches Some(AccessControlAllowOrigin::Value(v)) && v@ == origin->0@
            },
{
    if allowed.len() == 0 {
        return None;
    }
    if let Some(o) = origin {
        let mut i: usize = 0;
        while i < allowed.len()
            invariant
                i <= allowed@.len(),
                origin == Some(*o),
                forall|j: int| 0 <= j < i ==> !cors_matches(#[trigger] allowed@[j], o@),
            decreases allowed@.len() - i,
        {
            match &allowed[i] {
                AccessControlAllowOrigin::Any => {
                    proof {
                        assert(first_match(allowed@, o@, i as int));
                    }
                    return Some(AccessControlAllowOrigin::Value(o.clone()));
                },
                AccessControlAllowOrigin::Null => {
                    return Some(AccessControlAllowOrigin::Null);
                },
                AccessControlAllowOrigin::Value(val) => {
                    if str_eq(val.as_str(), o.as_str()) {
                        return Some(AccessControlAllowOrigin::Value(o.clone()));
                    }
                },
            }
            i = i + 1;
        }
    }
    Some(AccessControlAllowOrigin::Null)
}

} // verus!
