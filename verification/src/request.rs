//! JSON-RPC requests.
use vstd::prelude::*;

use crate::json::{into_record, members_fit, record_field, record_fits, spec_member, spec_names, spec_record, names_distinct, JsonValue};
use crate::types::{spec_id, spec_opt_params, spec_opt_params_json, spec_version, Id, Params, Version};

verus! {

/// Represents jsonrpc request which is a method call.
#[derive(Debug, PartialEq)]
pub struct MethodCall {
    /// A String specifying the version of the JSON-RPC protocol.
    /// MUST be exactly "2.0".
    pub jsonrpc: Version,
    /// A String containing the name of the method to be invoked.
    pub method: String,
    /// A Structured value that holds the parameter values to be used
    /// during the invocation of the method. This member MAY be omitted.
    pub params: Option<Params>,
    /// An identifier established by the Client that MUST contain a String,
    /// Number, or NULL value if included. If it is not included it is assumed
    /// to be a notification.
    pub id: Id,
}

/// Represents jsonrpc request which is a notification.
#[derive(Debug, PartialEq)]
pub struct Notification {
    /// A String specifying the version of the JSON-RPC protocol.
    /// MUST be exactly "2.0".
    pub jsonrpc: Version,
    /// A String containing the name of the method to be invoked.
    pub method: String,
    /// A Structured value that holds the parameter values to be used
    /// during the invocation of the method. This member MAY be omitted.
    pub params: Option<Params>,
}

/// Represents single jsonrpc call.
#[derive(Debug, PartialEq)]
pub enum Call {
    /// Call method
    MethodCall(MethodCall),
    /// Fire notification
    Notification(Notification),
    /// Invalid call
    Invalid,
}

/// Represents jsonrpc request.
#[derive(Debug, PartialEq)]
pub enum Request {
    /// Single request (call)
    Single(Call),
    /// Batch of requests (calls)
    Batch(Vec<Call>),
}

/// Field names of a notification; unknown members are refused.
pub open spec fn notification_fields() -> Seq<Seq<char>> {
    seq!["jsonrpc"@, "method"@, "params"@]
}

/// Field names of a method call; unknown members are refused.
pub open spec fn method_call_fields() -> Seq<Seq<char>> {
    seq!["jsonrpc"@, "method"@, "params"@, "id"@]
}

/// The notification that `v` reads as.
pub open spec fn spec_notification(v: JsonValue) -> Option<Notification> {
    match spec_record(v, notification_fields(), true) {
        Some(fs) => match (fs[0], fs[1]) {
            (Some(ver), Some(JsonValue::String(m))) => match (
                spec_version(ver),
                spec_opt_params(fs[2]),
            ) {
                (Some(jsonrpc), Some(params)) => Some(Notification { jsonrpc, method: m, params }),
                _ => None,
            },
            _ => None,
        },
        None => None,
    }
}

/// `j` is the JSON form of the notification `n`: members `jsonrpc`, `method` and `params`
/// (`null` when there are none), in this order.
pub open spec fn is_notification_json(j: JsonValue, n: Notification) -> bool {
    j matches JsonValue::Object(m) && {
        &&& m@.len() == 3
        &&& m@[0].0@ == "jsonrpc"@ && spec_version(m@[0].1) == Some(n.jsonrpc)
        &&& m@[1].0@ == "method"@ && m@[1].1 == JsonValue::String(n.method)
        &&& m@[2].0@ == "params"@ && m@[2].1 == spec_opt_params_json(n.params)
    }
}

/// `j` is the JSON form of the method call `c`: members `jsonrpc`, `method`, `params`
/// (`null` when there are none) and `id`, in this order.
pub open spec fn is_method_call_json(j: JsonValue, c: MethodCall) -> bool {
    j matches JsonValue::Object(m) && {
        &&& m@.len() == 4
        &&& m@[0].0@ == "jsonrpc"@ && spec_version(m@[0].1) == Some(c.jsonrpc)
        &&& m@[1].0@ == "method"@ && m@[1].1 == JsonValue::String(c.method)
        &&& m@[2].0@ == "params"@ && m@[2].1 == spec_opt_params_json(c.params)
        &&& m@[3].0@ == "id"@ && spec_id(m@[3].1) == Some(c.id)
    }
}

/// `j` is the JSON form of the call `c` (an invalid call has none).
pub open spec fn is_call_json(j: JsonValue, c: Call) -> bool {
    match c {
        Call::MethodCall(m) => is_method_call_json(j, m),
        Call::Notification(n) => is_notification_json(j, n),
        Call::Invalid => false,
    }
}

/// The method call that `v` reads as.
pub open spec fn spec_method_call(v: JsonValue) -> Option<MethodCall> {
    match spec_record(v, method_call_fields(), true) {
        Some(fs) => match (fs[0], fs[1], fs[3]) {
            (Some(ver), Some(JsonValue::String(m)), Some(i)) => match (
                spec_version(ver),
                spec_opt_params(fs[2]),
                spec_id(i),
            ) {
                (Some(jsonrpc), Some(params), Some(id)) => Some(
                    MethodCall { jsonrpc, method: m, params, id },
                ),
                _ => None,
            },
            _ => None,
        },
        None => None,
    }
}

/// The call that `v` reads as: a notification if it reads as one, else a method call if it
/// reads as one, else invalid.
pub open spec fn spec_call(v: JsonValue) -> Call {
    match spec_notification(v) {
        Some(n) => Call::Notification(n),
        None => match spec_method_call(v) {
            Some(m) => Call::MethodCall(m),
            None => Call::Invalid,
        },
    }
}

proof fn lemma_notification_names(names: [&str; 3])
    requires
        names@ == seq!["jsonrpc", "method", "params"],
    ensures
        spec_names(names@) =~= notification_fields(),
        names_distinct(names@),
{
    reveal_strlit("jsonrpc");
    reveal_strlit("method");
    reveal_strlit("params");
    assert(names@[0]@[0] != names@[1]@[0]);
    assert(names@[0]@[0] != names@[2]@[0]);
    assert(names@[1]@[0] != names@[2]@[0]);
}

proof fn lemma_method_call_names(names: [&str; 4])
    requires
        names@ == seq!["jsonrpc", "method", "params", "id"],
    ensures
        spec_names(names@) =~= method_call_fields(),
        names_distinct(names@),
{
    reveal_strlit("jsonrpc");
    reveal_strlit("method");
    reveal_strlit("params");
    reveal_strlit("id");
    assert(names@[0]@[0] != names@[1]@[0]);
    assert(names@[0]@[0] != names@[2]@[0]);
    assert(names@[0]@[0] != names@[3]@[0]);
    assert(names@[1]@[0] != names@[2]@[0]);
    assert(names@[1]@[0] != names@[3]@[0]);
    assert(names@[2]@[0] != names@[3]@[0]);
}

fn is_string(v: Option<&JsonValue>) -> (r: bool)
    ensures
        r == (v matches Some(x) && *x matches JsonValue::String(_)),
{
    match v {
        Some(JsonValue::String(_)) => true,
        _ => false,
    }
}

fn version_readable(v: Option<&JsonValue>) -> (r: bool)
    ensures
        r == (v matches Some(x) && spec_version(*x) is Some),
{
    match v {
        Some(x) => Version::readable(x),
        None => false,
    }
}

fn id_readable(v: Option<&JsonValue>) -> (r: bool)
    ensures
        r == (v matches Some(x) && spec_id(*x) is Some),
{
    match v {
        Some(x) => Id::readable(x),
        None => false,
    }
}

fn params_readable(v: Option<&JsonValue>) -> (r: bool)
    ensures
        r == spec_opt_params(
            match v {
                Some(x) => Some(*x),
                None => None,
            },
        ) is Some,
{
    match v {
        Some(x) => match x {
            JsonValue::Null => true,
            JsonValue::Array(_) => true,
            JsonValue::Object(_) => true,
            _ => false,
        },
        None => true,
    }
}

impl Notification {
    /// Reads a notification: members (or positional elements) `jsonrpc` (`"2.0"`), `method`
    /// (a string) and optional `params`, and no other member.
    pub fn from_json(v: JsonValue) -> (r: Option<Notification>)
        ensures
            r == spec_notification(v),
    {
        let names: [&str; 3] = ["jsonrpc", "method", "params"];
        proof {
            lemma_notification_names(names);
        }
        if !record_fits(&v, names.as_slice(), true) {
            return None;
        }
        let ok = version_readable(record_field(&v, names.as_slice(), true, 0))
            && is_string(record_field(&v, names.as_slice(), true, 1))
            && params_readable(record_field(&v, names.as_slice(), true, 2));
        if !ok {
            return None;
        }
        let mut fs = into_record(v, names.as_slice(), true);
        let params = Params::from_json_opt(fs.pop().unwrap());
        let method = match fs.pop().unwrap() {
            Some(JsonValue::String(s)) => s,
            _ => {
                proof {
                    assert(false);
                }
                return None;
            },
        };
        Some(Notification { jsonrpc: Version::V2, method, params })
    }

    /// JSON form: members `jsonrpc`, `method` and `params` (`null` when absent).
    pub fn to_json(self) -> (r: JsonValue)
        ensures
            is_notification_json(r, self),
    {
        let mut m: Vec<(String, JsonValue)> = Vec::new();
        m.push(("jsonrpc".to_owned(), self.jsonrpc.to_json()));
        m.push(("method".to_owned(), JsonValue::String(self.method)));
        m.push(("params".to_owned(), Params::opt_to_json(self.params)));
        proof {
            reveal_strlit("jsonrpc");
            reveal_strlit("method");
            reveal_strlit("params");
        }
        JsonValue::Object(m)
    }
}

impl MethodCall {
    /// Reads a method call: members (or positional elements) `jsonrpc` (`"2.0"`), `method`
    /// (a string), optional `params` and `id` (`null`, a non-negative integer or a string),
    /// and no other member.
    pub fn from_json(v: JsonValue) -> (r: Option<MethodCall>)
        ensures
            r == spec_method_call(v),
    {
        let names: [&str; 4] = ["jsonrpc", "method", "params", "id"];
        proof {
            lemma_method_call_names(names);
        }
        if !record_fits(&v, names.as_slice(), true) {
            return None;
        }
        let ok = version_readable(record_field(&v, names.as_slice(), true, 0))
            && is_string(record_field(&v, names.as_slice(), true, 1))
            && params_readable(record_field(&v, names.as_slice(), true, 2))
            && id_readable(record_field(&v, names.as_slice(), true, 3));
        if !ok {
            return None;
        }
        let mut fs = into_record(v, names.as_slice(), true);
        let id = match fs.pop().unwrap() {
            Some(i) => Id::from_json(i),
            None => {
                proof {
                    assert(false);
                }
                return None;
            },
        };
        let params = Params::from_json_opt(fs.pop().unwrap());
        let method = match fs.pop().unwrap() {
            Some(JsonValue::String(s)) => s,
            _ => {
                proof {
                    assert(false);
                }
                return None;
            },
        };
        Some(MethodCall { jsonrpc: Version::V2, method, params, id })
    }

    /// JSON form: members `jsonrpc`, `method`, `params` (`null` when absent) and `id`.
    pub fn to_json(self) -> (r: JsonValue)
        ensures
            is_method_call_json(r, self),
    {
        let mut m: Vec<(String, JsonValue)> = Vec::new();
        m.push(("jsonrpc".to_owned(), self.jsonrpc.to_json()));
        m.push(("method".to_owned(), JsonValue::String(self.method)));
        m.push(("params".to_owned(), Params::opt_to_json(self.params)));
        m.push(("id".to_owned(), self.id.to_json()));
        proof {
            reveal_strlit("jsonrpc");
            reveal_strlit("method");
            reveal_strlit("params");
            reveal_strlit("id");
        }
        JsonValue::Object(m)
    }
}

impl Call {
    /// Reads a call: a notification if `v` reads as one, else a method call if it reads as
    /// one, else `Invalid`.
    pub fn from_json(v: JsonValue) -> (r: Call)
        ensures
            r == spec_call(v),
    {
        let names: [&str; 3] = ["jsonrpc", "method", "params"];
        proof {
            lemma_notification_names(names);
        }
        let notification = record_fits(&v, names.as_slice(), true) && version_readable(
            record_field(&v, names.as_slice(), true, 0),
        ) && is_string(record_field(&v, names.as_slice(), true, 1)) && params_readable(
            record_field(&v, names.as_slice(), true, 2),
        );
        if notification {
            match Notification::from_json(v) {
                Some(n) => Call::Notification(n),
                None => Call::Invalid,
            }
        } else {
            match MethodCall::from_json(v) {
                Some(m) => Call::MethodCall(m),
                None => Call::Invalid,
            }
        }
    }

    /// JSON form of a call; `None` for an invalid call, which has none.
    pub fn to_json(self) -> (r: Option<JsonValue>)
        ensures
            r is Some <==> !(self is Invalid),
            r matches Some(j) ==> is_call_json(j, self),
    {
        match self {
            Call::MethodCall(m) => Some(m.to_json()),
            Call::Notification(n) => Some(n.to_json()),
            Call::Invalid => None,
        }
    }
}

/// `v` reads as the request `req`: an array as a batch of calls, one per element; anything
/// else as a single call.
pub open spec fn reads_as_request(v: JsonValue, req: Request) -> bool {
    match v {
        JsonValue::Array(items) => req matches Request::Batch(cs) && cs@ == items@.map_values(
            |x: JsonValue| spec_call(x),
        ),
        _ => req == Request::Single(spec_call(v)),
    }
}

impl Request {
    /// Reads a request: an array is a batch of calls, one per element; anything else is a
    /// single call.
    pub fn from_json(v: JsonValue) -> (r: Request)
        ensures
            reads_as_request(v, r),
    {
        match v {
            JsonValue::Array(items) => {
                let ghost all = items@;
                let mut rest = items;
                let mut rev: Vec<Call> = Vec::new();
                while rest.len() > 0
                    invariant
                        rest@ == all.take(rest@.len() as int),
                        rev@.len() + rest@.len() == all.len(),
                        forall|g: int|
                            0 <= g < rev@.len() ==> rev@[g] == spec_call(all[all.len() - 1 - g]),
                    decreases rest@.len(),
                {
                    let x = rest.pop().unwrap();
                    proof {
                        assert(rest@ =~= all.take(rest@.len() as int));
                    }
                    rev.push(Call::from_json(x));
                }
                let mut calls: Vec<Call> = Vec::new();
                while rev.len() > 0
                    invariant
                        calls@.len() + rev@.len() == all.len(),
                        forall|g: int|
                            0 <= g < rev@.len() ==> rev@[g] == spec_call(all[all.len() - 1 - g]),
                        forall|g: int| 0 <= g < calls@.len() ==> calls@[g] == spec_call(all[g]),
                    decreases rev@.len(),
                {
                    let c = rev.pop().unwrap();
                    calls.push(c);
                }
                proof {
                    assert(calls@ =~= all.map_values(|x: JsonValue| spec_call(x)));
                }
                Request::Batch(calls)
            },
            other => Request::Single(Call::from_json(other)),
        }
    }

    /// JSON form of a request: a call, or an array of calls for a batch; `None` when any call
    /// is invalid.
    pub fn to_json(self) -> (r: Option<JsonValue>)
        ensures
            r is Some <==> match self {
                Request::Single(c) => !(c is Invalid),
                Request::Batch(cs) => forall|i: int| 0 <= i < cs@.len() ==> !(cs@[i] is Invalid),
            },
            self matches Request::Single(c) ==> (r matches Some(j) ==> is_call_json(j, c)),
            self matches Request::Batch(cs) ==> (r matches Some(j) ==> (j matches JsonValue::Array(a)
                && a@.len() == cs@.len() && forall|i: int|
                0 <= i < a@.len() ==> is_call_json(#[trigger] a@[i], cs@[i]))),
    {
        match self {
            Request::Single(c) => c.to_json(),
            Request::Batch(calls) => {
                let ghost all = calls@;
                let mut rest = calls;
                let mut rev: Vec<JsonValue> = Vec::new();
                while rest.len() > 0
                    invariant
                        rest@ == all.take(rest@.len() as int),
                        rev@.len() + rest@.len() == all.len(),
                        forall|i: int| rest@.len() <= i < all.len() ==> !(all[i] is Invalid),
                        forall|g: int|
                            0 <= g < rev@.len() ==> is_call_json(
                                #[trigger] rev@[g],
                                all[all.len() - 1 - g],
                            ),
                        self matches Request::Batch(cs) && cs@ == all,
                    decreases rest@.len(),
                {
                    let ghost before = rest@;
                    let c = rest.pop().unwrap();
                    proof {
                        assert(rest@ =~= all.take(rest@.len() as int));
                        assert(c == before[before.len() - 1]);
                        assert(c == all[rest@.len() as int]);
                    }
                    match c.to_json() {
                        Some(j) => rev.push(j),
                        None => {
                            proof {
                                assert(all[rest@.len() as int] is Invalid);
                            }
                            return None;
                        },
                    }
                }
                let mut out: Vec<JsonValue> = Vec::new();
                while rev.len() > 0
                    invariant
                        out@.len() + rev@.len() == all.len(),
                        forall|g: int|
                            0 <= g < rev@.len() ==> is_call_json(
                                #[trigger] rev@[g],
                                all[all.len() - 1 - g],
                            ),
                        forall|g: int| 0 <= g < out@.len() ==> is_call_json(#[trigger] out@[g], all[g]),
                    decreases rev@.len(),
                {
                    let j = rev.pop().unwrap();
                    out.push(j);
                }
                Some(JsonValue::Array(out))
            },
        }
    }
}

/// The JSON form of a notification reads back as that notification, unless its parameters
/// are `Params::Empty`, which is written `null` and reads as no parameters.
pub proof fn law_notification_json_reads_back(j: JsonValue, n: Notification)
    requires
        is_notification_json(j, n),
        n.params != Some(Params::Empty),
    ensures
        spec_notification(j) == Some(n),
        spec_call(j) == Call::Notification(n),
{
    reveal_strlit("jsonrpc");
    reveal_strlit("method");
    reveal_strlit("params");
    let m = j->Object_0@;
    assert(m[0].0@[0] == 'j' && m[1].0@[0] == 'm' && m[2].0@[0] == 'p');
    assert(m[0].0@ != m[1].0@ && m[0].0@ != m[2].0@ && m[1].0@ != m[2].0@);
    assert forall|i: int| 0 <= i < m.len() implies notification_fields().contains(#[trigger] m[i].0@) by {
        assert(notification_fields()[i] == m[i].0@);
    }
    assert(members_fit(m, notification_fields(), true));
    let m1 = m.drop_last();
    let m0 = m1.drop_last();
    assert(m.last() == m[2] && m1.last() == m[1] && m0.last() == m[0]);
    assert(m0.drop_last() =~= Seq::<(String, JsonValue)>::empty());
    assert(spec_member(m0, "jsonrpc"@) == Some(m[0].1));
    assert(spec_member(m1, "jsonrpc"@) == Some(m[0].1));
    assert(spec_member(m, "jsonrpc"@) == Some(m[0].1));
    assert(spec_member(m1, "method"@) == Some(m[1].1));
    assert(spec_member(m, "method"@) == Some(m[1].1));
    assert(spec_member(m, "params"@) == Some(m[2].1));
    let fs = spec_record(j, notification_fields(), true).unwrap();
    assert(fs[0] == Some(m[0].1) && fs[1] == Some(m[1].1) && fs[2] == Some(m[2].1));
    assert(spec_opt_params(fs[2]) == Some(n.params));
}

/// The JSON form of a method call reads back as that call, unless its parameters are
/// `Params::Empty`, which is written `null` and reads as no parameters.
pub proof fn law_method_call_json_reads_back(j: JsonValue, c: MethodCall)
    requires
        is_method_call_json(j, c),
        c.params != Some(Params::Empty),
    ensures
        spec_method_call(j) == Some(c),
        spec_call(j) == Call::MethodCall(c),
{
    reveal_strlit("jsonrpc");
    reveal_strlit("method");
    reveal_strlit("params");
    reveal_strlit("id");
    let m = j->Object_0@;
    assert(m[0].0@[0] == 'j' && m[1].0@[0] == 'm' && m[2].0@[0] == 'p' && m[3].0@[0] == 'i');
    assert(m[0].0@ != m[1].0@ && m[0].0@ != m[2].0@ && m[0].0@ != m[3].0@);
    assert(m[1].0@ != m[2].0@ && m[1].0@ != m[3].0@ && m[2].0@ != m[3].0@);
    assert forall|i: int| 0 <= i < m.len() implies method_call_fields().contains(#[trigger] m[i].0@) by {
        assert(method_call_fields()[i] == m[i].0@);
    }
    assert(members_fit(m, method_call_fields(), true));
    assert(!notification_fields().contains(m[3].0@));
    assert(!members_fit(m, notification_fields(), true));
    let m2 = m.drop_last();
    let m1 = m2.drop_last();
    let m0 = m1.drop_last();
    assert(m.last() == m[3] && m2.last() == m[2] && m1.last() == m[1] && m0.last() == m[0]);
    assert(m0.drop_last() =~= Seq::<(String, JsonValue)>::empty());
    assert(spec_member(m0, "jsonrpc"@) == Some(m[0].1));
    assert(spec_member(m1, "jsonrpc"@) == Some(m[0].1));
    assert(spec_member(m2, "jsonrpc"@) == Some(m[0].1));
    assert(spec_member(m, "jsonrpc"@) == Some(m[0].1));
    assert(spec_member(m1, "method"@) == Some(m[1].1));
    assert(spec_member(m2, "method"@) == Some(m[1].1));
    assert(spec_member(m, "method"@) == Some(m[1].1));
    assert(spec_member(m2, "params"@) == Some(m[2].1));
    assert(spec_member(m, "params"@) == Some(m[2].1));
    assert(spec_member(m, "id"@) == Some(m[3].1));
    let fs = spec_record(j, method_call_fields(), true).unwrap();
    assert(fs[0] == Some(m[0].1) && fs[1] == Some(m[1].1) && fs[2] == Some(m[2].1) && fs[3] == Some(
        m[3].1,
    ));
    assert(spec_opt_params(fs[2]) == Some(c.params));
    assert(spec_notification(j) is None);
}


/// The JSON form of a request reads back as that request, unless a call's parameters are
/// `Params::Empty`, which is written `null` and reads as no parameters.
pub proof fn law_request_json_reads_back(j: JsonValue, req: Request)
    requires
        match req {
            Request::Single(c) => is_call_json(j, c),
            Request::Batch(cs) => j matches JsonValue::Array(a) && a@.len() == cs@.len() && forall|i: int|
                0 <= i < a@.len() ==> is_call_json(#[trigger] a@[i], cs@[i]),
        },
        match req {
            Request::Single(c) => !(c matches Call::MethodCall(m) && m.params == Some(Params::Empty))
                && !(c matches Call::Notification(n) && n.params == Some(Params::Empty)),
            Request::Batch(cs) => forall|i: int|
                0 <= i < cs@.len() ==> !(#[trigger] cs@[i] matches Call::MethodCall(m) && m.params
                    == Some(Params::Empty)) && !(cs@[i] matches Call::Notification(n) && n.params
                    == Some(Params::Empty)),
        },
    ensures
        reads_as_request(j, req),
{
    match req {
        Request::Single(c) => match c {
            Call::MethodCall(m) => law_method_call_json_reads_back(j, m),
            Call::Notification(n) => law_notification_json_reads_back(j, n),
            Call::Invalid => {},
        },
        Request::Batch(cs) => {
            let a = j->Array_0;
            assert forall|i: int| 0 <= i < a@.len() implies spec_call(#[trigger] a@[i]) == cs@[i] by {
                match cs@[i] {
                    Call::MethodCall(m) => law_method_call_json_reads_back(a@[i], m),
                    Call::Notification(n) => law_notification_json_reads_back(a@[i], n),
                    Call::Invalid => {},
                }
            }
            assert(cs@ =~= a@.map_values(|x: JsonValue| spec_call(x)));
        },
    }
}

} // verus!
