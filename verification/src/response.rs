//! JSON-RPC responses.
use vstd::prelude::*;

use crate::error::{is_error_json, law_error_json_reads_back, spec_error, spec_error_panics, spec_i64, Error, ErrorCode};
use crate::json::{into_record, members_fit, record_field, record_fits, spec_member, spec_names, spec_record, names_distinct, JsonNumber, JsonValue};
use crate::types::{spec_id, spec_version, Id, Version};

verus! {

/// Successful response
#[derive(Debug, PartialEq)]
pub struct Success {
    /// Protocol version
    pub jsonrpc: Version,
    /// Result
    pub result: JsonValue,
    /// Correlation id
    pub id: Id,
}

/// Unsuccessful response
#[derive(Debug, PartialEq)]
pub struct Failure {
    /// Protocol Version
    pub jsonrpc: Version,
    /// Error
    pub error: Error,
    /// Correlation id
    pub id: Id,
}

/// Represents synchronous output - failure or success
#[derive(Debug, PartialEq)]
pub enum SyncOutput {
    /// Success
    Success(Success),
    /// Failure
    Failure(Failure),
}

/// Synchronous response
#[derive(Debug, PartialEq)]
pub enum SyncResponse {
    /// Single response
    Single(SyncOutput),
    /// Response to batch request (batch of responses)
    Batch(Vec<SyncOutput>),
}

/// Field names of a successful response; other members are ignored.
pub open spec fn success_fields() -> Seq<Seq<char>> {
    seq!["jsonrpc"@, "result"@, "id"@]
}

/// Field names of a failed response; other members are ignored.
pub open spec fn failure_fields() -> Seq<Seq<char>> {
    seq!["jsonrpc"@, "error"@, "id"@]
}

/// `j` is the JSON form of the output `o`: members `jsonrpc`, then `result` or `error`, then
/// `id`.
pub open spec fn is_output_json(j: JsonValue, o: SyncOutput) -> bool {
    j matches JsonValue::Object(m) && {
        &&& m@.len() == 3
        &&& m@[0].0@ == "jsonrpc"@
        &&& m@[2].0@ == "id"@
        &&& match o {
            SyncOutput::Success(s) => {
                &&& spec_version(m@[0].1) == Some(s.jsonrpc)
                &&& m@[1].0@ == "result"@ && m@[1].1 == s.result
                &&& spec_id(m@[2].1) == Some(s.id)
            },
            SyncOutput::Failure(f) => {
                &&& spec_version(m@[0].1) == Some(f.jsonrpc)
                &&& m@[1].0@ == "error"@ && is_error_json(m@[1].1, f.error)
                &&& spec_id(m@[2].1) == Some(f.id)
            },
        }
    }
}

/// `j` is the JSON form of the response `r`: an output, or an array of outputs for a batch.
pub open spec fn is_response_json(j: JsonValue, r: SyncResponse) -> bool {
    match r {
        SyncResponse::Single(o) => is_output_json(j, o),
        SyncResponse::Batch(os) => j matches JsonValue::Array(a) && a@.len() == os@.len() && forall|
            i: int,
        |
            0 <= i < a@.len() ==> is_output_json(#[trigger] a@[i], os@[i]),
    }
}

/// The successful response that `v` reads as.
pub open spec fn spec_success(v: JsonValue) -> Option<Success> {
    match spec_record(v, success_fields(), false) {
        Some(fs) => match (fs[0], fs[1], fs[2]) {
            (Some(ver), Some(result), Some(i)) => match (spec_version(ver), spec_id(i)) {
                (Some(jsonrpc), Some(id)) => Some(Success { jsonrpc, result, id }),
                _ => None,
            },
            _ => None,
        },
        None => None,
    }
}

/// The failed response that `v` reads as.
pub open spec fn spec_failure(v: JsonValue) -> Option<Failure> {
    match spec_record(v, failure_fields(), false) {
        Some(fs) => match (fs[0], fs[1], fs[2]) {
            (Some(ver), Some(e), Some(i)) => match (spec_version(ver), spec_error(e), spec_id(i)) {
                (Some(jsonrpc), Some(error), Some(id)) => Some(Failure { jsonrpc, error, id }),
                _ => None,
            },
            _ => None,
        },
        None => None,
    }
}

/// Reading `v` as a failed response stops with a panic: its error has a code that is not an
/// `i64` (an object's `error` member is read before its other members).
pub open spec fn spec_failure_panics(v: JsonValue) -> bool {
    match v {
        JsonValue::Object(m) => match spec_member(m@, "error"@) {
            Some(e) => spec_error_panics(e),
            None => false,
        },
        JsonValue::Array(a) => a@.len() >= 2 && spec_version(a@[0]) is Some && spec_error_panics(
            a@[1],
        ),
        _ => false,
    }
}

/// The output that `v` reads as: a failure if it reads as one, else a success.
pub open spec fn spec_output(v: JsonValue) -> Option<SyncOutput> {
    match spec_failure(v) {
        Some(f) => Some(SyncOutput::Failure(f)),
        None => match spec_success(v) {
            Some(s) => Some(SyncOutput::Success(s)),
            None => None,
        },
    }
}

/// Reading the elements of a batch in order stops with a panic.
pub open spec fn spec_batch_panics(items: Seq<JsonValue>) -> bool {
    exists|i: int|
        0 <= i < items.len() && spec_failure_panics(#[trigger] items[i]) && forall|j: int|
            0 <= j < i ==> spec_output(#[trigger] items[j]) is Some
}

/// Reading `v` as a response stops with a panic.
pub open spec fn spec_response_panics(v: JsonValue) -> bool {
    match v {
        JsonValue::Array(items) => spec_batch_panics(items@) || ((exists|j: int|
            0 <= j < items@.len() && spec_output(#[trigger] items@[j]) is None)
            && spec_failure_panics(v)),
        _ => spec_failure_panics(v),
    }
}

proof fn lemma_three_names(names: [&str; 3], a: &str, b: &str, c: &str)
    requires
        names@ == seq![a, b, c],
        a@.len() > 0 && b@.len() > 0 && c@.len() > 0,
        a@[0] != b@[0],
        a@[0] != c@[0],
        b@[0] != c@[0],
    ensures
        spec_names(names@) =~= seq![a@, b@, c@],
        names_distinct(names@),
{
}

impl SyncOutput {
    /// Creates new synchronous output given `Result`, `Id` and `Version`.
    pub fn from(result: Result<JsonValue, Error>, id: Id, jsonrpc: Version) -> (r: Self)
        ensures
            r == match result {
                Ok(result) => SyncOutput::Success(Success { id, jsonrpc, result }),
                Err(error) => SyncOutput::Failure(Failure { id, jsonrpc, error }),
            },
    {
        match result {
            Ok(result) => SyncOutput::Success(Success { id: id, jsonrpc: jsonrpc, result: result }),
            Err(error) => SyncOutput::Failure(Failure { id: id, jsonrpc: jsonrpc, error: error }),
        }
    }

    /// JSON form: `jsonrpc`, then `result` or `error`, then `id`.
    pub fn to_json(self) -> (r: JsonValue)
        ensures
            is_output_json(r, self),
    {
        proof {
            reveal_strlit("jsonrpc");
            reveal_strlit("result");
            reveal_strlit("error");
            reveal_strlit("id");
        }
        let mut m: Vec<(String, JsonValue)> = Vec::new();
        match self {
            SyncOutput::Success(s) => {
                m.push(("jsonrpc".to_owned(), s.jsonrpc.to_json()));
                m.push(("result".to_owned(), s.result));
                m.push(("id".to_owned(), s.id.to_json()));
            },
            SyncOutput::Failure(f) => {
                m.push(("jsonrpc".to_owned(), f.jsonrpc.to_json()));
                m.push(("error".to_owned(), f.error.to_json()));
                m.push(("id".to_owned(), f.id.to_json()));
            },
        }
        JsonValue::Object(m)
    }
}

fn version_readable(v: Option<&JsonValue>) -> (r: bool)
    ensures
        r == (v matches Some(x) && spec_version(*x) is Some),
{
    match v {
        Some(x) => Version::readable(x),
        None => false,
    }
}

fn id_readable(v: Option<&JsonValue>) -> (r: bool)
    ensures
        r == (v matches Some(x) && spec_id(*x) is Some),
{
    match v {
        Some(x) => Id::readable(x),
        None => false,
    }
}

fn error_readable(v: Option<&JsonValue>) -> (r: bool)
    requires
        v matches Some(x) ==> !spec_error_panics(*x),
    ensures
        r == (v matches Some(x) && spec_error(*x) is Some),
{
    let e = match v {
        Some(e) => e,
        None => return false,
    };
    let names: [&str; 3] = ["code", "message", "data"];
    proof {
        reveal_strlit("code");
        reveal_strlit("message");
        reveal_strlit("data");
        lemma_three_names(names, "code", "message", "data");
    }
    if !record_fits(e, names.as_slice(), false) {
        return false;
    }
    let code_ok = match record_field(e, names.as_slice(), false, 0) {
        Some(JsonValue::Number(JsonNumber::PosInt(n))) => *n <= i64::MAX as u64,
        Some(JsonValue::Number(JsonNumber::NegInt(_))) => true,
        _ => false,
    };
    let message_ok = match record_field(e, names.as_slice(), false, 1) {
        Some(JsonValue::String(_)) => true,
        _ => false,
    };
    code_ok && message_ok
}

impl Success {
    /// Reads a successful response: members (or positional elements) `jsonrpc` (`"2.0"`),
    /// `result` (any value) and `id`; other members are ignored.
    pub fn from_json(v: JsonValue) -> (r: Option<Success>)
        ensures
            r == spec_success(v),
    {
        let names: [&str; 3] = ["jsonrpc", "result", "id"];
        proof {
            reveal_strlit("jsonrpc");
            reveal_strlit("result");
            reveal_strlit("id");
            lemma_three_names(names, "jsonrpc", "result", "id");
        }
        if !record_fits(&v, names.as_slice(), false) {
            return None;
        }
        let ok = version_readable(record_field(&v, names.as_slice(), false, 0))
            && record_field(&v, names.as_slice(), false, 1).is_some()
            && id_readable(record_field(&v, names.as_slice(), false, 2));
        if !ok {
            return None;
        }
        let mut fs = into_record(v, names.as_slice(), false);
        let id = match fs.pop().unwrap() {
            Some(i) => Id::from_json(i),
            None => return None,
        };
        let result = match fs.pop().unwrap() {
            Some(x) => x,
            None => return None,
        };
        Some(Success { jsonrpc: Version::V2, result, id })
    }
}

impl Failure {
    /// Reads a failed response: members (or positional elements) `jsonrpc` (`"2.0"`),
    /// `error` (an error object) and `id`; other members are ignored.
    pub fn from_json(v: JsonValue) -> (r: Option<Failure>)
        requires
            !spec_failure_panics(v),
        ensures
            r == spec_failure(v),
    {
        let names: [&str; 3] = ["jsonrpc", "error", "id"];
        proof {
            reveal_strlit("jsonrpc");
            reveal_strlit("error");
            reveal_strlit("id");
            lemma_three_names(names, "jsonrpc", "error", "id");
        }
        if !record_fits(&v, names.as_slice(), false) {
            return None;
        }
        if !version_readable(record_field(&v, names.as_slice(), false, 0)) {
            return None;
        }
        let ok = error_readable(record_field(&v, names.as_slice(), false, 1)) && id_readable(
            record_field(&v, names.as_slice(), false, 2),
        );
        if !ok {
            return None;
        }
        let mut fs = into_record(v, names.as_slice(), false);
        let id = match fs.pop().unwrap() {
            Some(i) => Id::from_json(i),
            None => return None,
        };
        let error = match fs.pop().unwrap() {
            Some(e) => match Error::from_json(e) {
                Some(e) => e,
                None => return None,
            },
            None => return None,
        };
        Some(Failure { jsonrpc: Version::V2, error, id })
    }
}

impl SyncOutput {
    /// Whether `v` reads as an output.
    fn readable(v: &JsonValue) -> (r: bool)
        requires
            !spec_failure_panics(*v),
        ensures
            r == spec_output(*v) is Some,
    {
        failure_readable(v) || success_readable(v)
    }

    /// Reads an output: a failure if `v` reads as one, else a success.
    pub fn from_json(v: JsonValue) -> (r: Option<SyncOutput>)
        requires
            !spec_failure_panics(v),
        ensures
            r == spec_output(v),
    {
        if failure_readable(&v) {
            match Failure::from_json(v) {
                Some(f) => Some(SyncOutput::Failure(f)),
                None => None,
            }
        } else {
            match Success::from_json(v) {
                Some(s) => Some(SyncOutput::Success(s)),
                None => None,
            }
        }
    }
}

/// The outputs of a batch whose every element reads as an output.
pub open spec fn spec_batch_outputs(items: Seq<JsonValue>) -> Seq<SyncOutput> {
    items.map_values(|x: JsonValue| spec_output(x).unwrap())
}

/// The response that `v` reads as: an array whose every element reads as an output is a
/// batch; anything else is a single output.
pub open spec fn spec_response_batch(v: JsonValue) -> bool {
    v matches JsonValue::Array(items) && forall|j: int|
        0 <= j < items@.len() ==> spec_output(#[trigger] items@[j]) is Some
}

impl SyncResponse {
    /// Reads a response: an array whose elements all read as outputs is a batch; otherwise
    /// `v` must read as a single output.
    pub fn from_json(v: JsonValue) -> (r: Option<SyncResponse>)
        requires
            !spec_response_panics(v),
        ensures
            spec_response_batch(v) ==> (v matches JsonValue::Array(items) && r matches Some(
                SyncResponse::Batch(os),
            ) && os@ == spec_batch_outputs(items@)),
            !spec_response_batch(v) ==> r == match spec_output(v) {
                Some(o) => Some(SyncResponse::Single(o)),
                None => None,
            },
    {
        let all_readable = match &v {
            JsonValue::Array(items) => batch_readable(items),
            _ => false,
        };
        if all_readable {
            match v {
                JsonValue::Array(items) => Some(SyncResponse::Batch(batch_from_json(items))),
                _ => {
                    proof {
                        assert(false);
                    }
                    None
                },
            }
        } else {
            match SyncOutput::from_json(v) {
                Some(o) => Some(SyncResponse::Single(o)),
                None => None,
            }
        }
    }

    /// JSON form: an output, or an array of outputs for a batch.
    pub fn to_json(self) -> (r: JsonValue)
        ensures
            is_response_json(r, self),
    {
        match self {
            SyncResponse::Single(o) => o.to_json(),
            SyncResponse::Batch(outputs) => {
                let ghost all = outputs@;
                let mut rest = outputs;
                let mut rev: Vec<JsonValue> = Vec::new();
                while rest.len() > 0
                    invariant
                        rest@ == all.take(rest@.len() as int),
                        rev@.len() + rest@.len() == all.len(),
                        forall|g: int|
                            0 <= g < rev@.len() ==> is_output_json(
                                #[trigger] rev@[g],
                                all[all.len() - 1 - g],
                            ),
                    decreases rest@.len(),
                {
                    let ghost before = rest@;
                    let o = rest.pop().unwrap();
                    proof {
                        assert(rest@ =~= all.take(rest@.len() as int));
                        assert(o == all[rest@.len() as int]);
                    }
                    rev.push(o.to_json());
                }
                let mut out: Vec<JsonValue> = Vec::new();
                while rev.len() > 0
                    invariant
                        out@.len() + rev@.len() == all.len(),
                        forall|g: int|
                            0 <= g < rev@.len() ==> is_output_json(
                                #[trigger] rev@[g],
                                all[all.len() - 1 - g],
                            ),
                        forall|g: int| 0 <= g < out@.len() ==> is_output_json(#[trigger] out@[g], all[g]),
                    decreases rev@.len(),
                {
                    let j = rev.pop().unwrap();
                    out.push(j);
                }
                JsonValue::Array(out)
            },
        }
    }
}

fn batch_readable(items: &Vec<JsonValue>) -> (r: bool)
    requires
        !spec_batch_panics(items@),
    ensures
        r == forall|j: int| 0 <= j < items@.len() ==> spec_output(#[trigger] items@[j]) is Some,
{
    let mut i: usize = 0;
    while i < items.len()
        invariant
            0 <= i <= items@.len(),
            forall|j: int| 0 <= j < i ==> spec_output(#[trigger] items@[j]) is Some,
            !spec_batch_panics(items@),
        decreases items@.len() - i,
    {
        proof {
            if spec_failure_panics(items@[i as int]) {
                assert(spec_batch_panics(items@));
            }
        }
        if !SyncOutput::readable(&items[i]) {
            return false;
        }
        i = i + 1;
    }
    true
}

fn batch_from_json(items: Vec<JsonValue>) -> (r: Vec<SyncOutput>)
    requires
        !spec_batch_panics(items@),
        forall|j: int| 0 <= j < items@.len() ==> spec_output(#[trigger] items@[j]) is Some,
    ensures
        r@ == spec_batch_outputs(items@),
{
    let ghost all = items@;
    proof {
        assert forall|j: int| 0 <= j < all.len() implies !spec_failure_panics(#[trigger] all[j]) by {
            if spec_failure_panics(all[j]) {
                assert(forall|k: int| 0 <= k < j ==> spec_output(#[trigger] all[k]) is Some);
                assert(spec_batch_panics(all));
            }
        }
    }
    let mut rest = items;
    let mut rev: Vec<SyncOutput> = Vec::new();
    while rest.len() > 0
        invariant
            rest@ == all.take(rest@.len() as int),
            rev@.len() + rest@.len() == all.len(),
            forall|j: int| 0 <= j < all.len() ==> spec_output(#[trigger] all[j]) is Some,
            forall|j: int| 0 <= j < all.len() ==> !spec_failure_panics(#[trigger] all[j]),
            forall|g: int|
                0 <= g < rev@.len() ==> rev@[g] == spec_output(all[all.len() - 1 - g]).unwrap(),
        decreases rest@.len(),
    {
        let ghost before = rest@;
        let x = rest.pop().unwrap();
        proof {
            assert(rest@ =~= all.take(rest@.len() as int));
            assert(x == all[rest@.len() as int]);
        }
        match SyncOutput::from_json(x) {
            Some(o) => rev.push(o),
            None => {
                proof {
                    assert(false);
                }
                return Vec::new();
            },
        }
    }
    let mut outs: Vec<SyncOutput> = Vec::new();
    while rev.len() > 0
        invariant
            outs@.len() + rev@.len() == all.len(),
            forall|g: int|
                0 <= g < rev@.len() ==> rev@[g] == spec_output(all[all.len() - 1 - g]).unwrap(),
            forall|g: int| 0 <= g < outs@.len() ==> outs@[g] == spec_output(all[g]).unwrap(),
        decreases rev@.len(),
    {
        let o = rev.pop().unwrap();
        outs.push(o);
    }
    proof {
        assert(outs@ =~= spec_batch_outputs(all));
    }
    outs
}

fn failure_readable(v: &JsonValue) -> (r: bool)
    requires
        !spec_failure_panics(*v),
    ensures
        r == spec_failure(*v) is Some,
{
    let names: [&str; 3] = ["jsonrpc", "error", "id"];
    proof {
        reveal_strlit("jsonrpc");
        reveal_strlit("error");
        reveal_strlit("id");
        lemma_three_names(names, "jsonrpc", "error", "id");
    }
    record_fits(v, names.as_slice(), false) && version_readable(
        record_field(v, names.as_slice(), false, 0),
    ) && error_readable(record_field(v, names.as_slice(), false, 1)) && id_readable(
        record_field(v, names.as_slice(), false, 2),
    )
}

fn success_readable(v: &JsonValue) -> (r: bool)
    ensures
        r == spec_success(*v) is Some,
{
    let names: [&str; 3] = ["jsonrpc", "result", "id"];
    proof {
        reveal_strlit("jsonrpc");
        reveal_strlit("result");
        reveal_strlit("id");
        lemma_three_names(names, "jsonrpc", "result", "id");
    }
    record_fits(v, names.as_slice(), false) && version_readable(
        record_field(v, names.as_slice(), false, 0),
    ) && record_field(v, names.as_slice(), false, 1).is_some() && id_readable(
        record_field(v, names.as_slice(), false, 2),
    )
}


/// The JSON form of an output reads back as that output, unless it is a failure whose error
/// does not read back (see [`law_error_json_reads_back`]).
pub proof fn law_output_json_reads_back(j: JsonValue, o: SyncOutput)
    requires
        is_output_json(j, o),
        o matches SyncOutput::Failure(f) ==> ErrorCode::spec_from_code(f.error.code.spec_code())
            == f.error.code && f.error.data != Some(JsonValue::Null),
    ensures
        !spec_failure_panics(j),
        spec_output(j) == Some(o),
{
    reveal_strlit("jsonrpc");
    reveal_strlit("result");
    reveal_strlit("error");
    reveal_strlit("id");
    let m = j->Object_0@;
    assert(m[0].0@[0] == 'j' && m[2].0@[0] == 'i');
    assert(m[1].0@[0] == 'r' || m[1].0@[0] == 'e');
    assert(m[0].0@ != m[1].0@ && m[0].0@ != m[2].0@ && m[1].0@ != m[2].0@);
    let m1 = m.drop_last();
    let m0 = m1.drop_last();
    assert(m.last() == m[2] && m1.last() == m[1] && m0.last() == m[0]);
    assert(m0.drop_last() =~= Seq::<(String, JsonValue)>::empty());
    assert(spec_member(m0, "jsonrpc"@) == Some(m[0].1));
    assert(spec_member(m1, "jsonrpc"@) == Some(m[0].1));
    assert(spec_member(m, "jsonrpc"@) == Some(m[0].1));
    assert(spec_member(m, "id"@) == Some(m[2].1));
    assert(members_fit(m, failure_fields(), false));
    assert(members_fit(m, success_fields(), false));
    match o {
        SyncOutput::Success(s) => {
            assert(spec_member(m1, "result"@) == Some(m[1].1));
            assert(spec_member(m, "result"@) == Some(m[1].1));
            assert("error"@[0] == 'e' && "result"@[0] == 'r' && "id"@[0] == 'i');
            assert(m[0].0@ != "error"@ && m[1].0@ != "error"@ && m[2].0@ != "error"@);
            assert(spec_member(m0.drop_last(), "error"@) is None);
            assert(spec_member(m0, "error"@) is None);
            assert(spec_member(m1, "error"@) is None);
            assert(spec_member(m, "error"@) is None);
            let ff = spec_record(j, failure_fields(), false).unwrap();
            assert(ff[1] is None);
            assert(spec_failure(j) is None);
            let fs = spec_record(j, success_fields(), false).unwrap();
            assert(fs[0] == Some(m[0].1) && fs[1] == Some(m[1].1) && fs[2] == Some(m[2].1));
        },
        SyncOutput::Failure(f) => {
            assert(spec_member(m1, "error"@) == Some(m[1].1));
            assert(spec_member(m, "error"@) == Some(m[1].1));
            law_error_json_reads_back(m[1].1, f.error);
            let ff = spec_record(j, failure_fields(), false).unwrap();
            assert(ff[0] == Some(m[0].1) && ff[1] == Some(m[1].1) && ff[2] == Some(m[2].1));
        },
    }
}


/// The JSON form of a response reads back as that response, unless a failure's error does
/// not read back (see [`law_error_json_reads_back`]).
pub proof fn law_response_json_reads_back(j: JsonValue, r: SyncResponse)
    requires
        is_response_json(j, r),
        match r {
            SyncResponse::Single(o) => o matches SyncOutput::Failure(f) ==> ErrorCode::spec_from_code(
                f.error.code.spec_code(),
            ) == f.error.code && f.error.data != Some(JsonValue::Null),
            SyncResponse::Batch(os) => forall|i: int|
                0 <= i < os@.len() ==> (#[trigger] os@[i] matches SyncOutput::Failure(f)
                    ==> ErrorCode::spec_from_code(f.error.code.spec_code()) == f.error.code
                    && f.error.data != Some(JsonValue::Null)),
        },
    ensures
        !spec_response_panics(j),
        match r {
            SyncResponse::Single(o) => !spec_response_batch(j) && spec_output(j) == Some(o),
            SyncResponse::Batch(os) => spec_response_batch(j) && (j matches JsonValue::Array(items)
                && spec_batch_outputs(items@) == os@),
        },
{
    match r {
        SyncResponse::Single(o) => {
            law_output_json_reads_back(j, o);
        },
        SyncResponse::Batch(os) => {
            let items = j->Array_0@;
            assert forall|i: int| 0 <= i < items.len() implies spec_output(#[trigger] items[i])
                == Some(os@[i]) && !spec_failure_panics(items[i]) by {
                law_output_json_reads_back(items[i], os@[i]);
            }
            assert(spec_batch_outputs(items) =~= os@);
            if spec_batch_panics(items) {
                let i = choose|i: int|
                    0 <= i < items.len() && spec_failure_panics(#[trigger] items[i]) && forall|
                        k: int,
                    |
                        0 <= k < i ==> spec_output(#[trigger] items[k]) is Some;
                assert(!spec_failure_panics(items[i]));
            }
        },
    }
}

} // verus!
