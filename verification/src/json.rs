//! A JSON document model and the reading of JSON objects as records with named fields.
use vstd::prelude::*;
use vstd::utf8::{encode_utf8, encode_utf8_decode_utf8};

verus! {

/// A JSON number, as the JSON text gave it.
#[derive(Debug, Clone, PartialEq)]
pub enum JsonNumber {
    /// A non-negative integer.
    PosInt(u64),
    /// A negative integer.
    NegInt(i64),
    /// Any other number, in its decimal text form.
    Float(String),
}

/// A JSON value.
#[derive(Debug, PartialEq)]
pub enum JsonValue {
    /// `null`
    Null,
    /// `true` or `false`
    Bool(bool),
    /// A number.
    Number(JsonNumber),
    /// A string.
    String(String),
    /// An array.
    Array(Vec<JsonValue>),
    /// An object: its members in order.
    Object(Vec<(String, JsonValue)>),
}

/// The value of the last member named `key` among `entries`.
pub open spec fn spec_member(entries: Seq<(String, JsonValue)>, key: Seq<char>) -> Option<JsonValue>
    decreases entries.len(),
{
    if entries.len() == 0 {
        None
    } else if entries.last().0@ == key {
        Some(entries.last().1)
    } else {
        spec_member(entries.drop_last(), key)
    }
}

/// Names of the fields of a record type.
pub open spec fn spec_names(names: Seq<&str>) -> Seq<Seq<char>> {
    names.map_values(|s: &str| s@)
}

/// The members of an object fit a record with fields `names`: no member names a field twice,
/// and, when `deny_unknown`, every member names a field.
pub open spec fn members_fit(
    entries: Seq<(String, JsonValue)>,
    names: Seq<Seq<char>>,
    deny_unknown: bool,
) -> bool {
    &&& deny_unknown ==> forall|i: int|
        0 <= i < entries.len() ==> names.contains(#[trigger] entries[i].0@)
    &&& forall|i: int, j: int|
        0 <= i < j < entries.len() && #[trigger] entries[i].0@ == #[trigger] entries[j].0@
            ==> !names.contains(entries[i].0@)
}

/// The field values of a record with fields `names` read from `v`: from an object by member
/// name (a missing member gives `None`), or from an array of exactly one element per field,
/// in order. `None` when `v` has neither form.
pub open spec fn spec_record(v: JsonValue, names: Seq<Seq<char>>, deny_unknown: bool) -> Option<
    Seq<Option<JsonValue>>,
> {
    match v {
        JsonValue::Object(entries) => if members_fit(entries@, names, deny_unknown) {
            Some(Seq::new(names.len(), |f: int| spec_member(entries@, names[f])))
        } else {
            None
        },
        JsonValue::Array(items) => if items@.len() == names.len() {
            Some(Seq::new(names.len(), |f: int| Some(items@[f])))
        } else {
            None
        },
        _ => None,
    }
}

/// Whether two string slices hold the same characters: their UTF-8 bytes are compared one
/// by one, and the bytes of a string decode back to its characters.
pub(crate) fn str_eq(a: &str, b: &str) -> (r: bool)
    ensures
        r == (a@ == b@),
{
    let x = a.as_bytes();
    let y = b.as_bytes();
    proof {
        assert(x@ == encode_utf8(a@));
        assert(y@ == encode_utf8(b@));
        encode_utf8_decode_utf8(a@);
        encode_utf8_decode_utf8(b@);
    }
    if x.len() != y.len() {
        return false;
    }
    let mut i: usize = 0;
    while i < x.len()
        invariant
            x@.len() == y@.len(),
            a@ == b@ ==> x@ == y@,
            i <= x@.len(),
            forall|k: int| 0 <= k < i ==> x@[k] == y@[k],
        decreases x@.len() - i,
    {
        if x[i] != y[i] {
            return false;
        }
        i = i + 1;
    }
    assert(x@ =~= y@);
    true
}

/// Index of the first of `names` equal to `key`.
fn name_index(names: &[&str], key: &str) -> (r: Option<usize>)
    ensures
        match r {
            Some(f) => f < names@.len() && names@[f as int]@ == key@ && forall|g: int|
                0 <= g < f ==> names@[g]@ != key@,
            None => forall|g: int| 0 <= g < names@.len() ==> names@[g]@ != key@,
        },
{
    let mut f: usize = 0;
    while f < names.len()
        invariant
            0 <= f <= names@.len(),
            forall|g: int| 0 <= g < f ==> names@[g]@ != key@,
        decreases names@.len() - f,
    {
        if str_eq(names[f], key) {
            return Some(f);
        }
        f = f + 1;
    }
    None
}

proof fn lemma_names_contains(names: Seq<&str>, key: Seq<char>)
    ensures
        spec_names(names).contains(key) <==> exists|g: int| 0 <= g < names.len() && names[g]@ == key,
{
    if spec_names(names).contains(key) {
        let g = choose|g: int| 0 <= g < spec_names(names).len() && spec_names(names)[g] == key;
        assert(names[g]@ == key);
    }
    if exists|g: int| 0 <= g < names.len() && names[g]@ == key {
        let g = choose|g: int| 0 <= g < names.len() && names[g]@ == key;
        assert(spec_names(names)[g] == key);
    }
}

/// No two of `names` are equal.
pub open spec fn names_distinct(names: Seq<&str>) -> bool {
    forall|a: int, b: int| 0 <= a < b < names.len() ==> names[a]@ != names[b]@
}

proof fn lemma_member_push(rest: Seq<(String, JsonValue)>, e: (String, JsonValue), k: Seq<char>)
    ensures
        spec_member(rest.push(e), k) == if e.0@ == k {
            Some(e.1)
        } else {
            spec_member(rest, k)
        },
{
    assert(rest.push(e).drop_last() =~= rest);
}

/// Whether `v` can be read as a record with fields `names` (see [`spec_record`]).
pub fn record_fits(v: &JsonValue, names: &[&str], deny_unknown: bool) -> (r: bool)
    ensures
        r == spec_record(*v, spec_names(names@), deny_unknown) is Some,
{
    match v {
        JsonValue::Object(entries) => {
            let ghost sn = spec_names(names@);
            let mut i: usize = 0;
            while i < entries.len()
                invariant
                    sn == spec_names(names@),
                    *v == JsonValue::Object(*entries),
                    0 <= i <= entries@.len(),
                    deny_unknown ==> forall|a: int|
                        0 <= a < i ==> sn.contains(#[trigger] entries@[a].0@),
                    forall|a: int, b: int|
                        0 <= a < b < i && #[trigger] entries@[a].0@ == #[trigger] entries@[b].0@
                            ==> !sn.contains(entries@[a].0@),
                decreases entries@.len() - i,
            {
                let key = entries[i].0.as_str();
                let found = name_index(names, key);
                proof {
                    lemma_names_contains(names@, key@);
                }
                match found {
                    None => {
                        if deny_unknown {
                            proof {
                                assert(!sn.contains(entries@[i as int].0@));
                                assert(!members_fit(entries@, sn, deny_unknown));
                                assert(spec_record(*v, sn, deny_unknown) is None);
                            }
                            return false;
                        }
                    },
                    Some(f) => {
                        proof {
                            assert(sn[f as int] == key@);
                            assert(sn.contains(key@));
                        }
                        let mut j: usize = 0;
                        while j < i
                            invariant
                                0 <= j <= i < entries@.len(),
                                key@ == entries@[i as int].0@,
                                forall|a: int| 0 <= a < j ==> entries@[a].0@ != key@,
                                sn.contains(key@),
                                sn == spec_names(names@),
                                *v == JsonValue::Object(*entries),
                            decreases i - j,
                        {
                            if str_eq(entries[j].0.as_str(), key) {
                                proof {
                                    assert(entries@[j as int].0@ == entries@[i as int].0@);
                                    assert(!members_fit(entries@, sn, deny_unknown));
                                    assert(spec_record(*v, sn, deny_unknown) is None);
                                }
                                return false;
                            }
                            j = j + 1;
                        }
                    },
                }
                i = i + 1;
            }
            true
        },
        JsonValue::Array(items) => items.len() == names.len(),
        _ => false,
    }
}

/// A reference to the value of the last member named `key` among `entries`.
pub fn member_ref<'a>(entries: &'a Vec<(String, JsonValue)>, key: &str) -> (r: Option<&'a JsonValue>)
    ensures
        match r {
            Some(x) => spec_member(entries@, key@) == Some(*x),
            None => spec_member(entries@, key@) is None,
        },
{
    let mut i: usize = entries.len();
    assert(entries@.take(i as int) =~= entries@);
    while i > 0
        invariant
            0 <= i <= entries@.len(),
            spec_member(entries@, key@) == spec_member(entries@.take(i as int), key@),
        decreases i,
    {
        let ghost prefix = entries@.take(i as int);
        proof {
            assert(prefix.drop_last() =~= entries@.take(i - 1));
        }
        if str_eq(entries[i - 1].0.as_str(), key) {
            return Some(&entries[i - 1].1);
        }
        i = i - 1;
    }
    proof {
        assert(entries@.take(0) =~= Seq::<(String, JsonValue)>::empty());
    }
    None
}

/// A reference to the `f`-th field value of `v` read as a record with fields `names`.
pub fn record_field<'a>(v: &'a JsonValue, names: &[&str], deny_unknown: bool, f: usize) -> (r:
    Option<&'a JsonValue>)
    requires
        spec_record(*v, spec_names(names@), deny_unknown) is Some,
        f < names@.len(),
    ensures
        match r {
            Some(x) => spec_record(*v, spec_names(names@), deny_unknown).unwrap()[f as int] == Some(
                *x,
            ),
            None => spec_record(*v, spec_names(names@), deny_unknown).unwrap()[f as int] is None,
        },
{
    match v {
        JsonValue::Object(entries) => {
            let r = member_ref(entries, names[f]);
            proof {
                assert(spec_names(names@)[f as int] == names@[f as int]@);
            }
            r
        },
        JsonValue::Array(items) => Some(&items[f]),
        _ => None,
    }
}

/// Reads `v` as a record with fields `names` (see [`spec_record`]), taking the field values
/// out of it.
pub fn into_record(v: JsonValue, names: &[&str], deny_unknown: bool) -> (r: Vec<Option<JsonValue>>)
    requires
        spec_record(v, spec_names(names@), deny_unknown) is Some,
        names_distinct(names@),
    ensures
        r@ == spec_record(v, spec_names(names@), deny_unknown).unwrap(),
{
    let ghost sn = spec_names(names@);
    let ghost expected = spec_record(v, sn, deny_unknown).unwrap();
    match v {
        JsonValue::Object(entries) => {
            let ghost all = entries@;
            let mut slots: Vec<Option<JsonValue>> = Vec::new();
            let mut f: usize = 0;
            while f < names.len()
                invariant
                    0 <= f <= names@.len(),
                    slots@.len() == f,
                    forall|g: int| 0 <= g < f ==> slots@[g] is None,
                decreases names@.len() - f,
            {
                slots.push(None);
                f = f + 1;
            }
            let mut rest = entries;
            while rest.len() > 0
                invariant
                    sn == spec_names(names@),
                    names_distinct(names@),
                    slots@.len() == names@.len(),
                    rest@.len() <= all.len(),
                    rest@ == all.take(rest@.len() as int),
                    forall|g: int|
                        0 <= g < slots@.len() ==> spec_member(all, #[trigger] sn[g]) == match slots@[g] {
                            Some(x) => Some(x),
                            None => spec_member(rest@, sn[g]),
                        },
                decreases rest@.len(),
            {
                let ghost before = rest@;
                let (key, value) = rest.pop().unwrap();
                proof {
                    assert(before == rest@.push((key, value)));
                    assert(rest@ =~= all.take(rest@.len() as int));
                    assert forall|h: int| 0 <= h < sn.len() implies spec_member(before, #[trigger] sn[h])
                        == if key@ == sn[h] { Some(value) } else { spec_member(rest@, sn[h]) } by {
                        lemma_member_push(rest@, (key, value), sn[h]);
                    }
                }
                let found = name_index(names, key.as_str());
                match found {
                    Some(g) => {
                        if slots[g].is_none() {
                            let ghost old_slots = slots@;
                            slots.set(g, Some(value));
                            proof {
                                assert forall|h: int| 0 <= h < slots@.len() implies spec_member(
                                    all,
                                    #[trigger] sn[h],
                                ) == match slots@[h] {
                                    Some(x) => Some(x),
                                    None => spec_member(rest@, sn[h]),
                                } by {
                                    assert(sn[h] == names@[h]@);
                                    if h != g {
                                        assert(slots@[h] == old_slots[h]);
                                        assert(names@[h]@ != names@[g as int]@);
                                    }
                                }
                            }
                        } else {
                            proof {
                                assert forall|h: int| 0 <= h < slots@.len() implies spec_member(
                                    all,
                                    #[trigger] sn[h],
                                ) == match slots@[h] {
                                    Some(x) => Some(x),
                                    None => spec_member(rest@, sn[h]),
                                } by {
                                    assert(sn[h] == names@[h]@);
                                    if h != g {
                                        assert(names@[h]@ != names@[g as int]@);
                                    }
                                }
                            }
                        }
                    },
                    None => {
                        proof {
                            assert forall|h: int| 0 <= h < slots@.len() implies spec_member(
                                all,
                                #[trigger] sn[h],
                            ) == match slots@[h] {
                                Some(x) => Some(x),
                                None => spec_member(rest@, sn[h]),
                            } by {
                                assert(sn[h] == names@[h]@);
                            }
                        }
                    },
                }
            }
            proof {
                assert forall|g: int| 0 <= g < slots@.len() implies slots@[g] == expected[g] by {
                    assert(spec_member(rest@, sn[g]) is None);
                }
                assert(slots@ =~= expected);
            }
            slots
        },
        JsonValue::Array(items) => {
            let mut slots: Vec<Option<JsonValue>> = Vec::new();
            let mut rest = items;
            let ghost all = rest@;
            while rest.len() > 0
                invariant
                    rest@ == all.take(rest@.len() as int),
                    all.len() == sn.len(),
                    slots@.len() + rest@.len() == all.len(),
                    forall|g: int|
                        0 <= g < slots@.len() ==> slots@[g] == Some(
                            all[all.len() - 1 - g],
                        ),
                decreases rest@.len(),
            {
                let ghost before = rest@;
                let x = rest.pop().unwrap();
                proof {
                    assert(rest@ =~= all.take(rest@.len() as int));
                }
                slots.push(Some(x));
            }
            let mut out: Vec<Option<JsonValue>> = Vec::new();
            while slots.len() > 0
                invariant
                    out@.len() + slots@.len() == all.len(),
                    all.len() == sn.len(),
                    forall|g: int|
                        0 <= g < slots@.len() ==> slots@[g] == Some(
                            all[all.len() - 1 - g],
                        ),
                    forall|g: int| 0 <= g < out@.len() ==> out@[g] == Some(all[g]),
                decreases slots@.len(),
            {
                let x = slots.pop().unwrap();
                out.push(x);
            }
            proof {
                assert(out@ =~= expected);
            }
            out
        },
        _ => {
            proof {
                assert(false);
            }
            Vec::new()
        },
    }
}

} // verus!
verus! {

/// Two numbers are written alike.
pub open spec fn same_number(a: JsonNumber, b: JsonNumber) -> bool {
    match (a, b) {
        (JsonNumber::PosInt(x), JsonNumber::PosInt(y)) => x == y,
        (JsonNumber::NegInt(x), JsonNumber::NegInt(y)) => x == y,
        (JsonNumber::Float(x), JsonNumber::Float(y)) => x@ == y@,
        _ => false,
    }
}

/// Two values are the same: same kind, same contents, members in the same order.
pub open spec fn same_json(a: JsonValue, b: JsonValue) -> bool
    decreases a,
{
    match (a, b) {
        (JsonValue::Null, JsonValue::Null) => true,
        (JsonValue::Bool(x), JsonValue::Bool(y)) => x == y,
        (JsonValue::Number(x), JsonValue::Number(y)) => same_number(x, y),
        (JsonValue::String(x), JsonValue::String(y)) => x@ == y@,
        (JsonValue::Array(x), JsonValue::Array(y)) => x@.len() == y@.len() && forall|i: int|
            0 <= i < x@.len() ==> same_json(#[trigger] x@[i], y@[i]),
        (JsonValue::Object(x), JsonValue::Object(y)) => x@.len() == y@.len() && forall|i: int|
            0 <= i < x@.len() ==> (#[trigger] x@[i]).0@ == y@[i].0@ && same_json(x@[i].1, y@[i].1),
        _ => false,
    }
}

} // verus!
verus! {

/// Whether two values are the same (see [`same_json`]).
pub fn json_eq(a: &JsonValue, b: &JsonValue) -> (r: bool)
    ensures
        r == same_json(*a, *b),
    decreases a,
{
    match (a, b) {
        (JsonValue::Null, JsonValue::Null) => true,
        (JsonValue::Bool(x), JsonValue::Bool(y)) => *x == *y,
        (JsonValue::Number(x), JsonValue::Number(y)) => match (x, y) {
            (JsonNumber::PosInt(p), JsonNumber::PosInt(q)) => *p == *q,
            (JsonNumber::NegInt(p), JsonNumber::NegInt(q)) => *p == *q,
            (JsonNumber::Float(p), JsonNumber::Float(q)) => str_eq(p.as_str(), q.as_str()),
            _ => false,
        },
        (JsonValue::String(x), JsonValue::String(y)) => str_eq(x.as_str(), y.as_str()),
        (JsonValue::Array(x), JsonValue::Array(y)) => {
            if x.len() != y.len() {
                return false;
            }
            let mut i: usize = 0;
            while i < x.len()
                invariant
                    i <= x@.len(),
                    x@.len() == y@.len(),
                    *a == JsonValue::Array(*x),
                    *b == JsonValue::Array(*y),
                    forall|j: int| 0 <= j < i ==> same_json(#[trigger] x@[j], y@[j]),
                decreases x@.len() - i,
            {
                proof {
                    assert(decreases_to!(*a => (*a)->Array_0));
                    assert(decreases_to!(*x => x@));
                    assert(decreases_to!(x@ => x@[i as int]));
                }
                if !json_eq(&x[i], &y[i]) {
                    return false;
                }
                i = i + 1;
            }
            true
        },
        (JsonValue::Object(x), JsonValue::Object(y)) => {
            if x.len() != y.len() {
                return false;
            }
            let mut i: usize = 0;
            while i < x.len()
                invariant
                    i <= x@.len(),
                    x@.len() == y@.len(),
                    *a == JsonValue::Object(*x),
                    *b == JsonValue::Object(*y),
                    forall|j: int|
                        0 <= j < i ==> (#[trigger] x@[j]).0@ == y@[j].0@ && same_json(
                            x@[j].1,
                            y@[j].1,
                        ),
                decreases x@.len() - i,
            {
                if !str_eq(x[i].0.as_str(), y[i].0.as_str()) {
                    return false;
                }
                proof {
                    assert(decreases_to!(*a => (*a)->Object_0));
                    assert(decreases_to!(*x => x@));
                    assert(decreases_to!(x@ => x@[i as int]));
                    assert(decreases_to!(x@[i as int] => x@[i as int].1));
                }
                if !json_eq(&x[i].1, &y[i].1) {
                    return false;
                }
                i = i + 1;
            }
            true
        },
        _ => false,
    }
}

} // verus!
