//! JSON text, read by serde_json into a tree of plain values.

use crate::doc::DateTime;
use vstd::prelude::*;
use vstd::string::StringExecFns;

verus! {

/// A JSON number as the three readings serde_json offers of it: as a signed
/// integer, as an unsigned integer and as a binary64 number (bit pattern),
/// each absent where the number has no such reading.
#[derive(Debug)]
pub struct JsonNumber {
    pub as_i64: Option<i64>,
    pub as_u64: Option<u64>,
    pub as_float: Option<u64>,
}

/// A JSON value. An object lists its members in serde_json's order (by key),
/// each key once.
#[derive(Debug)]
pub enum Json {
    Null,
    Bool(bool),
    Number(JsonNumber),
    String(String),
    Array(Vec<Json>),
    Object(Vec<(String, Json)>),
}

/// The tree serde_json reads from the text `text`, or `None` where serde_json
/// rejects it (text that is not JSON, nesting deeper than serde_json's limit,
/// a number out of range).
pub uninterp spec fn parsed_json(text: Seq<char>) -> Option<Json>;

/// Relies on `serde_json::from_str` into a `serde_json::Value`: the tree it
/// gives depends on the text alone (objects are ordered maps); where it
/// rejects the text, it fails with a message.
#[verifier::external_body]
pub(crate) fn parse_json(text: &str) -> (r: Result<Json, String>)
    ensures
        match r {
            Ok(j) => parsed_json(text@) == Some(j),
            Err(_) => parsed_json(text@) is None,
        },
{
    serde_json::from_str::<serde_json::Value>(text).map(json_from_value).map_err(|e| e.to_string())
}

/// A tree that serde_json has read; only `json_from_value` looks inside.
#[verifier::external_type_specification]
#[verifier::external_body]
pub struct ExJsonValue(serde_json::Value);

/// Relies on the variants of `serde_json::Value` and on `Number::as_i64`,
/// `as_u64` and `as_f64`: copies a parsed tree node for node, for
/// `parse_json` above.
#[verifier::external_body]
fn json_from_value(v: serde_json::Value) -> Json {
    match v {
        serde_json::Value::Null => Json::Null,
        serde_json::Value::Bool(b) => Json::Bool(b),
        serde_json::Value::Number(n) => Json::Number(JsonNumber {
            as_i64: n.as_i64(),
            as_u64: n.as_u64(),
            as_float: n.as_f64().map(|x| x.to_bits()),
        }),
        serde_json::Value::String(s) => Json::String(s),
        serde_json::Value::Array(a) => Json::Array(a.into_iter().map(json_from_value).collect()),
        serde_json::Value::Object(m) => Json::Object(m.into_iter().map(|(k, x)| (k, json_from_value(x))).collect()),
    }
}

/// The instant that RFC 3339 text `s` denotes, or `None` where chrono does
/// not accept it.
pub uninterp spec fn rfc3339_instant(s: Seq<char>) -> Option<DateTime>;

/// Relies on chrono's `DateTime::parse_from_rfc3339`, read back through
/// `timestamp` and `timestamp_subsec_nanos`: the instant depends on the text
/// alone; it fails exactly when chrono rejects the text, with a message.
#[verifier::external_body]
pub(crate) fn parse_rfc3339(s: &str) -> (r: Result<DateTime, String>)
    ensures
        match r {
            Ok(t) => rfc3339_instant(s@) == Some(t),
            Err(_) => rfc3339_instant(s@) is None,
        },
{
    chrono::DateTime::parse_from_rfc3339(s).map(|d| DateTime { secs: d.timestamp(), nanos: d.timestamp_subsec_nanos() }).map_err(|e| e.to_string())
}

/// Position of the first member of `members` named `key`, or -1 where no
/// member has that name.
pub open spec fn member_index(members: Seq<(String, Json)>, key: Seq<char>) -> int
    decreases members.len(),
{
    if members.len() == 0 {
        -1
    } else if members[0].0@ == key {
        0
    } else {
        let k = member_index(members.subrange(1, members.len() as int), key);
        if k < 0 {
            -1
        } else {
            k + 1
        }
    }
}

/// Position of the first member of `members` named `key`.
pub fn find_member(members: &Vec<(String, Json)>, key: &str) -> (r: Option<usize>)
    ensures
        match r {
            Some(k) => member_index(members@, key@) == k as int && k < members.len(),
            None => member_index(members@, key@) == -1,
        },
{
    let wanted = String::from_str(key);
    let mut i: usize = 0;
    while i < members.len()
        invariant
            i <= members.len(),
            wanted@ == key@,
            forall|j: int| 0 <= j < i ==> #[trigger] members@[j].0@ != key@,
        decreases members.len() - i,
    {
        if members[i].0 == wanted {
            proof {
                lemma_first_member(members@, key@, i as int);
            }
            return Some(i);
        }
        i = i + 1;
    }
    proof {
        lemma_no_member(members@, key@);
    }
    None
}

proof fn lemma_first_member(members: Seq<(String, Json)>, key: Seq<char>, i: int)
    requires
        0 <= i < members.len(),
        members[i].0@ == key,
        forall|j: int| 0 <= j < i ==> #[trigger] members[j].0@ != key,
    ensures
        member_index(members, key) == i,
    decreases i,
{
    if i > 0 {
        let rest = members.subrange(1, members.len() as int);
        assert forall|j: int| 0 <= j < i - 1 implies #[trigger] rest[j].0@ != key by {
            assert(rest[j] == members[j + 1]);
        }
        lemma_first_member(rest, key, i - 1);
    }
}

proof fn lemma_no_member(members: Seq<(String, Json)>, key: Seq<char>)
    requires
        forall|j: int| 0 <= j < members.len() ==> #[trigger] members[j].0@ != key,
    ensures
        member_index(members, key) == -1,
    decreases members.len(),
{
    if members.len() > 0 {
        let rest = members.subrange(1, members.len() as int);
        assert forall|j: int| 0 <= j < rest.len() implies #[trigger] rest[j].0@ != key by {
            assert(rest[j] == members[j + 1]);
        }
        lemma_no_member(rest, key);
    }
}

} // verus!
