//! Reading values, documents and conditions from their JSON form.
//!
//! A value is an object with one recognised member naming its variant (or
//! JSON `null`); a document is an object whose `fields` member is an array of
//! values; a condition is an object whose first member names an operator, a
//! projection or a combinator. The spec functions below say which value,
//! document or condition a JSON tree stands for; a tree that none satisfies is
//! rejected with a message.

use crate::error::message_of;
use crate::cond::{eval, match_conditions, well_formed, CompoundOp, Condition, Op};
use crate::doc::{DateTime, Doc, Field, Status};
use crate::json::{find_member, member_index, parse_json, parse_rfc3339, parsed_json, rfc3339_instant, Json};
use vstd::prelude::*;
use vstd::string::StringExecFns;

verus! {

/// The value of the first member of `ms` named `key`.
pub open spec fn slot(ms: Seq<(String, Json)>, key: Seq<char>) -> Option<Json> {
    let k = member_index(ms, key);
    if 0 <= k < ms.len() {
        Some(ms[k].1)
    } else {
        None
    }
}

/// `ms` has a member named `key`.
pub open spec fn has(ms: Seq<(String, Json)>, key: Seq<char>) -> bool {
    member_index(ms, key) >= 0
}

/// Every item is a JSON boolean.
pub open spec fn all_bools(items: Seq<Json>) -> bool {
    forall|i: int| 0 <= i < items.len() ==> items[i] is Bool
}

/// Every item is a JSON number with a signed 64-bit reading.
pub open spec fn all_ints(items: Seq<Json>) -> bool {
    forall|i: int| 0 <= i < items.len() ==> items[i] is Number && items[i]->Number_0.as_i64 is Some
}

/// Every item is a JSON number with a binary64 reading.
pub open spec fn all_floats(items: Seq<Json>) -> bool {
    forall|i: int|
        0 <= i < items.len() ==> items[i] is Number && items[i]->Number_0.as_float is Some
}

/// Every item is a JSON string.
pub open spec fn all_strings(items: Seq<Json>) -> bool {
    forall|i: int| 0 <= i < items.len() ==> items[i] is String
}

/// The instants that the items denote; `None` where an item is not a string
/// holding an RFC 3339 instant.
pub open spec fn instants_of(items: Seq<Json>) -> Option<Seq<DateTime>>
    decreases items.len(),
{
    if items.len() == 0 {
        Some(Seq::empty())
    } else {
        match instants_of(items.drop_last()) {
            Some(done) => match items.last() {
                Json::String(s) => match rfc3339_instant(s@) {
                    Some(t) => Some(done.push(t)),
                    None => None,
                },
                _ => None,
            },
            None => None,
        }
    }
}

/// Every item is JSON `null` or an element of a `OptionalBoolArray`.
pub open spec fn all_opt_bools(items: Seq<Json>) -> bool {
    forall|i: int| 0 <= i < items.len() ==> items[i] is Null || items[i] is Bool
}

/// The elements that the items of a `OptionalBoolArray` stand for.
pub open spec fn opt_bools_of(items: Seq<Json>) -> Seq<Option<bool>> {
    items.map_values(|x: Json| if x is Null { None } else { Some(x->Bool_0) })
}

/// Every item is JSON `null` or an element of a `OptionalIntArray`.
pub open spec fn all_opt_ints(items: Seq<Json>) -> bool {
    forall|i: int| 0 <= i < items.len() ==> items[i] is Null || (items[i] is Number && items[i]->Number_0.as_i64 is Some)
}

/// The elements that the items of a `OptionalIntArray` stand for.
pub open spec fn opt_ints_of(items: Seq<Json>) -> Seq<Option<i64>> {
    items.map_values(|x: Json| if x is Null { None } else { x->Number_0.as_i64 })
}

/// Every item is JSON `null` or an element of a `OptionalFloatArray`.
pub open spec fn all_opt_floats(items: Seq<Json>) -> bool {
    forall|i: int| 0 <= i < items.len() ==> items[i] is Null || (items[i] is Number && items[i]->Number_0.as_float is Some)
}

/// The elements that the items of a `OptionalFloatArray` stand for.
pub open spec fn opt_floats_of(items: Seq<Json>) -> Seq<Option<u64>> {
    items.map_values(|x: Json| if x is Null { None } else { x->Number_0.as_float })
}

/// Every item is JSON `null` or an element of a `OptionalStringArray`.
pub open spec fn all_opt_strings(items: Seq<Json>) -> bool {
    forall|i: int| 0 <= i < items.len() ==> items[i] is Null || items[i] is String
}

/// The elements that the items of a `OptionalStringArray` stand for.
pub open spec fn opt_strings_of(items: Seq<Json>) -> Seq<Option<String>> {
    items.map_values(|x: Json| if x is Null { None } else { Some(x->String_0) })
}

/// Every item is JSON `null` or an element of a `OptionalDateTimeArray`.
pub open spec fn all_opt_instants(items: Seq<Json>) -> bool {
    forall|i: int| 0 <= i < items.len() ==> items[i] is Null || (items[i] is String && rfc3339_instant(items[i]->String_0@) is Some)
}

/// The elements that the items of a `OptionalDateTimeArray` stand for.
pub open spec fn opt_instants_of(items: Seq<Json>) -> Seq<Option<DateTime>> {
    items.map_values(|x: Json| if x is Null { None } else { rfc3339_instant(x->String_0@) })
}

/// `f` is the value that the JSON tree `j` stands for; with `whole_doc`,
/// `f` is `Field::Doc(d)` for the document `d` that `j` stands for.
pub open spec fn decodes(j: Json, f: Field, whole_doc: bool) -> bool
    decreases j,
{
    if whole_doc {
        match (j, f) {
            (Json::Object(m), Field::Doc(d)) => {
                let ms = m@;
                let k = member_index(ms, "fields"@);
                &&& 0 <= k < ms.len()
                &&& ms[k].1 is Array
                &&& !d.hidden
                &&& d.status == Status::Active
                &&& d.schema_version_id@.len() == 0
                &&& d.fields.len() == ms[k].1->Array_0.len()
                &&& forall|i: int|
                    0 <= i < d.fields.len() ==> decodes(
                        ms[k].1->Array_0@[i],
                        #[trigger] d.fields@[i],
                        false,
                    )
            },
            _ => false,
        }
    } else {
        match j {
            Json::Null => f is Null,
            Json::Object(m) => {
                let ms = m@;
                if has(ms, "Null"@) {
                    f is Null
                } else if has(ms, "Bool"@) {
                    match slot(ms, "Bool"@) {
                        Some(Json::Bool(b)) => f == Field::Bool(b),
                        _ => false,
                    }
                } else if has(ms, "Int"@) {
                    match slot(ms, "Int"@) {
                        Some(Json::Number(n)) => n.as_i64 is Some && f == Field::Int(n.as_i64->0),
                        _ => false,
                    }
                } else if has(ms, "Float"@) {
                    match slot(ms, "Float"@) {
                        Some(Json::Number(n)) => n.as_float is Some && f == Field::Float(n.as_float->0),
                        _ => false,
                    }
                } else if has(ms, "String"@) {
                    match slot(ms, "String"@) {
                        Some(Json::String(s)) => f == Field::String(s),
                        _ => false,
                    }
                } else if has(ms, "DateTime"@) {
                    match slot(ms, "DateTime"@) {
                        Some(Json::String(s)) => rfc3339_instant(s@) is Some && f == Field::DateTime(
                            rfc3339_instant(s@)->0,
                        ),
                        _ => false,
                    }
                } else if has(ms, "Doc"@) {
                    let k = member_index(ms, "Doc"@);
                    0 <= k < ms.len() && ms[k].1 is Object && f is Doc && decodes(ms[k].1, f, true)
                } else if has(ms, "BoolArray"@) {
                    match slot(ms, "BoolArray"@) {
                        Some(Json::Array(items)) => all_bools(items@) && f is BoolArray
                            && f->BoolArray_0@ == items@.map_values(|x: Json| x->Bool_0),
                        _ => false,
                    }
                } else if has(ms, "IntArray"@) {
                    match slot(ms, "IntArray"@) {
                        Some(Json::Array(items)) => all_ints(items@) && f is IntArray
                            && f->IntArray_0@ == items@.map_values(|x: Json| x->Number_0.as_i64->0),
                        _ => false,
                    }
                } else if has(ms, "FloatArray"@) {
                    match slot(ms, "FloatArray"@) {
                        Some(Json::Array(items)) => all_floats(items@) && f is FloatArray
                            && f->FloatArray_0@ == items@.map_values(|x: Json| x->Number_0.as_float->0),
                        _ => false,
                    }
                } else if has(ms, "StringArray"@) {
                    match slot(ms, "StringArray"@) {
                        Some(Json::Array(items)) => all_strings(items@) && f is StringArray
                            && f->StringArray_0@ == items@.map_values(|x: Json| x->String_0),
                        _ => false,
                    }
                } else if has(ms, "DateTimeArray"@) {
                    match slot(ms, "DateTimeArray"@) {
                        Some(Json::Array(items)) => instants_of(items@) is Some && f is DateTimeArray
                            && f->DateTimeArray_0@ == instants_of(items@)->0,
                        _ => false,
                    }
                } else if has(ms, "DocArray"@) {
                    let k = member_index(ms, "DocArray"@);
                    &&& 0 <= k < ms.len()
                    &&& ms[k].1 is Array
                    &&& f is DocArray
                    &&& f->DocArray_0.len() == ms[k].1->Array_0.len()
                    &&& forall|i: int|
                        0 <= i < ms[k].1->Array_0.len() ==> (#[trigger] ms[k].1->Array_0@[i]) is Object
                            && decodes(ms[k].1->Array_0@[i], Field::Doc(f->DocArray_0@[i]), true)
                } else if has(ms, "OptionalBool"@) {
                    match slot(ms, "OptionalBool"@) {
                        Some(Json::Null) => f == Field::OptionalBool(None),
                        Some(Json::Bool(b)) => f == Field::OptionalBool(Some(b)),
                        _ => false,
                    }
                } else if has(ms, "OptionalInt"@) {
                    match slot(ms, "OptionalInt"@) {
                        Some(Json::Null) => f == Field::OptionalInt(None),
                        Some(Json::Number(n)) => n.as_i64 is Some && f == Field::OptionalInt(n.as_i64),
                        _ => false,
                    }
                } else if has(ms, "OptionalFloat"@) {
                    match slot(ms, "OptionalFloat"@) {
                        Some(Json::Null) => f == Field::OptionalFloat(None),
                        Some(Json::Number(n)) => n.as_float is Some && f == Field::OptionalFloat(
                            n.as_float,
                        ),
                        _ => false,
                    }
                } else if has(ms, "OptionalString"@) {
                    match slot(ms, "OptionalString"@) {
                        Some(Json::Null) => f == Field::OptionalString(None),
                        Some(Json::String(s)) => f == Field::OptionalString(Some(s)),
                        _ => false,
                    }
                } else if has(ms, "OptionalDateTime"@) {
                    match slot(ms, "OptionalDateTime"@) {
                        Some(Json::Null) => f == Field::OptionalDateTime(None),
                        Some(Json::String(s)) => rfc3339_instant(s@) is Some && f
                            == Field::OptionalDateTime(rfc3339_instant(s@)),
                        _ => false,
                    }
                } else if has(ms, "OptionalBoolArray"@) {
                    match slot(ms, "OptionalBoolArray"@) {
                        Some(Json::Array(items)) => all_opt_bools(items@) && f is OptionalBoolArray
                            && f->OptionalBoolArray_0@ == opt_bools_of(items@),
                        _ => false,
                    }
                } else if has(ms, "OptionalIntArray"@) {
                    match slot(ms, "OptionalIntArray"@) {
                        Some(Json::Array(items)) => all_opt_ints(items@) && f is OptionalIntArray
                            && f->OptionalIntArray_0@ == opt_ints_of(items@),
                        _ => false,
                    }
                } else if has(ms, "OptionalFloatArray"@) {
                    match slot(ms, "OptionalFloatArray"@) {
                        Some(Json::Array(items)) => all_opt_floats(items@) && f is OptionalFloatArray
                            && f->OptionalFloatArray_0@ == opt_floats_of(items@),
                        _ => false,
                    }
                } else if has(ms, "OptionalStringArray"@) {
                    match slot(ms, "OptionalStringArray"@) {
                        Some(Json::Array(items)) => all_opt_strings(items@) && f is OptionalStringArray
                            && f->OptionalStringArray_0@ == opt_strings_of(items@),
                        _ => false,
                    }
                } else if has(ms, "OptionalDateTimeArray"@) {
                    match slot(ms, "OptionalDateTimeArray"@) {
                        Some(Json::Array(items)) => all_opt_instants(items@) && f is OptionalDateTimeArray
                            && f->OptionalDateTimeArray_0@ == opt_instants_of(items@),
                        _ => false,
                    }
                } else {
                    false
                }
            },
            _ => false,
        }
    }
}

/// `f` is the value that the JSON tree `j` stands for.
pub open spec fn field_decodes(j: Json, f: Field) -> bool {
    decodes(j, f, false)
}

/// `d` is the document that the JSON tree `j` stands for: visible, active,
/// with no schema version, and one field for each item of its `fields`.
pub open spec fn doc_decodes(j: Json, d: Doc) -> bool {
    decodes(j, Field::Doc(d), true)
}

/// The comparison operator that a condition member named `key` introduces.
pub open spec fn op_named(key: Seq<char>) -> Option<Op> {
    if key == "EQ"@ {
        Some(Op::EQ)
    } else if key == "NE"@ {
        Some(Op::NE)
    } else if key == "GT"@ {
        Some(Op::GT)
    } else if key == "GE"@ {
        Some(Op::GE)
    } else if key == "LT"@ {
        Some(Op::LT)
    } else if key == "LE"@ {
        Some(Op::LE)
    } else if key == "IN"@ {
        Some(Op::IN)
    } else if key == "NIN"@ {
        Some(Op::NIN)
    } else if key == "LIKE"@ {
        Some(Op::LIKE)
    } else if key == "NLIKE"@ {
        Some(Op::NLIKE)
    } else if key == "ILIKE"@ {
        Some(Op::ILIKE)
    } else if key == "NILIKE"@ {
        Some(Op::NILIKE)
    } else {
        None
    }
}

/// `c` is the condition that the members of the JSON object `j` stand for,
/// reading from member `start` on: the first member read decides, except a
/// `PROP` member whose value is not an object, which is passed over.
pub open spec fn member_decodes(j: Json, start: int, c: Condition) -> bool
    decreases j, (if j is Object {
        j->Object_0.len() - start
    } else {
        0
    }),
{
    match j {
        Json::Object(m) => {
            let ms = m@;
            if start < 0 || start >= ms.len() {
                false
            } else {
                let key = ms[start].0@;
                let v = ms[start].1;
                if op_named(key) is Some {
                    c is Op && c->Op_0 == op_named(key)->0 && field_decodes(v, c->Op_1)
                } else if key == "PROP"@ {
                    if v is Object {
                        let pm = v->Object_0@;
                        let ki = member_index(pm, "index"@);
                        let kc = member_index(pm, "condition"@);
                        &&& 0 <= ki < pm.len()
                        &&& 0 <= kc < pm.len()
                        &&& pm[ki].1 is Number
                        &&& pm[ki].1->Number_0.as_u64 is Some
                        &&& c is Prop
                        &&& c->Prop_0 == (pm[ki].1->Number_0.as_u64->0) as usize
                        &&& member_decodes(pm[kc].1, 0, *c->Prop_1)
                    } else {
                        member_decodes(j, start + 1, c)
                    }
                } else if key == "AND"@ || key == "OR"@ {
                    &&& v is Array
                    &&& c is CompoundOp
                    &&& c->CompoundOp_0 == (if key == "AND"@ {
                        CompoundOp::AND
                    } else {
                        CompoundOp::OR
                    })
                    &&& c->CompoundOp_1.len() == v->Array_0.len()
                    &&& forall|i: int|
                        0 <= i < c->CompoundOp_1.len() ==> member_decodes(
                            #[trigger] v->Array_0@[i],
                            0,
                            c->CompoundOp_1@[i],
                        )
                } else if key == "NOT"@ {
                    &&& c is CompoundOp
                    &&& c->CompoundOp_0 == CompoundOp::NOT
                    &&& c->CompoundOp_1.len() == 1
                    &&& member_decodes(v, 0, c->CompoundOp_1@[0])
                } else {
                    false
                }
            }
        },
        _ => false,
    }
}

/// `c` is the condition that the JSON tree `j` stands for.
pub open spec fn cond_decodes(j: Json, c: Condition) -> bool {
    member_decodes(j, 0, c)
}

/// `v` is what the JSON tree `j` stands for as the value under test: the
/// document, where `j` is one, and the value otherwise.
pub open spec fn value_decodes(j: Json, v: Field) -> bool {
    ||| (v is Doc && doc_decodes(j, v->Doc_0))
    ||| ((forall|d: Doc| !doc_decodes(j, d)) && field_decodes(j, v))
}

/// `c` and `v` are what the JSON texts `cond_text` and `value_text` stand for.
pub open spec fn texts_decode(
    cond_text: Seq<char>,
    value_text: Seq<char>,
    c: Condition,
    v: Field,
) -> bool {
    &&& parsed_json(cond_text) is Some
    &&& cond_decodes(parsed_json(cond_text)->0, c)
    &&& parsed_json(value_text) is Some
    &&& value_decodes(parsed_json(value_text)->0, v)
}

fn text(s: &str) -> (r: String)
    ensures
        r@ == s@,
{
    String::from_str(s)
}

fn bools_from(items: &Vec<Json>) -> (r: Option<Vec<bool>>)
    ensures
        match r {
            Some(v) => all_bools(items@) && v@ == items@.map_values(|x: Json| x->Bool_0),
            None => !all_bools(items@),
        },
{
    let mut out: Vec<bool> = Vec::new();
    let mut i: usize = 0;
    while i < items.len()
        invariant
            i <= items.len(),
            all_bools(items@.subrange(0, i as int)),
            out@ == items@.subrange(0, i as int).map_values(|x: Json| x->Bool_0),
        decreases items.len() - i,
    {
        match &items[i] {
            Json::Bool(b) => out.push(*b),
            _ => {
                return None;
            },
        }
        i = i + 1;
        proof {
            assert(items@.subrange(0, i as int).drop_last() =~= items@.subrange(0, i - 1));
            assert(out@ =~= items@.subrange(0, i as int).map_values(|x: Json| x->Bool_0));
            assert(all_bools(items@.subrange(0, i as int))) by {
                assert forall|j: int| 0 <= j < i implies items@.subrange(0, i as int)[j] is Bool by {
                    if j < i - 1 {
                        assert(items@.subrange(0, i as int)[j] == items@.subrange(0, i - 1)[j]);
                    }
                }
            }
        }
    }
    proof {
        assert(items@.subrange(0, i as int) =~= items@);
    }
    Some(out)
}

fn ints_from(items: &Vec<Json>) -> (r: Option<Vec<i64>>)
    ensures
        match r {
            Some(v) => all_ints(items@) && v@ == items@.map_values(|x: Json| x->Number_0.as_i64->0),
            None => !all_ints(items@),
        },
{
    let mut out: Vec<i64> = Vec::new();
    let mut i: usize = 0;
    while i < items.len()
        invariant
            i <= items.len(),
            all_ints(items@.subrange(0, i as int)),
            out@ == items@.subrange(0, i as int).map_values(|x: Json| x->Number_0.as_i64->0),
        decreases items.len() - i,
    {
        match &items[i] {
            Json::Number(n) => match n.as_i64 {
                Some(x) => out.push(x),
                None => {
                    return None;
                },
            },
            _ => {
                return None;
            },
        }
        i = i + 1;
        proof {
            assert(out@ =~= items@.subrange(0, i as int).map_values(|x: Json| x->Number_0.as_i64->0));
            assert(all_ints(items@.subrange(0, i as int))) by {
                assert forall|j: int| 0 <= j < i implies items@.subrange(0, i as int)[j] is Number
                    && items@.subrange(0, i as int)[j]->Number_0.as_i64 is Some by {
                    if j < i - 1 {
                        assert(items@.subrange(0, i as int)[j] == items@.subrange(0, i - 1)[j]);
                    }
                }
            }
        }
    }
    proof {
        assert(items@.subrange(0, i as int) =~= items@);
    }
    Some(out)
}

fn floats_from(items: &Vec<Json>) -> (r: Option<Vec<u64>>)
    ensures
        match r {
            Some(v) => all_floats(items@) && v@ == items@.map_values(|x: Json| x->Number_0.as_float->0),
            None => !all_floats(items@),
        },
{
    let mut out: Vec<u64> = Vec::new();
    let mut i: usize = 0;
    while i < items.len()
        invariant
            i <= items.len(),
            all_floats(items@.subrange(0, i as int)),
            out@ == items@.subrange(0, i as int).map_values(|x: Json| x->Number_0.as_float->0),
        decreases items.len() - i,
    {
        match &items[i] {
            Json::Number(n) => match n.as_float {
                Some(x) => out.push(x),
                None => {
                    return None;
                },
            },
            _ => {
                return None;
            },
        }
        i = i + 1;
        proof {
            assert(out@ =~= items@.subrange(0, i as int).map_values(|x: Json| x->Number_0.as_float->0));
            assert(all_floats(items@.subrange(0, i as int))) by {
                assert forall|j: int| 0 <= j < i implies items@.subrange(0, i as int)[j] is Number
                    && items@.subrange(0, i as int)[j]->Number_0.as_float is Some by {
                    if j < i - 1 {
                        assert(items@.subrange(0, i as int)[j] == items@.subrange(0, i - 1)[j]);
                    }
                }
            }
        }
    }
    proof {
        assert(items@.subrange(0, i as int) =~= items@);
    }
    Some(out)
}

fn strings_from(items: &Vec<Json>) -> (r: Option<Vec<String>>)
    ensures
        match r {
            Some(v) => all_strings(items@) && v@ == items@.map_values(|x: Json| x->String_0),
            None => !all_strings(items@),
        },
{
    let mut out: Vec<String> = Vec::new();
    let mut i: usize = 0;
    while i < items.len()
        invariant
            i <= items.len(),
            all_strings(items@.subrange(0, i as int)),
            out@ == items@.subrange(0, i as int).map_values(|x: Json| x->String_0),
        decreases items.len() - i,
    {
        match &items[i] {
            Json::String(x) => out.push(x.clone()),
            _ => {
                return None;
            },
        }
        i = i + 1;
        proof {
            assert(out@ =~= items@.subrange(0, i as int).map_values(|x: Json| x->String_0));
            assert(all_strings(items@.subrange(0, i as int))) by {
                assert forall|j: int| 0 <= j < i implies items@.subrange(0, i as int)[j] is String by {
                    if j < i - 1 {
                        assert(items@.subrange(0, i as int)[j] == items@.subrange(0, i - 1)[j]);
                    }
                }
            }
        }
    }
    proof {
        assert(items@.subrange(0, i as int) =~= items@);
    }
    Some(out)
}

proof fn lemma_instants_fail_extends(items: Seq<Json>, i: int)
    requires
        0 <= i <= items.len(),
        instants_of(items.subrange(0, i)) is None,
    ensures
        instants_of(items) is None,
    decreases items.len() - i,
{
    if i < items.len() {
        assert(items.subrange(0, i + 1).drop_last() =~= items.subrange(0, i));
        lemma_instants_fail_extends(items, i + 1);
    } else {
        assert(items.subrange(0, i) =~= items);
    }
}

fn instants_from(items: &Vec<Json>) -> (r: Result<Vec<DateTime>, String>)
    ensures
        match r {
            Ok(v) => instants_of(items@) == Some(v@),
            Err(_) => instants_of(items@) is None,
        },
{
    let mut out: Vec<DateTime> = Vec::new();
    let mut i: usize = 0;
    proof {
        assert(items@.subrange(0, 0) =~= Seq::<Json>::empty());
    }
    while i < items.len()
        invariant
            i <= items.len(),
            instants_of(items@.subrange(0, i as int)) == Some(out@),
        decreases items.len() - i,
    {
        proof {
            assert(items@.subrange(0, i + 1).drop_last() =~= items@.subrange(0, i as int));
        }
        match &items[i] {
            Json::String(s) => match parse_rfc3339(s.as_str()) {
                Ok(t) => out.push(t),
                Err(e) => {
                    proof {
                        lemma_instants_fail_extends(items@, i + 1);
                    }
                    return Err(e);
                },
            },
            _ => {
                proof {
                    lemma_instants_fail_extends(items@, i + 1);
                }
                return Err(text("Expected a string in DateTimeArray"));
            },
        }
        i = i + 1;
    }
    proof {
        assert(items@.subrange(0, i as int) =~= items@);
    }
    Ok(out)
}

fn opt_bools_from(items: &Vec<Json>) -> (r: Option<Vec<Option<bool>>>)
    ensures
        match r {
            Some(v) => all_opt_bools(items@) && v@ == opt_bools_of(items@),
            None => !all_opt_bools(items@),
        },
{
    let mut out: Vec<Option<bool>> = Vec::new();
    let mut i: usize = 0;
    while i < items.len()
        invariant
            i <= items.len(),
            all_opt_bools(items@.subrange(0, i as int)),
            out@ == opt_bools_of(items@.subrange(0, i as int)),
        decreases items.len() - i,
    {
        match &items[i] {
            Json::Null => out.push(None),
            Json::Bool(b) => out.push(Some(*b)),
            _ => {
                return None;
            },
        }
        i = i + 1;
        proof {
            assert(out@ =~= opt_bools_of(items@.subrange(0, i as int)));
            assert(all_opt_bools(items@.subrange(0, i as int))) by {
                assert forall|j: int| 0 <= j < i implies items@.subrange(0, i as int)[j] is Null || items@.subrange(0, i as int)[j] is Bool by {
                    if j < i - 1 {
                        assert(items@.subrange(0, i as int)[j] == items@.subrange(0, i - 1)[j]);
                    }
                }
            }
        }
    }
    proof {
        assert(items@.subrange(0, i as int) =~= items@);
    }
    Some(out)
}

fn opt_ints_from(items: &Vec<Json>) -> (r: Option<Vec<Option<i64>>>)
    ensures
        match r {
            Some(v) => all_opt_ints(items@) && v@ == opt_ints_of(items@),
            None => !all_opt_ints(items@),
        },
{
    let mut out: Vec<Option<i64>> = Vec::new();
    let mut i: usize = 0;
    while i < items.len()
        invariant
            i <= items.len(),
            all_opt_ints(items@.subrange(0, i as int)),
            out@ == opt_ints_of(items@.subrange(0, i as int)),
        decreases items.len() - i,
    {
        match &items[i] {
            Json::Null => out.push(None),
            Json::Number(n) if n.as_i64.is_some() => out.push(n.as_i64),
            _ => {
                return None;
            },
        }
        i = i + 1;
        proof {
            assert(out@ =~= opt_ints_of(items@.subrange(0, i as int)));
            assert(all_opt_ints(items@.subrange(0, i as int))) by {
                assert forall|j: int| 0 <= j < i implies items@.subrange(0, i as int)[j] is Null || (items@.subrange(0, i as int)[j] is Number && items@.subrange(0, i as int)[j]->Number_0.as_i64 is Some) by {
                    if j < i - 1 {
                        assert(items@.subrange(0, i as int)[j] == items@.subrange(0, i - 1)[j]);
                    }
                }
            }
        }
    }
    proof {
        assert(items@.subrange(0, i as int) =~= items@);
    }
    Some(out)
}

fn opt_floats_from(items: &Vec<Json>) -> (r: Option<Vec<Option<u64>>>)
    ensures
        match r {
            Some(v) => all_opt_floats(items@) && v@ == opt_floats_of(items@),
            None => !all_opt_floats(items@),
        },
{
    let mut out: Vec<Option<u64>> = Vec::new();
    let mut i: usize = 0;
    while i < items.len()
        invariant
            i <= items.len(),
            all_opt_floats(items@.subrange(0, i as int)),
            out@ == opt_floats_of(items@.subrange(0, i as int)),
        decreases items.len() - i,
    {
        match &items[i] {
            Json::Null => out.push(None),
            Json::Number(n) if n.as_float.is_some() => out.push(n.as_float),
            _ => {
                return None;
            },
        }
        i = i + 1;
        proof {
            assert(out@ =~= opt_floats_of(items@.subrange(0, i as int)));
            assert(all_opt_floats(items@.subrange(0, i as int))) by {
                assert forall|j: int| 0 <= j < i implies items@.subrange(0, i as int)[j] is Null || (items@.subrange(0, i as int)[j] is Number && items@.subrange(0, i as int)[j]->Number_0.as_float is Some) by {
                    if j < i - 1 {
                        assert(items@.subrange(0, i as int)[j] == items@.subrange(0, i - 1)[j]);
                    }
                }
            }
        }
    }
    proof {
        assert(items@.subrange(0, i as int) =~= items@);
    }
    Some(out)
}

fn opt_strings_from(items: &Vec<Json>) -> (r: Option<Vec<Option<String>>>)
    ensures
        match r {
            Some(v) => all_opt_strings(items@) && v@ == opt_strings_of(items@),
            None => !all_opt_strings(items@),
        },
{
    let mut out: Vec<Option<String>> = Vec::new();
    let mut i: usize = 0;
    while i < items.len()
        invariant
            i <= items.len(),
            all_opt_strings(items@.subrange(0, i as int)),
            out@ == opt_strings_of(items@.subrange(0, i as int)),
        decreases items.len() - i,
    {
        match &items[i] {
            Json::Null => out.push(None),
            Json::String(t) => out.push(Some(t.clone())),
            _ => {
                return None;
            },
        }
        i = i + 1;
        proof {
            assert(out@ =~= opt_strings_of(items@.subrange(0, i as int)));
            assert(all_opt_strings(items@.subrange(0, i as int))) by {
                assert forall|j: int| 0 <= j < i implies items@.subrange(0, i as int)[j] is Null || items@.subrange(0, i as int)[j] is String by {
                    if j < i - 1 {
                        assert(items@.subrange(0, i as int)[j] == items@.subrange(0, i - 1)[j]);
                    }
                }
            }
        }
    }
    proof {
        assert(items@.subrange(0, i as int) =~= items@);
    }
    Some(out)
}

fn opt_instants_from(items: &Vec<Json>) -> (r: Option<Vec<Option<DateTime>>>)
    ensures
        match r {
            Some(v) => all_opt_instants(items@) && v@ == opt_instants_of(items@),
            None => !all_opt_instants(items@),
        },
{
    let mut out: Vec<Option<DateTime>> = Vec::new();
    let mut i: usize = 0;
    while i < items.len()
        invariant
            i <= items.len(),
            all_opt_instants(items@.subrange(0, i as int)),
            out@ == opt_instants_of(items@.subrange(0, i as int)),
        decreases items.len() - i,
    {
        match &items[i] {
            Json::Null => out.push(None),
            Json::String(t) => match parse_rfc3339(t.as_str()) {
                Ok(d) => out.push(Some(d)),
                Err(_) => {
                    return None;
                },
            },
            _ => {
                return None;
            },
        }
        i = i + 1;
        proof {
            assert(out@ =~= opt_instants_of(items@.subrange(0, i as int)));
            assert(all_opt_instants(items@.subrange(0, i as int))) by {
                assert forall|j: int| 0 <= j < i implies items@.subrange(0, i as int)[j] is Null || (items@.subrange(0, i as int)[j] is String && rfc3339_instant(items@.subrange(0, i as int)[j]->String_0@) is Some) by {
                    if j < i - 1 {
                        assert(items@.subrange(0, i as int)[j] == items@.subrange(0, i - 1)[j]);
                    }
                }
            }
        }
    }
    proof {
        assert(items@.subrange(0, i as int) =~= items@);
    }
    Some(out)
}

/// The value that the JSON tree `j` stands for.
pub fn decode_field(j: &Json) -> (r: Result<Field, String>)
    ensures
        match r {
            Ok(f) => field_decodes(*j, f),
            Err(_) => forall|f: Field| !field_decodes(*j, f),
        },
    decreases j,
{
    let m = match j {
        Json::Null => {
            return Ok(Field::Null);
        },
        Json::Object(m) => m,
        _ => {
            return Err(text("Expected a JSON object for DocField"));
        },
    };
    let invalid = text("Invalid DocField JSON structure");
    if let Some(_) = find_member(m, "Null") {
        return Ok(Field::Null);
    }
    if let Some(k) = find_member(m, "Bool") {
        return match &m[k].1 {
            Json::Bool(b) => Ok(Field::Bool(*b)),
            _ => Err(invalid),
        };
    }
    if let Some(k) = find_member(m, "Int") {
        if let Json::Number(n) = &m[k].1 {
            if let Some(x) = n.as_i64 {
                return Ok(Field::Int(x));
            }
        }
        return Err(invalid);
    }
    if let Some(k) = find_member(m, "Float") {
        if let Json::Number(n) = &m[k].1 {
            if let Some(x) = n.as_float {
                return Ok(Field::Float(x));
            }
        }
        return Err(invalid);
    }
    if let Some(k) = find_member(m, "String") {
        return match &m[k].1 {
            Json::String(s) => Ok(Field::String(s.clone())),
            _ => Err(invalid),
        };
    }
    if let Some(k) = find_member(m, "DateTime") {
        return match &m[k].1 {
            Json::String(s) => match parse_rfc3339(s.as_str()) {
                Ok(t) => Ok(Field::DateTime(t)),
                Err(e) => Err(e),
            },
            _ => Err(invalid),
        };
    }
    if let Some(k) = find_member(m, "Doc") {
        return match &m[k].1 {
            Json::Object(_) => {
                proof {
                    assert(decreases_to!(*j => (*j)->Object_0));
                    assert(decreases_to!((*j)->Object_0 => m@[k as int]));
                }
                match decode_doc(&m[k].1) {
                    Ok(d) => {
                        proof {
                            assert(doc_decodes(m@[member_index(m@, "Doc"@)].1, d));
                        }
                        Ok(Field::Doc(d))
                    },
                    Err(e) => {
                        proof {
                            assert forall|f: Field| !field_decodes(*j, f) by {
                                if field_decodes(*j, f) {
                                    assert(doc_decodes(m@[member_index(m@, "Doc"@)].1, f->Doc_0));
                                }
                            }
                        }
                        Err(e)
                    },
                }
            },
            _ => Err(invalid),
        };
    }
    if let Some(k) = find_member(m, "BoolArray") {
        return match &m[k].1 {
            Json::Array(items) => match bools_from(items) {
                Some(v) => Ok(Field::BoolArray(v)),
                None => Err(text("Expected a bool in BoolArray")),
            },
            _ => Err(invalid),
        };
    }
    if let Some(k) = find_member(m, "IntArray") {
        return match &m[k].1 {
            Json::Array(items) => match ints_from(items) {
                Some(v) => Ok(Field::IntArray(v)),
                None => Err(text("Expected an integer in IntArray")),
            },
            _ => Err(invalid),
        };
    }
    if let Some(k) = find_member(m, "FloatArray") {
        return match &m[k].1 {
            Json::Array(items) => match floats_from(items) {
                Some(v) => Ok(Field::FloatArray(v)),
                None => Err(text("Expected a float in FloatArray")),
            },
            _ => Err(invalid),
        };
    }
    if let Some(k) = find_member(m, "StringArray") {
        return match &m[k].1 {
            Json::Array(items) => match strings_from(items) {
                Some(v) => Ok(Field::StringArray(v)),
                None => Err(text("Expected a string in StringArray")),
            },
            _ => Err(invalid),
        };
    }
    if let Some(k) = find_member(m, "DateTimeArray") {
        return match &m[k].1 {
            Json::Array(items) => match instants_from(items) {
                Ok(v) => Ok(Field::DateTimeArray(v)),
                Err(e) => Err(e),
            },
            _ => Err(invalid),
        };
    }
    if let Some(k) = find_member(m, "DocArray") {
        return match &m[k].1 {
            Json::Array(items) => {
                proof {
                    assert(decreases_to!(*j => (*j)->Object_0));
                    assert(decreases_to!((*j)->Object_0 => m@[k as int]));
                    assert(decreases_to!(m@[k as int] => m@[k as int].1));
                    assert(decreases_to!(m@[k as int].1 => (m@[k as int].1)->Array_0));
                }
                match decode_docs(items) {
                    Ok(docs) => {
                        proof {
                            assert(m@[k as int].1->Array_0 == *items);
                        }
                        Ok(Field::DocArray(docs))
                    },
                    Err(e) => {
                        proof {
                            assert(m@[k as int].1->Array_0 == *items);
                            let q = choose|q: int|
                                0 <= q < items.len() && !(#[trigger] items@[q] is Object
                                    && exists|d: Doc| doc_decodes(items@[q], d));
                            assert forall|f: Field| !field_decodes(*j, f) by {
                                if field_decodes(*j, f) {
                                    assert(items@[q] is Object);
                                    assert(doc_decodes(items@[q], f->DocArray_0@[q]));
                                }
                            }
                        }
                        Err(e)
                    },
                }
            },
            _ => Err(invalid),
        };
    }
    if let Some(k) = find_member(m, "OptionalBool") {
        return match &m[k].1 {
            Json::Null => Ok(Field::OptionalBool(None)),
            Json::Bool(b) => Ok(Field::OptionalBool(Some(*b))),
            _ => Err(text("Expected a bool or null in OptionalBool")),
        };
    }
    if let Some(k) = find_member(m, "OptionalInt") {
        return match &m[k].1 {
            Json::Null => Ok(Field::OptionalInt(None)),
            Json::Number(n) => match n.as_i64 {
                Some(x) => Ok(Field::OptionalInt(Some(x))),
                None => Err(text("Expected an integer in OptionalInt")),
            },
            _ => Err(text("Expected an integer or null in OptionalInt")),
        };
    }
    if let Some(k) = find_member(m, "OptionalFloat") {
        return match &m[k].1 {
            Json::Null => Ok(Field::OptionalFloat(None)),
            Json::Number(n) => match n.as_float {
                Some(x) => Ok(Field::OptionalFloat(Some(x))),
                None => Err(text("Expected a float in OptionalFloat")),
            },
            _ => Err(text("Expected a float or null in OptionalFloat")),
        };
    }
    if let Some(k) = find_member(m, "OptionalString") {
        return match &m[k].1 {
            Json::Null => Ok(Field::OptionalString(None)),
            Json::String(s) => Ok(Field::OptionalString(Some(s.clone()))),
            _ => Err(text("Expected a string or null in OptionalString")),
        };
    }
    if let Some(k) = find_member(m, "OptionalDateTime") {
        return match &m[k].1 {
            Json::Null => Ok(Field::OptionalDateTime(None)),
            Json::String(s) => match parse_rfc3339(s.as_str()) {
                Ok(t) => Ok(Field::OptionalDateTime(Some(t))),
                Err(e) => Err(e),
            },
            _ => Err(text("Expected a string or null in OptionalDateTime")),
        };
    }
    if let Some(k) = find_member(m, "OptionalBoolArray") {
        return match &m[k].1 {
            Json::Array(items) => match opt_bools_from(items) {
                Some(v) => Ok(Field::OptionalBoolArray(v)),
                None => Err(text("Expected a bool or null in OptionalBoolArray")),
            },
            _ => Err(invalid),
        };
    }
    if let Some(k) = find_member(m, "OptionalIntArray") {
        return match &m[k].1 {
            Json::Array(items) => match opt_ints_from(items) {
                Some(v) => Ok(Field::OptionalIntArray(v)),
                None => Err(text("Expected an integer or null in OptionalIntArray")),
            },
            _ => Err(invalid),
        };
    }
    if let Some(k) = find_member(m, "OptionalFloatArray") {
        return match &m[k].1 {
            Json::Array(items) => match opt_floats_from(items) {
                Some(v) => Ok(Field::OptionalFloatArray(v)),
                None => Err(text("Expected a float or null in OptionalFloatArray")),
            },
            _ => Err(invalid),
        };
    }
    if let Some(k) = find_member(m, "OptionalStringArray") {
        return match &m[k].1 {
            Json::Array(items) => match opt_strings_from(items) {
                Some(v) => Ok(Field::OptionalStringArray(v)),
                None => Err(text("Expected a string or null in OptionalStringArray")),
            },
            _ => Err(invalid),
        };
    }
    if let Some(k) = find_member(m, "OptionalDateTimeArray") {
        return match &m[k].1 {
            Json::Array(items) => match opt_instants_from(items) {
                Some(v) => Ok(Field::OptionalDateTimeArray(v)),
                None => Err(text("Expected a string or null in OptionalDateTimeArray")),
            },
            _ => Err(invalid),
        };
    }
    Err(invalid)
}

fn decode_docs(items: &Vec<Json>) -> (r: Result<Vec<Doc>, String>)
    ensures
        match r {
            Ok(docs) => docs.len() == items.len() && forall|q: int|
                0 <= q < items.len() ==> (#[trigger] items@[q]) is Object && doc_decodes(
                    items@[q],
                    docs@[q],
                ),
            Err(_) => exists|q: int|
                0 <= q < items.len() && !(#[trigger] items@[q] is Object && exists|d: Doc|
                    doc_decodes(items@[q], d)),
        },
    decreases items,
{
    let mut docs: Vec<Doc> = Vec::new();
    let mut i: usize = 0;
    while i < items.len()
        invariant
            i <= items.len(),
            docs.len() == i,
            forall|q: int|
                0 <= q < i ==> (#[trigger] items@[q]) is Object && doc_decodes(items@[q], docs@[q]),
        decreases items.len() - i,
    {
        match &items[i] {
            Json::Object(_) => {
                proof {
                    assert(decreases_to!(*items => items@[i as int]));
                }
                match decode_doc(&items[i]) {
                    Ok(d) => docs.push(d),
                    Err(e) => {
                        return Err(e);
                    },
                }
            },
            _ => {
                return Err(text("Expected an object in DocArray"));
            },
        }
        i = i + 1;
    }
    Ok(docs)
}

proof fn lemma_doc_from_fields(m: Vec<(String, Json)>, d: Doc, k: int)
    requires
        member_index(m@, "fields"@) == k,
        0 <= k < m.len(),
        m@[k].1 is Array,
        !d.hidden,
        d.status == Status::Active,
        d.schema_version_id@.len() == 0,
        d.fields.len() == m@[k].1->Array_0.len(),
        forall|q: int|
            0 <= q < d.fields.len() ==> field_decodes(m@[k].1->Array_0@[q], #[trigger] d.fields@[q]),
    ensures
        doc_decodes(Json::Object(m), d),
{
    let ms = m@;
    assert forall|q: int| 0 <= q < d.fields.len() implies field_decodes(
        ms[member_index(ms, "fields"@)].1->Array_0@[q],
        #[trigger] d.fields@[q],
    ) by {
        assert(field_decodes(m@[k].1->Array_0@[q], d.fields@[q]));
    }
}

proof fn lemma_fields_from_doc(m: Vec<(String, Json)>, d: Doc, k: int, i: int)
    requires
        member_index(m@, "fields"@) == k,
        doc_decodes(Json::Object(m), d),
        0 <= i < d.fields.len(),
    ensures
        field_decodes(m@[k].1->Array_0@[i], d.fields@[i]),
{
    let ms = m@;
    assert(0 <= k < ms.len());
    assert(d.fields.len() == ms[k].1->Array_0.len());
    assert(field_decodes(ms[k].1->Array_0@[i], d.fields@[i]));
}

/// The document that the JSON tree `j` stands for.
pub fn decode_doc(j: &Json) -> (r: Result<Doc, String>)
    ensures
        match r {
            Ok(d) => doc_decodes(*j, d),
            Err(_) => forall|d: Doc| !doc_decodes(*j, d),
        },
    decreases j,
{
    let m = match j {
        Json::Object(m) => m,
        _ => {
            return Err(text("Expected a JSON object for Doc"));
        },
    };
    let k = match find_member(m, "fields") {
        Some(k) => k,
        None => {
            return Err(text("'fields' key not found in Doc JSON"));
        },
    };
    let items = match &m[k].1 {
        Json::Array(items) => items,
        _ => {
            return Err(text("Expected an array of fields"));
        },
    };
    let mut fields: Vec<Field> = Vec::new();
    let mut i: usize = 0;
    while i < items.len()
        invariant
            k < m.len(),
            *j == Json::Object(*m),
            member_index(m@, "fields"@) == k,
            m@[k as int].1 == Json::Array(*items),
            i <= items.len(),
            fields.len() == i,
            forall|q: int| 0 <= q < i ==> #[trigger] field_decodes(items@[q], fields@[q]),
        decreases items.len() - i,
    {
        proof {
            assert(decreases_to!(*j => (*j)->Object_0));
            assert(decreases_to!((*j)->Object_0 => m@[k as int]));
            assert(decreases_to!(m@[k as int] => m@[k as int].1));
            assert(decreases_to!(m@[k as int].1 => (m@[k as int].1)->Array_0));
            assert(decreases_to!(*items => items@[i as int]));
        }
        match decode_field(&items[i]) {
            Ok(f) => fields.push(f),
            Err(e) => {
                proof {
                    assert(m@[k as int].1->Array_0 == *items);
                    assert forall|d: Doc| !doc_decodes(*j, d) by {
                        if doc_decodes(*j, d) {
                            lemma_fields_from_doc(*m, d, k as int, i as int);
                        }
                    }
                }
                return Err(e);
            },
        }
        i = i + 1;
    }
    let d = Doc { hidden: false, fields, status: Status::Active, schema_version_id: String::new() };
    proof {
        assert(m@[k as int].1->Array_0 == *items);
        lemma_doc_from_fields(*m, d, k as int);
    }
    Ok(d)
}

fn op_from_key(key: &String) -> (r: Option<Op>)
    ensures
        r == op_named(key@),
{
    if *key == text("EQ") {
        Some(Op::EQ)
    } else if *key == text("NE") {
        Some(Op::NE)
    } else if *key == text("GT") {
        Some(Op::GT)
    } else if *key == text("GE") {
        Some(Op::GE)
    } else if *key == text("LT") {
        Some(Op::LT)
    } else if *key == text("LE") {
        Some(Op::LE)
    } else if *key == text("IN") {
        Some(Op::IN)
    } else if *key == text("NIN") {
        Some(Op::NIN)
    } else if *key == text("LIKE") {
        Some(Op::LIKE)
    } else if *key == text("NLIKE") {
        Some(Op::NLIKE)
    } else if *key == text("ILIKE") {
        Some(Op::ILIKE)
    } else if *key == text("NILIKE") {
        Some(Op::NILIKE)
    } else {
        None
    }
}

fn decode_conditions(items: &Vec<Json>) -> (r: Result<Vec<Condition>, (usize, String)>)
    ensures
        match r {
            Ok(subs) => subs.len() == items.len() && forall|p: int|
                0 <= p < items.len() ==> cond_decodes(items@[p], #[trigger] subs@[p]) && well_formed(
                    subs@[p],
                ),
            Err((q, _)) => q < items.len() && forall|c: Condition| !cond_decodes(items@[q as int], c),
        },
    decreases items,
{
    let mut subs: Vec<Condition> = Vec::new();
    let mut q: usize = 0;
    while q < items.len()
        invariant
            q <= items.len(),
            subs.len() == q,
            forall|p: int|
                0 <= p < q ==> cond_decodes(items@[p], #[trigger] subs@[p]) && well_formed(subs@[p]),
        decreases items.len() - q,
    {
        proof {
            assert(decreases_to!(*items => items@[q as int]));
        }
        match decode_condition(&items[q]) {
            Ok(c) => subs.push(c),
            Err(e) => {
                return Err((q, e));
            },
        }
        q = q + 1;
    }
    Ok(subs)
}

/// The condition that the JSON tree `j` stands for.
pub fn decode_condition(j: &Json) -> (r: Result<Condition, String>)
    ensures
        match r {
            Ok(c) => cond_decodes(*j, c) && well_formed(c),
            Err(_) => forall|c: Condition| !cond_decodes(*j, c),
        },
    decreases j,
{
    let m = match j {
        Json::Object(m) => m,
        _ => {
            return Err(text("Expected a JSON object for Condition"));
        },
    };
    let mut i: usize = 0;
    while i < m.len()
        invariant
            *j == Json::Object(*m),
            i <= m.len(),
            forall|c: Condition| #[trigger] cond_decodes(*j, c) == member_decodes(*j, i as int, c),
        decreases m.len() - i,
    {
        proof {
            assert(decreases_to!(*j => (*j)->Object_0));
            assert(decreases_to!((*j)->Object_0 => m@[i as int]));
            assert(decreases_to!(m@[i as int] => m@[i as int].1));
        }
        let key = &m[i].0;
        let value = &m[i].1;
        if let Some(op) = op_from_key(key) {
            return match decode_field(value) {
                Ok(f) => Ok(Condition::Op(op, f)),
                Err(e) => Err(e),
            };
        }
        if *key == text("PROP") {
            if let Json::Object(pm) = value {
                proof {
                    assert(decreases_to!(*value => (*value)->Object_0));
                }
                let ki = match find_member(pm, "index") {
                    Some(ki) => ki,
                    None => {
                        return Err(text("Index missing or not a number in Prop"));
                    },
                };
                let index = match &pm[ki].1 {
                    Json::Number(n) => match n.as_u64 {
                        Some(x) => x as usize,
                        None => {
                            return Err(text("Index missing or not a number in Prop"));
                        },
                    },
                    _ => {
                        return Err(text("Index missing or not a number in Prop"));
                    },
                };
                let kc = match find_member(pm, "condition") {
                    Some(kc) => kc,
                    None => {
                        return Err(text("Condition missing in Prop"));
                    },
                };
                proof {
                    assert(decreases_to!((*value)->Object_0 => pm@[kc as int]));
                    assert(decreases_to!(pm@[kc as int] => pm@[kc as int].1));
                }
                return match decode_condition(&pm[kc].1) {
                    Err(e) => {
                        proof {
                            assert forall|c: Condition| !cond_decodes(*j, c) by {
                                if cond_decodes(*j, c) {
                                    assert(member_decodes(*j, i as int, c));
                                    assert(cond_decodes(pm@[kc as int].1, *c->Prop_1));
                                }
                            }
                        }
                        Err(e)
                    },
                    Ok(sub) => {
                        let c = Condition::Prop(index, Box::new(sub));
                        proof {
                            assert(member_decodes(*j, i as int, c));
                            assert(well_formed(c));
                            assert(cond_decodes(*j, c));
                        }
                        Ok(c)
                    },
                };
            }
            i = i + 1;
            continue;
        }
        let is_and = *key == text("AND");
        if is_and || *key == text("OR") {
            let items = match value {
                Json::Array(items) => items,
                _ => {
                    return Err(text("Expected array for CompoundOp"));
                },
            };
            proof {
                assert(decreases_to!(*value => (*value)->Array_0));
            }
            proof {
                assert(decreases_to!(m@[i as int].1 => (m@[i as int].1)->Array_0));
            }
            let subs = match decode_conditions(items) {
                Ok(subs) => subs,
                Err((q, e)) => {
                    proof {
                        assert forall|c: Condition| !cond_decodes(*j, c) by {
                            if cond_decodes(*j, c) {
                                assert(member_decodes(*j, i as int, c));
                                assert(value->Array_0 == *items);
                                assert(member_decodes(value->Array_0@[q as int], 0, c->CompoundOp_1@[q as int]));
                                assert(cond_decodes(items@[q as int], c->CompoundOp_1@[q as int]));
                            }
                        }
                    }
                    return Err(e);
                },
            };
            let op = if is_and { CompoundOp::AND } else { CompoundOp::OR };
            let c = Condition::CompoundOp(op, subs);
            proof {
                assert(member_decodes(*j, i as int, c));
            }
            return Ok(c);
        }
        if *key == text("NOT") {
            return match decode_condition(value) {
                Ok(sub) => {
                    let mut subs: Vec<Condition> = Vec::new();
                    subs.push(sub);
                    let c = Condition::CompoundOp(CompoundOp::NOT, subs);
                    proof {
                        assert(subs@[0] == sub);
                        assert(member_decodes(*j, i as int, c));
                    }
                    Ok(c)
                },
                Err(e) => {
                    proof {
                        assert forall|c: Condition| !cond_decodes(*j, c) by {
                            if cond_decodes(*j, c) {
                                assert(member_decodes(*j, i as int, c));
                                assert(cond_decodes(*value, c->CompoundOp_1@[0]));
                            }
                        }
                    }
                    Err(e)
                },
            };
        }
        let mut message = text("Invalid key in Condition: ");
        message.append(key.as_str());
        return Err(message);
    }
    Err(text("Invalid JSON object for Condition"))
}

/// Reads a condition and a value under test from their JSON texts and
/// evaluates the one against the other.
///
/// The value text is read as a document where it is one, and as a value
/// otherwise. A text that serde_json does not read, or that stands for no
/// condition or value, gives an error message; an evaluation that fails gives
/// the message of its error.
pub fn match_conditions_with(cond_str: &str, doc_str: &str) -> (r: Result<bool, String>)
    ensures
        match r {
            Ok(b) => exists|c: Condition, v: Field|
                #[trigger] texts_decode(cond_str@, doc_str@, c, v) && eval(c, v) == Ok::<
                    bool,
                    crate::error::Error,
                >(b),
            Err(m) => (forall|c: Condition, v: Field| !#[trigger] texts_decode(cond_str@, doc_str@, c, v))
                || exists|c: Condition, v: Field|
                #[trigger] texts_decode(cond_str@, doc_str@, c, v) && eval(c, v) is Err && m@
                    == message_of(eval(c, v)->Err_0),
        },
{
    let cond_json = match parse_json(cond_str) {
        Ok(j) => j,
        Err(e) => {
            return Err(e);
        },
    };
    let cond = match decode_condition(&cond_json) {
        Ok(c) => c,
        Err(e) => {
            return Err(e);
        },
    };
    let value_json = match parse_json(doc_str) {
        Ok(j) => j,
        Err(e) => {
            return Err(e);
        },
    };
    let value = match decode_doc(&value_json) {
        Ok(d) => Field::Doc(d),
        Err(_) => match decode_field(&value_json) {
            Ok(f) => f,
            Err(e) => {
                return Err(e);
            },
        },
    };
    proof {
        assert(texts_decode(cond_str@, doc_str@, cond, value));
    }
    match match_conditions(&cond, &value) {
        Ok(b) => Ok(b),
        Err(e) => Err(e.message()),
    }
}

/// Reads a condition from its JSON text.
pub fn deserialize_condition(json_str: &str) -> (r: Result<Condition, String>)
    ensures
        match r {
            Ok(c) => parsed_json(json_str@) is Some && cond_decodes(parsed_json(json_str@)->0, c)
                && well_formed(c),
            Err(_) => parsed_json(json_str@) is None || forall|c: Condition|
                !cond_decodes(parsed_json(json_str@)->0, c),
        },
{
    match parse_json(json_str) {
        Ok(j) => decode_condition(&j),
        Err(e) => Err(e),
    }
}

/// Reads a document from its JSON text.
pub fn deserialize_doc(json_str: &str) -> (r: Result<Doc, String>)
    ensures
        match r {
            Ok(d) => parsed_json(json_str@) is Some && doc_decodes(parsed_json(json_str@)->0, d),
            Err(_) => parsed_json(json_str@) is None || forall|d: Doc|
                !doc_decodes(parsed_json(json_str@)->0, d),
        },
{
    match parse_json(json_str) {
        Ok(j) => decode_doc(&j),
        Err(e) => Err(e),
    }
}

/// Reads a value from its JSON text.
pub fn deserialize_field(json_str: &str) -> (r: Result<Field, String>)
    ensures
        match r {
            Ok(f) => parsed_json(json_str@) is Some && field_decodes(parsed_json(json_str@)->0, f),
            Err(_) => parsed_json(json_str@) is None || forall|f: Field|
                !field_decodes(parsed_json(json_str@)->0, f),
        },
{
    match parse_json(json_str) {
        Ok(j) => decode_field(&j),
        Err(e) => Err(e),
    }
}

} // verus!
