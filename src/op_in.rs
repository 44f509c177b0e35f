//! Membership: the `IN` operator and, negated, `NIN`.

use crate::doc::Field;
use crate::seqs;
use vstd::prelude::*;

verus! {

/// The literal `lit` is an array that holds the value under test `v`.
///
/// A plain array holds only scalars of its own element type. An array of
/// optional elements also takes the optional scalar itself, and matches an
/// explicit `Null` against an absent element.
pub open spec fn member(lit: Field, v: Field) -> bool {
    match lit {
        Field::BoolArray(a) => match v {
            Field::Bool(x) => a@.contains(x),
            _ => false,
        },
        Field::IntArray(a) => match v {
            Field::Int(x) => a@.contains(x),
            _ => false,
        },
        Field::FloatArray(a) => match v {
            Field::Float(x) => seqs::floats_hold(a@, x),
            _ => false,
        },
        Field::StringArray(a) => match v {
            Field::String(x) => seqs::strings_hold(a@, x),
            _ => false,
        },
        Field::DateTimeArray(a) => match v {
            Field::DateTime(x) => a@.contains(x),
            _ => false,
        },
        Field::OptionalBoolArray(a) => match v {
            Field::OptionalBool(x) => a@.contains(x),
            Field::Bool(x) => a@.contains(Some(x)),
            Field::Null => a@.contains(None),
            _ => false,
        },
        Field::OptionalIntArray(a) => match v {
            Field::OptionalInt(x) => a@.contains(x),
            Field::Int(x) => a@.contains(Some(x)),
            Field::Null => a@.contains(None),
            _ => false,
        },
        Field::OptionalFloatArray(a) => match v {
            Field::OptionalFloat(x) => seqs::opt_floats_hold(a@, x),
            Field::Float(x) => seqs::opt_floats_hold(a@, Some(x)),
            Field::Null => seqs::opt_floats_hold(a@, None),
            _ => false,
        },
        Field::OptionalStringArray(a) => match v {
            Field::OptionalString(x) => seqs::opt_strings_hold(a@, x),
            Field::String(x) => seqs::opt_strings_hold(a@, Some(x)),
            Field::Null => seqs::opt_strings_hold(a@, None),
            _ => false,
        },
        Field::OptionalDateTimeArray(a) => match v {
            Field::OptionalDateTime(x) => a@.contains(x),
            Field::DateTime(x) => a@.contains(Some(x)),
            Field::Null => a@.contains(None),
            _ => false,
        },
        _ => false,
    }
}

/// Whether the array `condition` holds `doc_field`.
pub fn handle(condition: &Field, doc_field: &Field) -> (r: bool)
    ensures
        r == member(*condition, *doc_field),
{
    match condition {
        Field::BoolArray(a) => match doc_field {
            Field::Bool(x) => seqs::bools_contain(a, x),
            _ => false,
        },
        Field::IntArray(a) => match doc_field {
            Field::Int(x) => seqs::ints_contain(a, x),
            _ => false,
        },
        Field::FloatArray(a) => match doc_field {
            Field::Float(x) => seqs::floats_contain(a, x),
            _ => false,
        },
        Field::StringArray(a) => match doc_field {
            Field::String(x) => seqs::strings_contain(a, x),
            _ => false,
        },
        Field::DateTimeArray(a) => match doc_field {
            Field::DateTime(x) => seqs::datetimes_contain(a, x),
            _ => false,
        },
        Field::OptionalBoolArray(a) => match doc_field {
            Field::OptionalBool(x) => seqs::opt_bools_contain(a, x),
            Field::Bool(x) => seqs::opt_bools_contain(a, &Some(*x)),
            Field::Null => seqs::opt_bools_contain(a, &None),
            _ => false,
        },
        Field::OptionalIntArray(a) => match doc_field {
            Field::OptionalInt(x) => seqs::opt_ints_contain(a, x),
            Field::Int(x) => seqs::opt_ints_contain(a, &Some(*x)),
            Field::Null => seqs::opt_ints_contain(a, &None),
            _ => false,
        },
        Field::OptionalFloatArray(a) => match doc_field {
            Field::OptionalFloat(x) => seqs::opt_floats_contain(a, x),
            Field::Float(x) => seqs::opt_floats_contain(a, &Some(*x)),
            Field::Null => seqs::opt_floats_contain(a, &None),
            _ => false,
        },
        Field::OptionalStringArray(a) => match doc_field {
            Field::OptionalString(x) => seqs::opt_strings_contain(a, x),
            Field::String(x) => seqs::opt_strings_contain(a, &Some(x.clone())),
            Field::Null => seqs::opt_strings_contain(a, &None),
            _ => false,
        },
        Field::OptionalDateTimeArray(a) => match doc_field {
            Field::OptionalDateTime(x) => seqs::opt_datetimes_contain(a, x),
            Field::DateTime(x) => seqs::opt_datetimes_contain(a, &Some(*x)),
            Field::Null => seqs::opt_datetimes_contain(a, &None),
            _ => false,
        },
        _ => false,
    }
}

} // verus!
