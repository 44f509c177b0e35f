//! Equality: the `EQ` operator and, negated, `NE`.

use crate::doc::Field;
use crate::float;
use crate::float::{float_eq, float_from_int, float_of_int};
use crate::seqs;
use vstd::prelude::*;

verus! {

/// The value under test `v` equals the literal `lit`.
///
/// `Null` equals only `Null`. An integer and a floating-point number compare
/// after converting the integer to the nearest binary64 number. Arrays compare
/// element-wise with the same variant. Other pairs, documents and optional
/// scalars as literals included, are unequal.
pub open spec fn equals(lit: Field, v: Field) -> bool {
    match lit {
        Field::Null => v is Null,
        Field::String(c) => match v {
            Field::String(x) => x@ == c@,
            _ => false,
        },
        Field::Int(c) => match v {
            Field::Int(x) => x == c,
            Field::Float(x) => float_eq(x, float_of_int(c)),
            _ => false,
        },
        Field::Float(c) => match v {
            Field::Float(x) => float_eq(x, c),
            Field::Int(x) => float_eq(float_of_int(x), c),
            _ => false,
        },
        Field::Bool(c) => match v {
            Field::Bool(x) => x == c,
            _ => false,
        },
        Field::DateTime(c) => match v {
            Field::DateTime(x) => x == c,
            _ => false,
        },
        Field::BoolArray(c) => match v {
            Field::BoolArray(x) => x@ == c@,
            _ => false,
        },
        Field::IntArray(c) => match v {
            Field::IntArray(x) => x@ == c@,
            _ => false,
        },
        Field::FloatArray(c) => match v {
            Field::FloatArray(x) => seqs::floats_equal(x@, c@),
            _ => false,
        },
        Field::StringArray(c) => match v {
            Field::StringArray(x) => seqs::strings_equal(x@, c@),
            _ => false,
        },
        Field::DateTimeArray(c) => match v {
            Field::DateTimeArray(x) => x@ == c@,
            _ => false,
        },
        Field::OptionalBoolArray(c) => match v {
            Field::OptionalBoolArray(x) => x@ == c@,
            _ => false,
        },
        Field::OptionalIntArray(c) => match v {
            Field::OptionalIntArray(x) => x@ == c@,
            _ => false,
        },
        Field::OptionalFloatArray(c) => match v {
            Field::OptionalFloatArray(x) => seqs::opt_floats_equal(x@, c@),
            _ => false,
        },
        Field::OptionalStringArray(c) => match v {
            Field::OptionalStringArray(x) => seqs::opt_strings_equal(x@, c@),
            _ => false,
        },
        Field::OptionalDateTimeArray(c) => match v {
            Field::OptionalDateTimeArray(x) => x@ == c@,
            _ => false,
        },
        _ => false,
    }
}

/// Whether `doc_field` equals the literal `condition`.
pub fn handle(condition: &Field, doc_field: &Field) -> (r: bool)
    ensures
        r == equals(*condition, *doc_field),
{
    match condition {
        Field::Null => matches!(doc_field, Field::Null),
        Field::String(c) => match doc_field {
            Field::String(x) => *x == *c,
            _ => false,
        },
        Field::Int(c) => match doc_field {
            Field::Int(x) => *x == *c,
            Field::Float(x) => float::eq(*x, float_from_int(*c)),
            _ => false,
        },
        Field::Float(c) => match doc_field {
            Field::Float(x) => float::eq(*x, *c),
            Field::Int(x) => float::eq(float_from_int(*x), *c),
            _ => false,
        },
        Field::Bool(c) => match doc_field {
            Field::Bool(x) => *x == *c,
            _ => false,
        },
        Field::DateTime(c) => match doc_field {
            Field::DateTime(x) => x.same_instant(c),
            _ => false,
        },
        Field::BoolArray(c) => match doc_field {
            Field::BoolArray(x) => seqs::bools_eq(x, c),
            _ => false,
        },
        Field::IntArray(c) => match doc_field {
            Field::IntArray(x) => seqs::ints_eq(x, c),
            _ => false,
        },
        Field::FloatArray(c) => match doc_field {
            Field::FloatArray(x) => seqs::floats_eq(x, c),
            _ => false,
        },
        Field::StringArray(c) => match doc_field {
            Field::StringArray(x) => seqs::strings_eq(x, c),
            _ => false,
        },
        Field::DateTimeArray(c) => match doc_field {
            Field::DateTimeArray(x) => seqs::datetimes_eq(x, c),
            _ => false,
        },
        Field::OptionalBoolArray(c) => match doc_field {
            Field::OptionalBoolArray(x) => seqs::opt_bools_eq(x, c),
            _ => false,
        },
        Field::OptionalIntArray(c) => match doc_field {
            Field::OptionalIntArray(x) => seqs::opt_ints_eq(x, c),
            _ => false,
        },
        Field::OptionalFloatArray(c) => match doc_field {
            Field::OptionalFloatArray(x) => seqs::opt_floats_eq(x, c),
            _ => false,
        },
        Field::OptionalStringArray(c) => match doc_field {
            Field::OptionalStringArray(x) => seqs::opt_strings_eq(x, c),
            _ => false,
        },
        Field::OptionalDateTimeArray(c) => match doc_field {
            Field::OptionalDateTimeArray(x) => seqs::opt_datetimes_eq(x, c),
            _ => false,
        },
        _ => false,
    }
}

} // verus!
