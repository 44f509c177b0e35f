//! Order with equality: the `GE` operator and, negated, `LT`.

use crate::doc::{datetime_gt, Field};
use crate::float;
use crate::float::{float_from_int, float_ge, float_of_int};
use vstd::prelude::*;

verus! {

/// The value under test `v` is greater than or equal to the literal `lit`.
///
/// Integers and floating-point numbers compare with each other, the integer
/// converted to the nearest binary64 number; instants compare in time. Every
/// other pair is not ordered.
pub open spec fn at_least(lit: Field, v: Field) -> bool {
    match lit {
        Field::Int(c) => match v {
            Field::Int(x) => x >= c,
            Field::Float(x) => float_ge(x, float_of_int(c)),
            _ => false,
        },
        Field::Float(c) => match v {
            Field::Float(x) => float_ge(x, c),
            Field::Int(x) => float_ge(float_of_int(x), c),
            _ => false,
        },
        Field::DateTime(c) => match v {
            Field::DateTime(x) => datetime_gt(x, c) || x == c,
            _ => false,
        },
        _ => false,
    }
}

/// Whether `doc_field` is greater than or equal to the literal `condition`.
pub fn handle(condition: &Field, doc_field: &Field) -> (r: bool)
    ensures
        r == at_least(*condition, *doc_field),
{
    match condition {
        Field::Int(c) => match doc_field {
            Field::Int(x) => *x >= *c,
            Field::Float(x) => float::ge(*x, float_from_int(*c)),
            _ => false,
        },
        Field::Float(c) => match doc_field {
            Field::Float(x) => float::ge(*x, *c),
            Field::Int(x) => float::ge(float_from_int(*x), *c),
            _ => false,
        },
        Field::DateTime(c) => match doc_field {
            Field::DateTime(x) => x.is_after(c) || x.same_instant(c),
            _ => false,
        },
        _ => false,
    }
}

} // verus!
