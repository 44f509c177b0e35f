//! Case-insensitive wildcard matching: the `ILIKE` operator and, negated,
//! `NILIKE`.

use crate::doc::Field;
use crate::op_like::{like, like_match};
use vstd::prelude::*;

verus! {

/// What `str::to_lowercase` makes of a string with the characters `s`.
pub uninterp spec fn lower_of(s: Seq<char>) -> Seq<char>;

/// Relies on `str::to_lowercase`: the lower-case form depends on the
/// characters alone, and an empty string stays empty.
#[verifier::external_body]
fn lowercase(s: &str) -> (r: String)
    ensures
        r@ == lower_of(s@),
        s@.len() == 0 ==> r@.len() == 0,
{
    s.to_lowercase()
}

/// Wildcard match of `data` against `pattern` once both are lower-cased.
pub open spec fn ilike_match(pattern: Seq<char>, data: Seq<char>) -> bool {
    like_match(lower_of(pattern), lower_of(data))
}

/// The literal `lit` and the value under test `v` are both strings and `v`
/// matches the pattern `lit`, case ignored.
pub open spec fn field_ilike(lit: Field, v: Field) -> bool {
    match (lit, v) {
        (Field::String(c), Field::String(x)) => ilike_match(c@, x@),
        _ => false,
    }
}

/// Case-insensitive wildcard match of `data` against `condition`.
pub fn ilike(condition: &str, data: &str) -> (r: bool)
    ensures
        r == ilike_match(condition@, data@),
{
    let pattern = lowercase(condition);
    let text = lowercase(data);
    like(pattern.as_str(), text.as_str())
}

/// Whether `condition` and `doc_field` are strings and `doc_field` matches
/// the pattern `condition`, case ignored.
pub fn handle(condition: &Field, doc_field: &Field) -> (r: bool)
    ensures
        r == field_ilike(*condition, *doc_field),
{
    match (condition, doc_field) {
        (Field::String(c), Field::String(x)) => ilike(c.as_str(), x.as_str()),
        _ => false,
    }
}

} // verus!
