//! Element-wise comparisons of the arrays held by the value model.
//!
//! Integers, booleans and instants compare exactly. Floating-point patterns
//! compare by IEEE equality (NaN equals nothing), strings by their characters.

use crate::doc::DateTime;
use crate::float;
use crate::float::float_eq;
use vstd::prelude::*;

verus! {

/// Two optional floating-point patterns are both absent, or both present and
/// IEEE-equal.
pub open spec fn same_opt_float(a: Option<u64>, b: Option<u64>) -> bool {
    match (a, b) {
        (Some(x), Some(y)) => float_eq(x, y),
        (None, None) => true,
        _ => false,
    }
}

/// Two optional strings are both absent, or both present with the same characters.
pub open spec fn same_opt_string(a: Option<String>, b: Option<String>) -> bool {
    match (a, b) {
        (Some(x), Some(y)) => x@ == y@,
        (None, None) => true,
        _ => false,
    }
}

/// `a` and `b` have the same length and pairwise equal elements.
pub open spec fn floats_equal(a: Seq<u64>, b: Seq<u64>) -> bool {
    a.len() == b.len() && forall|i: int| 0 <= i < a.len() ==> float_eq(a[i], b[i])
}

/// Some element of `a` equals `x`.
pub open spec fn floats_hold(a: Seq<u64>, x: u64) -> bool {
    exists|i: int| 0 <= i < a.len() && float_eq(a[i], x)
}

/// `a` and `b` have the same length and pairwise equal elements.
pub open spec fn strings_equal(a: Seq<String>, b: Seq<String>) -> bool {
    a.len() == b.len() && forall|i: int| 0 <= i < a.len() ==> a[i]@ == b[i]@
}

/// Some element of `a` equals `x`.
pub open spec fn strings_hold(a: Seq<String>, x: String) -> bool {
    exists|i: int| 0 <= i < a.len() && a[i]@ == x@
}

/// `a` and `b` have the same length and pairwise equal elements.
pub open spec fn opt_floats_equal(a: Seq<Option<u64>>, b: Seq<Option<u64>>) -> bool {
    a.len() == b.len() && forall|i: int| 0 <= i < a.len() ==> same_opt_float(a[i], b[i])
}

/// Some element of `a` equals `x`.
pub open spec fn opt_floats_hold(a: Seq<Option<u64>>, x: Option<u64>) -> bool {
    exists|i: int| 0 <= i < a.len() && same_opt_float(a[i], x)
}

/// `a` and `b` have the same length and pairwise equal elements.
pub open spec fn opt_strings_equal(a: Seq<Option<String>>, b: Seq<Option<String>>) -> bool {
    a.len() == b.len() && forall|i: int| 0 <= i < a.len() ==> same_opt_string(a[i], b[i])
}

/// Some element of `a` equals `x`.
pub open spec fn opt_strings_hold(a: Seq<Option<String>>, x: Option<String>) -> bool {
    exists|i: int| 0 <= i < a.len() && same_opt_string(a[i], x)
}

/// Element-wise equality of two arrays.
pub fn bools_eq(a: &Vec<bool>, b: &Vec<bool>) -> (r: bool)
    ensures
        r == (a@ == b@),
{
    if a.len() != b.len() {
        return false;
    }
    let mut i: usize = 0;
    while i < a.len()
        invariant
            i <= a.len() == b.len(),
            forall|j: int| 0 <= j < i ==> a@[j] == b@[j],
        decreases a.len() - i,
    {
        if !bools_elem_eq(&a[i], &b[i]) {
            return false;
        }
        i = i + 1;
    }
        proof {
            assert(a@ =~= b@);
        }
    true
}

/// Whether some element of `a` equals `x`.
pub fn bools_contain(a: &Vec<bool>, x: &bool) -> (r: bool)
    ensures
        r == a@.contains(*x),
{
    let mut i: usize = 0;
    while i < a.len()
        invariant
            i <= a.len(),
            forall|j: int| 0 <= j < i ==> a@[j] != *x,
        decreases a.len() - i,
    {
        if bools_elem_eq(&a[i], x) {
            return true;
        }
        i = i + 1;
    }
    false
}

fn bools_elem_eq(x: &bool, y: &bool) -> (r: bool)
    ensures
        r == (*x == *y),
{
    *x == *y
}

/// Element-wise equality of two arrays.
pub fn ints_eq(a: &Vec<i64>, b: &Vec<i64>) -> (r: bool)
    ensures
        r == (a@ == b@),
{
    if a.len() != b.len() {
        return false;
    }
    let mut i: usize = 0;
    while i < a.len()
        invariant
            i <= a.len() == b.len(),
            forall|j: int| 0 <= j < i ==> a@[j] == b@[j],
        decreases a.len() - i,
    {
        if !ints_elem_eq(&a[i], &b[i]) {
            return false;
        }
        i = i + 1;
    }
        proof {
            assert(a@ =~= b@);
        }
    true
}

/// Whether some element of `a` equals `x`.
pub fn ints_contain(a: &Vec<i64>, x: &i64) -> (r: bool)
    ensures
        r == a@.contains(*x),
{
    let mut i: usize = 0;
    while i < a.len()
        invariant
            i <= a.len(),
            forall|j: int| 0 <= j < i ==> a@[j] != *x,
        decreases a.len() - i,
    {
        if ints_elem_eq(&a[i], x) {
            return true;
        }
        i = i + 1;
    }
    false
}

fn ints_elem_eq(x: &i64, y: &i64) -> (r: bool)
    ensures
        r == (*x == *y),
{
    *x == *y
}

/// Element-wise equality of two arrays.
pub fn datetimes_eq(a: &Vec<DateTime>, b: &Vec<DateTime>) -> (r: bool)
    ensures
        r == (a@ == b@),
{
    if a.len() != b.len() {
        return false;
    }
    let mut i: usize = 0;
    while i < a.len()
        invariant
            i <= a.len() == b.len(),
            forall|j: int| 0 <= j < i ==> a@[j] == b@[j],
        decreases a.len() - i,
    {
        if !datetimes_elem_eq(&a[i], &b[i]) {
            return false;
        }
        i = i + 1;
    }
        proof {
            assert(a@ =~= b@);
        }
    true
}

/// Whether some element of `a` equals `x`.
pub fn datetimes_contain(a: &Vec<DateTime>, x: &DateTime) -> (r: bool)
    ensures
        r == a@.contains(*x),
{
    let mut i: usize = 0;
    while i < a.len()
        invariant
            i <= a.len(),
            forall|j: int| 0 <= j < i ==> a@[j] != *x,
        decreases a.len() - i,
    {
        if datetimes_elem_eq(&a[i], x) {
            return true;
        }
        i = i + 1;
    }
    false
}

fn datetimes_elem_eq(x: &DateTime, y: &DateTime) -> (r: bool)
    ensures
        r == (*x == *y),
{
    x.same_instant(y)
}

/// Element-wise equality of two arrays.
pub fn floats_eq(a: &Vec<u64>, b: &Vec<u64>) -> (r: bool)
    ensures
        r == floats_equal(a@, b@),
{
    if a.len() != b.len() {
        return false;
    }
    let mut i: usize = 0;
    while i < a.len()
        invariant
            i <= a.len() == b.len(),
            forall|j: int| 0 <= j < i ==> float_eq(a@[j], b@[j]),
        decreases a.len() - i,
    {
        if !floats_elem_eq(&a[i], &b[i]) {
            return false;
        }
        i = i + 1;
    }
    true
}

/// Whether some element of `a` equals `x`.
pub fn floats_contain(a: &Vec<u64>, x: &u64) -> (r: bool)
    ensures
        r == floats_hold(a@, *x),
{
    let mut i: usize = 0;
    while i < a.len()
        invariant
            i <= a.len(),
            forall|j: int| 0 <= j < i ==> !float_eq(a@[j], *x),
        decreases a.len() - i,
    {
        if floats_elem_eq(&a[i], x) {
            return true;
        }
        i = i + 1;
    }
    false
}

fn floats_elem_eq(x: &u64, y: &u64) -> (r: bool)
    ensures
        r == float_eq(*x, *y),
{
    float::eq(*x, *y)
}

/// Element-wise equality of two arrays.
pub fn strings_eq(a: &Vec<String>, b: &Vec<String>) -> (r: bool)
    ensures
        r == strings_equal(a@, b@),
{
    if a.len() != b.len() {
        return false;
    }
    let mut i: usize = 0;
    while i < a.len()
        invariant
            i <= a.len() == b.len(),
            forall|j: int| 0 <= j < i ==> a@[j]@ == b@[j]@,
        decreases a.len() - i,
    {
        if !strings_elem_eq(&a[i], &b[i]) {
            return false;
        }
        i = i + 1;
    }
    true
}

/// Whether some element of `a` equals `x`.
pub fn strings_contain(a: &Vec<String>, x: &String) -> (r: bool)
    ensures
        r == strings_hold(a@, *x),
{
    let mut i: usize = 0;
    while i < a.len()
        invariant
            i <= a.len(),
            forall|j: int| 0 <= j < i ==> a@[j]@ != x@,
        decreases a.len() - i,
    {
        if strings_elem_eq(&a[i], x) {
            return true;
        }
        i = i + 1;
    }
    false
}

fn strings_elem_eq(x: &String, y: &String) -> (r: bool)
    ensures
        r == (x@ == y@),
{
    *x == *y
}

/// Element-wise equality of two arrays.
pub fn opt_bools_eq(a: &Vec<Option<bool>>, b: &Vec<Option<bool>>) -> (r: bool)
    ensures
        r == (a@ == b@),
{
    if a.len() != b.len() {
        return false;
    }
    let mut i: usize = 0;
    while i < a.len()
        invariant
            i <= a.len() == b.len(),
            forall|j: int| 0 <= j < i ==> a@[j] == b@[j],
        decreases a.len() - i,
    {
        if !opt_bools_elem_eq(&a[i], &b[i]) {
            return false;
        }
        i = i + 1;
    }
        proof {
            assert(a@ =~= b@);
        }
    true
}

/// Whether some element of `a` equals `x`.
pub fn opt_bools_contain(a: &Vec<Option<bool>>, x: &Option<bool>) -> (r: bool)
    ensures
        r == a@.contains(*x),
{
    let mut i: usize = 0;
    while i < a.len()
        invariant
            i <= a.len(),
            forall|j: int| 0 <= j < i ==> a@[j] != *x,
        decreases a.len() - i,
    {
        if opt_bools_elem_eq(&a[i], x) {
            return true;
        }
        i = i + 1;
    }
    false
}

fn opt_bools_elem_eq(x: &Option<bool>, y: &Option<bool>) -> (r: bool)
    ensures
        r == (*x == *y),
{
    match (x, y) {
        (Some(p), Some(q)) => *p == *q,
        (None, None) => true,
        _ => false,
    }
}

/// Element-wise equality of two arrays.
pub fn opt_ints_eq(a: &Vec<Option<i64>>, b: &Vec<Option<i64>>) -> (r: bool)
    ensures
        r == (a@ == b@),
{
    if a.len() != b.len() {
        return false;
    }
    let mut i: usize = 0;
    while i < a.len()
        invariant
            i <= a.len() == b.len(),
            forall|j: int| 0 <= j < i ==> a@[j] == b@[j],
        decreases a.len() - i,
    {
        if !opt_ints_elem_eq(&a[i], &b[i]) {
            return false;
        }
        i = i + 1;
    }
        proof {
            assert(a@ =~= b@);
        }
    true
}

/// Whether some element of `a` equals `x`.
pub fn opt_ints_contain(a: &Vec<Option<i64>>, x: &Option<i64>) -> (r: bool)
    ensures
        r == a@.contains(*x),
{
    let mut i: usize = 0;
    while i < a.len()
        invariant
            i <= a.len(),
            forall|j: int| 0 <= j < i ==> a@[j] != *x,
        decreases a.len() - i,
    {
        if opt_ints_elem_eq(&a[i], x) {
            return true;
        }
        i = i + 1;
    }
    false
}

fn opt_ints_elem_eq(x: &Option<i64>, y: &Option<i64>) -> (r: bool)
    ensures
        r == (*x == *y),
{
    match (x, y) {
        (Some(p), Some(q)) => *p == *q,
        (None, None) => true,
        _ => false,
    }
}

/// Element-wise equality of two arrays.
pub fn opt_datetimes_eq(a: &Vec<Option<DateTime>>, b: &Vec<Option<DateTime>>) -> (r: bool)
    ensures
        r == (a@ == b@),
{
    if a.len() != b.len() {
        return false;
    }
    let mut i: usize = 0;
    while i < a.len()
        invariant
            i <= a.len() == b.len(),
            forall|j: int| 0 <= j < i ==> a@[j] == b@[j],
        decreases a.len() - i,
    {
        if !opt_datetimes_elem_eq(&a[i], &b[i]) {
            return false;
        }
        i = i + 1;
    }
        proof {
            assert(a@ =~= b@);
        }
    true
}

/// Whether some element of `a` equals `x`.
pub fn opt_datetimes_contain(a: &Vec<Option<DateTime>>, x: &Option<DateTime>) -> (r: bool)
    ensures
        r == a@.contains(*x),
{
    let mut i: usize = 0;
    while i < a.len()
        invariant
            i <= a.len(),
            forall|j: int| 0 <= j < i ==> a@[j] != *x,
        decreases a.len() - i,
    {
        if opt_datetimes_elem_eq(&a[i], x) {
            return true;
        }
        i = i + 1;
    }
    false
}

fn opt_datetimes_elem_eq(x: &Option<DateTime>, y: &Option<DateTime>) -> (r: bool)
    ensures
        r == (*x == *y),
{
    match (x, y) {
        (Some(p), Some(q)) => p.same_instant(q),
        (None, None) => true,
        _ => false,
    }
}

/// Element-wise equality of two arrays.
pub fn opt_floats_eq(a: &Vec<Option<u64>>, b: &Vec<Option<u64>>) -> (r: bool)
    ensures
        r == opt_floats_equal(a@, b@),
{
    if a.len() != b.len() {
        return false;
    }
    let mut i: usize = 0;
    while i < a.len()
        invariant
            i <= a.len() == b.len(),
            forall|j: int| 0 <= j < i ==> same_opt_float(a@[j], b@[j]),
        decreases a.len() - i,
    {
        if !opt_floats_elem_eq(&a[i], &b[i]) {
            return false;
        }
        i = i + 1;
    }
    true
}

/// Whether some element of `a` equals `x`.
pub fn opt_floats_contain(a: &Vec<Option<u64>>, x: &Option<u64>) -> (r: bool)
    ensures
        r == opt_floats_hold(a@, *x),
{
    let mut i: usize = 0;
    while i < a.len()
        invariant
            i <= a.len(),
            forall|j: int| 0 <= j < i ==> !same_opt_float(a@[j], *x),
        decreases a.len() - i,
    {
        if opt_floats_elem_eq(&a[i], x) {
            return true;
        }
        i = i + 1;
    }
    false
}

fn opt_floats_elem_eq(x: &Option<u64>, y: &Option<u64>) -> (r: bool)
    ensures
        r == same_opt_float(*x, *y),
{
    match (x, y) {
        (Some(p), Some(q)) => float::eq(*p, *q),
        (None, None) => true,
        _ => false,
    }
}

/// Element-wise equality of two arrays.
pub fn opt_strings_eq(a: &Vec<Option<String>>, b: &Vec<Option<String>>) -> (r: bool)
    ensures
        r == opt_strings_equal(a@, b@),
{
    if a.len() != b.len() {
        return false;
    }
    let mut i: usize = 0;
    while i < a.len()
        invariant
            i <= a.len() == b.len(),
            forall|j: int| 0 <= j < i ==> same_opt_string(a@[j], b@[j]),
        decreases a.len() - i,
    {
        if !opt_strings_elem_eq(&a[i], &b[i]) {
            return false;
        }
        i = i + 1;
    }
    true
}

/// Whether some element of `a` equals `x`.
pub fn opt_strings_contain(a: &Vec<Option<String>>, x: &Option<String>) -> (r: bool)
    ensures
        r == opt_strings_hold(a@, *x),
{
    let mut i: usize = 0;
    while i < a.len()
        invariant
            i <= a.len(),
            forall|j: int| 0 <= j < i ==> !same_opt_string(a@[j], *x),
        decreases a.len() - i,
    {
        if opt_strings_elem_eq(&a[i], x) {
            return true;
        }
        i = i + 1;
    }
    false
}

fn opt_strings_elem_eq(x: &Option<String>, y: &Option<String>) -> (r: bool)
    ensures
        r == same_opt_string(*x, *y),
{
    match (x, y) {
        (Some(p), Some(q)) => *p == *q,
        (None, None) => true,
        _ => false,
    }
}

} // verus!
