//! Properties of evaluation that hold for every condition and value.

use crate::cond::{eval, eval_all, eval_any_doc, eval_node, eval_some, op_holds, CompoundOp, Condition, Op};
use crate::doc::{Doc, Field};
use crate::error::Error;
use crate::op_eq::equals;
use crate::op_ge::at_least;
use crate::op_gt::greater;
use vstd::prelude::*;

verus! {

/// `v` is an optional scalar slot that is empty.
spec fn absent(v: Field) -> bool {
    match v {
        Field::OptionalBool(o) => o is None,
        Field::OptionalInt(o) => o is None,
        Field::OptionalFloat(o) => o is None,
        Field::OptionalString(o) => o is None,
        Field::OptionalDateTime(o) => o is None,
        _ => false,
    }
}

/// The scalar a filled optional slot holds; any other value itself.
spec fn unwrapped(v: Field) -> Field {
    match v {
        Field::OptionalBool(Some(x)) => Field::Bool(x),
        Field::OptionalInt(Some(x)) => Field::Int(x),
        Field::OptionalFloat(Some(x)) => Field::Float(x),
        Field::OptionalString(Some(x)) => Field::String(x),
        Field::OptionalDateTime(Some(x)) => Field::DateTime(x),
        _ => v,
    }
}

/// Evaluation is a function of the condition and the value: any two
/// evaluations of the same pair give the same result.
pub proof fn lemma_evaluation_deterministic(
    c: Condition,
    v: Field,
    first: Result<bool, Error>,
    second: Result<bool, Error>,
)
    requires
        first == eval(c, v),
        second == eval(c, v),
    ensures
        first == second,
{
}

/// An absent optional scalar matches no condition, whatever the operator:
/// unlike `Null`, it is never compared.
pub proof fn lemma_absent_optional_never_matches(c: Condition)
    ensures
        eval(c, Field::OptionalBool(None)) == Ok::<bool, Error>(false),
        eval(c, Field::OptionalInt(None)) == Ok::<bool, Error>(false),
        eval(c, Field::OptionalFloat(None)) == Ok::<bool, Error>(false),
        eval(c, Field::OptionalString(None)) == Ok::<bool, Error>(false),
        eval(c, Field::OptionalDateTime(None)) == Ok::<bool, Error>(false),
{
}

/// A present optional scalar is evaluated as the scalar it holds.
pub proof fn lemma_present_optional_is_its_scalar(c: Condition, x: i64)
    ensures
        eval(c, Field::OptionalInt(Some(x))) == eval(c, Field::Int(x)),
{
}

/// The negated operators give the opposite outcome of the operators they
/// negate, on every pair of values.
pub proof fn lemma_negated_operators(lit: Field, v: Field)
    ensures
        op_holds(Op::NE, lit, v) == !op_holds(Op::EQ, lit, v),
        op_holds(Op::NIN, lit, v) == !op_holds(Op::IN, lit, v),
        op_holds(Op::NLIKE, lit, v) == !op_holds(Op::LIKE, lit, v),
        op_holds(Op::NILIKE, lit, v) == !op_holds(Op::ILIKE, lit, v),
{
}

/// Ordering operators never hold with `Null` on either side; otherwise `LT`
/// and `LE` are the negations of `GE` and `GT`.
pub proof fn lemma_ordering_operators(lit: Field, v: Field)
    ensures
        (lit is Null || v is Null) ==> {
            &&& !op_holds(Op::GT, lit, v)
            &&& !op_holds(Op::GE, lit, v)
            &&& !op_holds(Op::LT, lit, v)
            &&& !op_holds(Op::LE, lit, v)
        },
        !(lit is Null || v is Null) ==> {
            &&& op_holds(Op::LT, lit, v) == !op_holds(Op::GE, lit, v)
            &&& op_holds(Op::LE, lit, v) == !op_holds(Op::GT, lit, v)
        },
{
}

/// Two non-null values of kinds that have no order between them (such as a
/// string and an integer) are neither `GT` nor `GE`, and so both `LT` and
/// `LE`.
pub proof fn lemma_unordered_kinds_are_below(lit: Field, v: Field)
    requires
        !(lit is Null || v is Null),
        !greater(lit, v),
        !at_least(lit, v),
    ensures
        op_holds(Op::LT, lit, v),
        op_holds(Op::LE, lit, v),
        !op_holds(Op::GT, lit, v),
        !op_holds(Op::GE, lit, v),
{
}

/// Equality between an integer and a floating-point number does not depend
/// on which of the two is the literal.
pub proof fn lemma_numeric_equality_symmetric(i: i64, x: u64)
    ensures
        equals(Field::Int(i), Field::Float(x)) == equals(Field::Float(x), Field::Int(i)),
{
}

/// Projection: a field inside the document is evaluated in place, a position
/// past the last field is an error, and any value that is not a document
/// does not match.
pub proof fn lemma_projection(index: usize, sub: Condition, v: Field)
    ensures
        match v {
            Field::Doc(d) => if index < d.fields.len() {
                eval(Condition::Prop(index, Box::new(sub)), v) == eval(sub, d.fields@[index as int])
            } else {
                eval(Condition::Prop(index, Box::new(sub)), v) == Err::<bool, Error>(
                    Error::OutOfBoundPropIndex,
                )
            },
            Field::DocArray(_) => true,
            Field::OptionalBool(_) | Field::OptionalInt(_) | Field::OptionalFloat(_)
            | Field::OptionalString(_) | Field::OptionalDateTime(_) => true,
            _ => eval(Condition::Prop(index, Box::new(sub)), v) == Ok::<bool, Error>(false),
        },
{
}

proof fn lemma_and_stops_in_docs(subs: Vec<Condition>, docs: Seq<Doc>)
    requires
        subs.len() > 0,
        eval_any_doc(subs@[0], docs) == Ok::<bool, Error>(false),
    ensures
        eval_any_doc(Condition::CompoundOp(CompoundOp::AND, subs), docs) == Ok::<bool, Error>(
            false,
        ),
    decreases docs.len(),
{
    if docs.len() > 0 {
        let v = Field::Doc(docs[0]);
        let and = Condition::CompoundOp(CompoundOp::AND, subs);
        assert(eval(subs@[0], v) == eval_node(subs@[0], v));
        assert(eval_node(subs@[0], v) == Ok::<bool, Error>(false));
        assert(eval_node(and, v) == eval_all(subs@, v));
        assert(eval_all(subs@, v) == Ok::<bool, Error>(false));
        lemma_and_stops_in_docs(subs, docs.subrange(1, docs.len() as int));
    }
}

/// `AND` stops at a first operand that does not match: the result is then
/// `Ok(false)` whatever the other operands are, even operands that would fail.
pub proof fn lemma_and_short_circuit(subs: Vec<Condition>, v: Field)
    requires
        subs.len() > 0,
        eval(subs@[0], v) == Ok::<bool, Error>(false),
    ensures
        eval(Condition::CompoundOp(CompoundOp::AND, subs), v) == Ok::<bool, Error>(false),
{
    let and = Condition::CompoundOp(CompoundOp::AND, subs);
    if let Field::DocArray(docs) = v {
        lemma_and_stops_in_docs(subs, docs@);
    } else if !absent(v) {
        let w = unwrapped(v);
        assert(eval(subs@[0], w) == eval_node(subs@[0], w));
        assert(eval_node(and, w) == eval_all(subs@, w));
    }
}

/// `OR` stops at a first operand that matches: the result is then `Ok(true)`
/// whatever the other operands are, even operands that would fail.
///
/// An array of documents is left out: there the `OR` is evaluated document by
/// document, and a document on which the first operand does not match goes on
/// to the others, which may fail.
pub proof fn lemma_or_short_circuit(subs: Vec<Condition>, v: Field)
    requires
        subs.len() > 0,
        !(v is DocArray),
        eval(subs@[0], v) == Ok::<bool, Error>(true),
    ensures
        eval(Condition::CompoundOp(CompoundOp::OR, subs), v) == Ok::<bool, Error>(true),
{
    let or = Condition::CompoundOp(CompoundOp::OR, subs);
    if !absent(v) {
        let w = unwrapped(v);
        assert(eval(subs@[0], w) == eval_node(subs@[0], w));
        assert(eval_node(or, w) == eval_some(subs@, w));
    }
}

/// An array of documents matches exactly when one of its documents does,
/// provided no document makes the evaluation fail.
pub proof fn lemma_doc_array_existential(c: Condition, docs: Vec<Doc>)
    requires
        forall|i: int| 0 <= i < docs.len() ==> (#[trigger] eval_node(c, Field::Doc(docs@[i]))) is Ok,
    ensures
        eval(c, Field::DocArray(docs)) == Ok::<bool, Error>(
            exists|i: int|
                0 <= i < docs.len() && #[trigger] eval_node(c, Field::Doc(docs@[i]))
                    == Ok::<bool, Error>(true),
        ),
{
    lemma_any_doc_existential(c, docs@);
}

proof fn lemma_any_doc_existential(c: Condition, docs: Seq<Doc>)
    requires
        forall|i: int| 0 <= i < docs.len() ==> (#[trigger] eval_node(c, Field::Doc(docs[i]))) is Ok,
    ensures
        eval_any_doc(c, docs) == Ok::<bool, Error>(
            exists|i: int|
                0 <= i < docs.len() && #[trigger] eval_node(c, Field::Doc(docs[i])) == Ok::<
                    bool,
                    Error,
                >(true),
        ),
    decreases docs.len(),
{
    if docs.len() > 0 {
        let rest = docs.subrange(1, docs.len() as int);
        assert forall|i: int| 0 <= i < rest.len() implies (#[trigger] eval_node(
            c,
            Field::Doc(rest[i]),
        )) is Ok by {
            assert(rest[i] == docs[i + 1]);
        }
        lemma_any_doc_existential(c, rest);
        assert(eval_node(c, Field::Doc(docs[0])) is Ok);
        if eval_node(c, Field::Doc(docs[0])) == Ok::<bool, Error>(true) {
        } else {
            if exists|i: int|
                0 <= i < docs.len() && #[trigger] eval_node(c, Field::Doc(docs[i])) == Ok::<
                    bool,
                    Error,
                >(true) {
                let i = choose|i: int|
                    0 <= i < docs.len() && #[trigger] eval_node(c, Field::Doc(docs[i])) == Ok::<
                        bool,
                        Error,
                    >(true);
                assert(rest[i - 1] == docs[i]);
            }
            if exists|i: int|
                0 <= i < rest.len() && #[trigger] eval_node(c, Field::Doc(rest[i])) == Ok::<
                    bool,
                    Error,
                >(true) {
                let i = choose|i: int|
                    0 <= i < rest.len() && #[trigger] eval_node(c, Field::Doc(rest[i])) == Ok::<
                        bool,
                        Error,
                    >(true);
                assert(rest[i] == docs[i + 1]);
            }
        }
    }
}

/// `v` is neither an array of documents nor an optional scalar: conditions
/// are evaluated against it as it is.
pub open spec fn is_plain(v: Field) -> bool {
    !(v is DocArray || v is OptionalBool || v is OptionalInt || v is OptionalFloat
        || v is OptionalString || v is OptionalDateTime)
}

proof fn lemma_all_upto(subs: Seq<Condition>, v: Field, k: int)
    requires
        0 <= k <= subs.len(),
        forall|i: int| 0 <= i < k ==> eval(#[trigger] subs[i], v) == Ok::<bool, Error>(true),
        k < subs.len() ==> eval(subs[k], v) != Ok::<bool, Error>(true),
    ensures
        eval_all(subs, v) == if k < subs.len() {
            eval(subs[k], v)
        } else {
            Ok::<bool, Error>(true)
        },
    decreases subs.len(),
{
    if subs.len() > 0 && k > 0 {
        let rest = subs.subrange(1, subs.len() as int);
        assert(eval(subs[0], v) == Ok::<bool, Error>(true));
        assert forall|i: int| 0 <= i < k - 1 implies eval(#[trigger] rest[i], v) == Ok::<bool, Error>(
            true,
        ) by {
            assert(rest[i] == subs[i + 1]);
        }
        if k < subs.len() {
            assert(rest[k - 1] == subs[k]);
        }
        lemma_all_upto(rest, v, k - 1);
    }
}

proof fn lemma_some_upto(subs: Seq<Condition>, v: Field, k: int)
    requires
        0 <= k <= subs.len(),
        forall|i: int| 0 <= i < k ==> eval(#[trigger] subs[i], v) == Ok::<bool, Error>(false),
        k < subs.len() ==> eval(subs[k], v) != Ok::<bool, Error>(false),
    ensures
        eval_some(subs, v) == if k < subs.len() {
            eval(subs[k], v)
        } else {
            Ok::<bool, Error>(false)
        },
    decreases subs.len(),
{
    if subs.len() > 0 && k > 0 {
        let rest = subs.subrange(1, subs.len() as int);
        assert(eval(subs[0], v) == Ok::<bool, Error>(false));
        assert forall|i: int| 0 <= i < k - 1 implies eval(#[trigger] rest[i], v) == Ok::<bool, Error>(
            false,
        ) by {
            assert(rest[i] == subs[i + 1]);
        }
        if k < subs.len() {
            assert(rest[k - 1] == subs[k]);
        }
        lemma_some_upto(rest, v, k - 1);
    }
}

proof fn lemma_docs_upto(c: Condition, docs: Seq<Doc>, k: int)
    requires
        0 <= k <= docs.len(),
        forall|i: int|
            0 <= i < k ==> eval(c, Field::Doc(#[trigger] docs[i])) == Ok::<bool, Error>(false),
        k < docs.len() ==> eval(c, Field::Doc(docs[k])) != Ok::<bool, Error>(false),
    ensures
        eval_any_doc(c, docs) == if k < docs.len() {
            eval(c, Field::Doc(docs[k]))
        } else {
            Ok::<bool, Error>(false)
        },
    decreases docs.len(),
{
    if docs.len() > 0 {
        assert(eval(c, Field::Doc(docs[0])) == eval_node(c, Field::Doc(docs[0])));
        if k > 0 {
            let rest = docs.subrange(1, docs.len() as int);
            assert(eval(c, Field::Doc(docs[0])) == Ok::<bool, Error>(false));
            assert forall|i: int| 0 <= i < k - 1 implies eval(c, Field::Doc(#[trigger] rest[i]))
                == Ok::<bool, Error>(false) by {
                assert(rest[i] == docs[i + 1]);
            }
            if k < docs.len() {
                assert(rest[k - 1] == docs[k]);
            }
            lemma_docs_upto(c, rest, k - 1);
        }
    }
}

/// `AND` on a plain value gives the result of its first operand (in order)
/// that is not `Ok(true)`, and `Ok(true)` when there is none, the empty
/// operand list included; later operands do not count.
pub proof fn lemma_and_first_decides(subs: Vec<Condition>, v: Field, k: int)
    requires
        is_plain(v),
        0 <= k <= subs.len(),
        forall|i: int| 0 <= i < k ==> eval(#[trigger] subs@[i], v) == Ok::<bool, Error>(true),
        k < subs.len() ==> eval(subs@[k], v) != Ok::<bool, Error>(true),
    ensures
        eval(Condition::CompoundOp(CompoundOp::AND, subs), v) == if k < subs.len() {
            eval(subs@[k], v)
        } else {
            Ok::<bool, Error>(true)
        },
{
    lemma_all_upto(subs@, v, k);
}

/// `OR` on a plain value gives the result of its first operand (in order)
/// that is not `Ok(false)`, and `Ok(false)` when there is none, the empty
/// operand list included; later operands do not count.
pub proof fn lemma_or_first_decides(subs: Vec<Condition>, v: Field, k: int)
    requires
        is_plain(v),
        0 <= k <= subs.len(),
        forall|i: int| 0 <= i < k ==> eval(#[trigger] subs@[i], v) == Ok::<bool, Error>(false),
        k < subs.len() ==> eval(subs@[k], v) != Ok::<bool, Error>(false),
    ensures
        eval(Condition::CompoundOp(CompoundOp::OR, subs), v) == if k < subs.len() {
            eval(subs@[k], v)
        } else {
            Ok::<bool, Error>(false)
        },
{
    lemma_some_upto(subs@, v, k);
}

/// An array of documents gives the result of its first document (in order)
/// that does not give `Ok(false)`, a match or an error, and `Ok(false)` when
/// there is none, the empty array included; later documents do not count.
pub proof fn lemma_doc_array_first_decides(c: Condition, docs: Vec<Doc>, k: int)
    requires
        0 <= k <= docs.len(),
        forall|i: int|
            0 <= i < k ==> eval(c, Field::Doc(#[trigger] docs@[i])) == Ok::<bool, Error>(false),
        k < docs.len() ==> eval(c, Field::Doc(docs@[k])) != Ok::<bool, Error>(false),
    ensures
        eval(c, Field::DocArray(docs)) == if k < docs.len() {
            eval(c, Field::Doc(docs@[k]))
        } else {
            Ok::<bool, Error>(false)
        },
{
    lemma_docs_upto(c, docs@, k);
}

} // verus!
