//! Conditions and their evaluation against a value.

use crate::doc::{Doc, Field};
use crate::error::Error;
use crate::op_eq;
use crate::op_eq::equals;
use crate::op_ge;
use crate::op_ge::at_least;
use crate::op_gt;
use crate::op_gt::greater;
use crate::op_ilike;
use crate::op_ilike::field_ilike;
use crate::op_in;
use crate::op_in::member;
use crate::op_like;
use crate::op_like::field_like;
use vstd::prelude::*;

verus! {

/// A boolean filter over a value.
#[derive(Debug)]
pub enum Condition {
    /// Evaluate the inner condition against field `index` of a document.
    Prop(usize, Box<Condition>),
    /// Compare the value under test with a literal.
    Op(Op, Field),
    /// Combine the results of the inner conditions.
    CompoundOp(CompoundOp, Vec<Condition>),
}

/// Comparison operators.
#[allow(clippy::upper_case_acronyms)]
#[derive(Clone, Copy, Debug, PartialEq, Eq, Structural)]
pub enum Op {
    EQ,
    NE,
    GE,
    GT,
    LE,
    LT,
    IN,
    NIN,
    LIKE,
    NLIKE,
    ILIKE,
    NILIKE,
}

/// Boolean combinators.
#[allow(clippy::upper_case_acronyms)]
#[derive(Clone, Copy, Debug, PartialEq, Eq, Structural)]
pub enum CompoundOp {
    NOT,
    AND,
    OR,
}

/// Every `NOT` in `c` has an operand.
pub open spec fn well_formed(c: Condition) -> bool
    decreases c,
{
    match c {
        Condition::Op(_, _) => true,
        Condition::Prop(_, sub) => well_formed(*sub),
        Condition::CompoundOp(op, subs) => {
            &&& (op == CompoundOp::NOT ==> subs.len() > 0)
            &&& forall|i: int| 0 <= i < subs.len() ==> well_formed(#[trigger] subs@[i])
        },
    }
}

/// `op` orders its operands.
pub open spec fn is_ordering(op: Op) -> bool {
    op == Op::GT || op == Op::GE || op == Op::LT || op == Op::LE
}

/// Outcome of comparing the value under test `v` with the literal `lit`.
///
/// An ordering operator never holds when either side is `Null`. `LT` and `LE`
/// are the negations of `GE` and `GT`, so two values of kinds that are not
/// ordered against each other are both `LT` and `LE`.
pub open spec fn op_holds(op: Op, lit: Field, v: Field) -> bool {
    if is_ordering(op) && (v is Null || lit is Null) {
        false
    } else {
        match op {
            Op::EQ => equals(lit, v),
            Op::NE => !equals(lit, v),
            Op::GT => greater(lit, v),
            Op::GE => at_least(lit, v),
            Op::LT => !at_least(lit, v),
            Op::LE => !greater(lit, v),
            Op::IN => member(lit, v),
            Op::NIN => !member(lit, v),
            Op::LIKE => field_like(lit, v),
            Op::NLIKE => !field_like(lit, v),
            Op::ILIKE => field_ilike(lit, v),
            Op::NILIKE => !field_ilike(lit, v),
        }
    }
}

/// Result of evaluating `c` against `v`.
///
/// An array of documents matches when one of its documents does, tried in
/// order; an error in any document tried ends the evaluation. An optional
/// scalar is evaluated as its scalar when present and never matches when
/// absent. Every other value goes to [`eval_node`] as it is.
pub open spec fn eval(c: Condition, v: Field) -> Result<bool, Error>
    decreases c, 2int, 0int,
{
    match v {
        Field::DocArray(docs) => eval_any_doc(c, docs@),
        Field::OptionalBool(o) => match o {
            Some(x) => eval_node(c, Field::Bool(x)),
            None => Ok(false),
        },
        Field::OptionalInt(o) => match o {
            Some(x) => eval_node(c, Field::Int(x)),
            None => Ok(false),
        },
        Field::OptionalFloat(o) => match o {
            Some(x) => eval_node(c, Field::Float(x)),
            None => Ok(false),
        },
        Field::OptionalString(o) => match o {
            Some(x) => eval_node(c, Field::String(x)),
            None => Ok(false),
        },
        Field::OptionalDateTime(o) => match o {
            Some(x) => eval_node(c, Field::DateTime(x)),
            None => Ok(false),
        },
        _ => eval_node(c, v),
    }
}

/// Result of evaluating `c` against the documents `docs` in turn, until one
/// matches or fails.
pub open spec fn eval_any_doc(c: Condition, docs: Seq<Doc>) -> Result<bool, Error>
    decreases c, 1int, docs.len(),
{
    if docs.len() == 0 {
        Ok(false)
    } else {
        match eval_node(c, Field::Doc(docs[0])) {
            Ok(true) => Ok(true),
            Ok(false) => eval_any_doc(c, docs.subrange(1, docs.len() as int)),
            Err(e) => Err(e),
        }
    }
}

/// Result of evaluating `c` against a value that is neither an array of
/// documents nor an optional scalar.
///
/// A projection reads a field of a document (an error past its last field)
/// and does not match any other value. `AND` and `OR` evaluate their
/// operands in order and stop at the first one that decides or fails. `NOT`
/// negates its first operand.
pub open spec fn eval_node(c: Condition, v: Field) -> Result<bool, Error>
    decreases c, 0int, 0int,
{
    match c {
        Condition::Op(op, lit) => Ok(op_holds(op, lit, v)),
        Condition::Prop(index, sub) => match v {
            Field::Doc(d) => if index < d.fields.len() {
                eval(*sub, d.fields@[index as int])
            } else {
                Err(Error::OutOfBoundPropIndex)
            },
            _ => Ok(false),
        },
        Condition::CompoundOp(op, subs) => match op {
            CompoundOp::AND => eval_all(subs@, v),
            CompoundOp::OR => eval_some(subs@, v),
            CompoundOp::NOT => if subs.len() > 0 {
                match eval(subs@[0], v) {
                    Ok(b) => Ok(!b),
                    Err(e) => Err(e),
                }
            } else {
                Ok(false)
            },
        },
    }
}

/// Conjunction of `subs` on `v`: the first operand that is false or fails
/// decides; true when there is none.
pub open spec fn eval_all(subs: Seq<Condition>, v: Field) -> Result<bool, Error>
    decreases subs, 0int, 0int,
{
    if subs.len() == 0 {
        Ok(true)
    } else {
        match eval(subs[0], v) {
            Ok(true) => eval_all(subs.subrange(1, subs.len() as int), v),
            Ok(false) => Ok(false),
            Err(e) => Err(e),
        }
    }
}

/// Disjunction of `subs` on `v`: the first operand that is true or fails
/// decides; false when there is none.
pub open spec fn eval_some(subs: Seq<Condition>, v: Field) -> Result<bool, Error>
    decreases subs, 0int, 0int,
{
    if subs.len() == 0 {
        Ok(false)
    } else {
        match eval(subs[0], v) {
            Ok(true) => Ok(true),
            Ok(false) => eval_some(subs.subrange(1, subs.len() as int), v),
            Err(e) => Err(e),
        }
    }
}

/// Outcome of comparing `doc_field` with the literal `lit` under `op`.
pub fn apply_op(op: Op, lit: &Field, doc_field: &Field) -> (r: bool)
    ensures
        r == op_holds(op, *lit, *doc_field),
{
    if (op == Op::GT || op == Op::GE || op == Op::LT || op == Op::LE) && (matches!(doc_field, Field::Null) || matches!(lit, Field::Null)) {
        return false;
    }
    match op {
        Op::EQ => op_eq::handle(lit, doc_field),
        Op::NE => !op_eq::handle(lit, doc_field),
        Op::GT => op_gt::handle(lit, doc_field),
        Op::GE => op_ge::handle(lit, doc_field),
        Op::LT => !op_ge::handle(lit, doc_field),
        Op::LE => !op_gt::handle(lit, doc_field),
        Op::IN => op_in::handle(lit, doc_field),
        Op::NIN => !op_in::handle(lit, doc_field),
        Op::LIKE => op_like::handle(lit, doc_field),
        Op::NLIKE => !op_like::handle(lit, doc_field),
        Op::ILIKE => op_ilike::handle(lit, doc_field),
        Op::NILIKE => !op_ilike::handle(lit, doc_field),
    }
}

/// Outcome of comparing a document with the literal `lit` under `op`: no
/// operator relates a document to a literal, so only the negated ones hold,
/// and `LT` and `LE` unless the literal is `Null`.
fn op_on_doc(op: Op, lit: &Field) -> (r: bool)
    ensures
        forall|d: Doc| r == #[trigger] op_holds(op, *lit, Field::Doc(d)),
{
    match op {
        Op::NE | Op::NIN | Op::NLIKE | Op::NILIKE => true,
        Op::LT | Op::LE => !matches!(lit, Field::Null),
        _ => false,
    }
}

/// Evaluates `condition` against `doc_field`.
///
/// The evaluation reads both values and changes neither; the result is
/// [`eval`] of the two.
pub fn match_conditions(condition: &Condition, doc_field: &Field) -> (r: Result<bool, Error>)
    requires
        well_formed(*condition),
    ensures
        r == eval(*condition, *doc_field),
    decreases condition, 2int, 0int,
{
    match doc_field {
        Field::DocArray(docs) => {
            let mut i: usize = 0;
            proof {
                assert(docs@.subrange(0, docs.len() as int) =~= docs@);
            }
            while i < docs.len()
                invariant
                    well_formed(*condition),
                    *doc_field == Field::DocArray(*docs),
                    i <= docs.len(),
                    eval(*condition, *doc_field) == eval_any_doc(
                        *condition,
                        docs@.subrange(i as int, docs.len() as int),
                    ),
                decreases docs.len() - i,
            {
                let ghost rest = docs@.subrange(i as int, docs.len() as int);
                proof {
                    assert(rest[0] == docs@[i as int]);
                    assert(rest.subrange(1, rest.len() as int) =~= docs@.subrange(
                        i + 1,
                        docs.len() as int,
                    ));
                }
                match match_in_doc(condition, &docs[i]) {
                    Ok(true) => {
                        return Ok(true);
                    },
                    Ok(false) => {},
                    Err(e) => {
                        return Err(e);
                    },
                }
                i = i + 1;
            }
            Ok(false)
        },
        Field::OptionalBool(o) => match o {
            Some(x) => match_node(condition, &Field::Bool(*x)),
            None => Ok(false),
        },
        Field::OptionalInt(o) => match o {
            Some(x) => match_node(condition, &Field::Int(*x)),
            None => Ok(false),
        },
        Field::OptionalFloat(o) => match o {
            Some(x) => match_node(condition, &Field::Float(*x)),
            None => Ok(false),
        },
        Field::OptionalString(o) => match o {
            Some(x) => match_node(condition, &Field::String(x.clone())),
            None => Ok(false),
        },
        Field::OptionalDateTime(o) => match o {
            Some(x) => match_node(condition, &Field::DateTime(*x)),
            None => Ok(false),
        },
        _ => match_node(condition, doc_field),
    }
}

/// Evaluates `condition` against the document `d`, as [`eval_node`] does
/// against `Field::Doc(d)`, without building that value.
fn match_in_doc(condition: &Condition, d: &Doc) -> (r: Result<bool, Error>)
    requires
        well_formed(*condition),
    ensures
        r == eval_node(*condition, Field::Doc(*d)),
    decreases condition, 1int, 0int,
{
    let ghost v = Field::Doc(*d);
    match condition {
        Condition::Op(op, lit) => Ok(op_on_doc(*op, lit)),
        Condition::Prop(index, sub) => {
            if *index < d.fields.len() {
                match_conditions(sub, &d.fields[*index])
            } else {
                Err(Error::OutOfBoundPropIndex)
            }
        },
        Condition::CompoundOp(op, subs) => {
            proof {
                assert(decreases_to!(*condition => (*condition)->CompoundOp_1));
            }
            match op {
                CompoundOp::AND => {
                    let mut i: usize = 0;
                    proof {
                        assert(subs@.subrange(0, subs.len() as int) =~= subs@);
                    }
                    while i < subs.len()
                        invariant
                            *condition == Condition::CompoundOp(*op, *subs),
                            *op == CompoundOp::AND,
                            well_formed(*condition),
                            i <= subs.len(),
                            v == Field::Doc(*d),
                            eval_all(subs@, v) == eval_all(subs@.subrange(i as int, subs.len() as int), v),
                        decreases subs.len() - i,
                    {
                        let ghost rest = subs@.subrange(i as int, subs.len() as int);
                        proof {
                            assert(rest[0] == subs@[i as int]);
                            assert(rest.subrange(1, rest.len() as int) =~= subs@.subrange(i + 1, subs.len() as int));
                            assert(well_formed(subs@[i as int]));
                            assert(decreases_to!(*subs => subs@[i as int]));
                            assert(eval(subs@[i as int], v) == eval_node(subs@[i as int], v));
                        }
                        match match_in_doc(&subs[i], d) {
                            Ok(true) => {},
                            Ok(false) => {
                                return Ok(false);
                            },
                            Err(e) => {
                                return Err(e);
                            },
                        }
                        i = i + 1;
                    }
                    Ok(true)
                },
                CompoundOp::OR => {
                    let mut i: usize = 0;
                    proof {
                        assert(subs@.subrange(0, subs.len() as int) =~= subs@);
                    }
                    while i < subs.len()
                        invariant
                            *condition == Condition::CompoundOp(*op, *subs),
                            *op == CompoundOp::OR,
                            well_formed(*condition),
                            i <= subs.len(),
                            v == Field::Doc(*d),
                            eval_some(subs@, v) == eval_some(subs@.subrange(i as int, subs.len() as int), v),
                        decreases subs.len() - i,
                    {
                        let ghost rest = subs@.subrange(i as int, subs.len() as int);
                        proof {
                            assert(rest[0] == subs@[i as int]);
                            assert(rest.subrange(1, rest.len() as int) =~= subs@.subrange(i + 1, subs.len() as int));
                            assert(well_formed(subs@[i as int]));
                            assert(decreases_to!(*subs => subs@[i as int]));
                            assert(eval(subs@[i as int], v) == eval_node(subs@[i as int], v));
                        }
                        match match_in_doc(&subs[i], d) {
                            Ok(true) => {
                                return Ok(true);
                            },
                            Ok(false) => {},
                            Err(e) => {
                                return Err(e);
                            },
                        }
                        i = i + 1;
                    }
                    Ok(false)
                },
                CompoundOp::NOT => {
                    proof {
                        assert(well_formed(subs@[0]));
                        assert(decreases_to!(*subs => subs@[0]));
                        assert(eval(subs@[0], v) == eval_node(subs@[0], v));
                    }
                    match match_in_doc(&subs[0], d) {
                        Ok(b) => Ok(!b),
                        Err(e) => Err(e),
                    }
                },
            }
        },
    }
}

/// Evaluates `condition` against `doc_field`, which is neither an array of
/// documents nor an optional scalar.
fn match_node(condition: &Condition, doc_field: &Field) -> (r: Result<bool, Error>)
    requires
        well_formed(*condition),
        !(doc_field is DocArray),
    ensures
        r == eval_node(*condition, *doc_field),
    decreases condition, 0int, 0int,
{
    match condition {
        Condition::Op(op, lit) => Ok(apply_op(*op, lit, doc_field)),
        Condition::Prop(index, sub) => match doc_field {
            Field::Doc(d) => {
                if *index < d.fields.len() {
                    match_conditions(sub, &d.fields[*index])
                } else {
                    Err(Error::OutOfBoundPropIndex)
                }
            },
            _ => Ok(false),
        },
        Condition::CompoundOp(op, subs) => {
            proof {
                assert(decreases_to!(*condition => (*condition)->CompoundOp_1));
            }
            match op {
                CompoundOp::AND => {
                    let mut i: usize = 0;
                    proof {
                        assert(subs@.subrange(0, subs.len() as int) =~= subs@);
                    }
                    while i < subs.len()
                        invariant
                            *condition == Condition::CompoundOp(*op, *subs),
                            *op == CompoundOp::AND,
                            well_formed(*condition),
                            i <= subs.len(),
                            eval_all(subs@, *doc_field) == eval_all(subs@.subrange(i as int, subs.len() as int), *doc_field),
                        decreases subs.len() - i,
                    {
                        let ghost rest = subs@.subrange(i as int, subs.len() as int);
                        proof {
                            assert(rest[0] == subs@[i as int]);
                            assert(rest.subrange(1, rest.len() as int) =~= subs@.subrange(i + 1, subs.len() as int));
                            assert(well_formed(subs@[i as int]));
                            assert(decreases_to!(*subs => subs@[i as int]));
                        }
                        match match_conditions(&subs[i], doc_field) {
                            Ok(true) => {},
                            Ok(false) => {
                                return Ok(false);
                            },
                            Err(e) => {
                                return Err(e);
                            },
                        }
                        i = i + 1;
                    }
                    Ok(true)
                },
                CompoundOp::OR => {
                    let mut i: usize = 0;
                    proof {
                        assert(subs@.subrange(0, subs.len() as int) =~= subs@);
                    }
                    while i < subs.len()
                        invariant
                            *condition == Condition::CompoundOp(*op, *subs),
                            *op == CompoundOp::OR,
                            well_formed(*condition),
                            i <= subs.len(),
                            eval_some(subs@, *doc_field) == eval_some(subs@.subrange(i as int, subs.len() as int), *doc_field),
                        decreases subs.len() - i,
                    {
                        let ghost rest = subs@.subrange(i as int, subs.len() as int);
                        proof {
                            assert(rest[0] == subs@[i as int]);
                            assert(rest.subrange(1, rest.len() as int) =~= subs@.subrange(i + 1, subs.len() as int));
                            assert(well_formed(subs@[i as int]));
                            assert(decreases_to!(*subs => subs@[i as int]));
                        }
                        match match_conditions(&subs[i], doc_field) {
                            Ok(true) => {
                                return Ok(true);
                            },
                            Ok(false) => {},
                            Err(e) => {
                                return Err(e);
                            },
                        }
                        i = i + 1;
                    }
                    Ok(false)
                },
                CompoundOp::NOT => {
                    proof {
                        assert(well_formed(subs@[0]));
                        assert(decreases_to!(*subs => subs@[0]));
                    }
                    match match_conditions(&subs[0], doc_field) {
                        Ok(b) => Ok(!b),
                        Err(e) => Err(e),
                    }
                },
            }
        },
    }
}

} // verus!
