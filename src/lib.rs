//! Condition matching over schema-less, positionally addressed documents.
//!
//! A [`cond::Condition`] is a small boolean expression tree that is evaluated
//! against a [`doc::Field`]: a scalar, an array, an optional slot or a nested
//! document. Every operator and the evaluator carry contracts over the spec
//! functions of their modules.
//!
//! - `doc`: the value model (fields, documents, instants).
//! - `float`: binary64 numbers held as bit patterns; IEEE equality and order,
//!   and the conversion from integers.
//! - `seqs`: element-wise comparison and membership over the model's arrays.
//! - `op_eq`, `op_gt`, `op_ge`, `op_in`, `op_like`, `op_ilike`: the operator
//!   families.
//! - `cond`: conditions and their evaluation; `error`: the evaluation error.
//! - `laws`: properties of evaluation, proved for all conditions and values.
//! - `json`, `decode`: reading values, documents and conditions from JSON.
//! - `mapping`: the mapping of property names to field positions.

pub mod cond;
pub mod decode;
pub mod doc;
pub mod error;
pub mod float;
pub mod json;
pub mod laws;
pub mod mapping;
pub mod op_eq;
pub mod op_ge;
pub mod op_gt;
pub mod op_ilike;
pub mod op_in;
pub mod op_like;
pub mod seqs;
