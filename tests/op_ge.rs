#![allow(unused_imports)]

use chrono::{Duration, TimeZone, Utc};
use connor::cond::{match_conditions, CompoundOp, Condition, Op};
use connor::doc::{DateTime, Doc, Field, Status};
use connor::error::Error;

#[allow(dead_code)]
fn instant(t: chrono::DateTime<chrono::Utc>) -> DateTime {
    DateTime::new(t.timestamp(), t.timestamp_subsec_nanos())
}

#[allow(dead_code)]
fn instants(v: Vec<chrono::DateTime<chrono::Utc>>) -> Vec<DateTime> {
    v.into_iter().map(instant).collect()
}

#[allow(dead_code)]
fn opt_instant(t: Option<chrono::DateTime<chrono::Utc>>) -> Option<DateTime> {
    t.map(instant)
}

#[allow(dead_code)]
fn opt_instants(v: Vec<Option<chrono::DateTime<chrono::Utc>>>) -> Vec<Option<DateTime>> {
    v.into_iter().map(opt_instant).collect()
}

#[allow(dead_code)]
fn bits(x: f64) -> u64 {
    x.to_bits()
}

#[allow(dead_code)]
fn floats(v: Vec<f64>) -> Vec<u64> {
    v.into_iter().map(bits).collect()
}

#[allow(dead_code)]
fn opt_bits(x: Option<f64>) -> Option<u64> {
    x.map(bits)
}

#[allow(dead_code)]
fn opt_floats(v: Vec<Option<f64>>) -> Vec<Option<u64>> {
    v.into_iter().map(opt_bits).collect()
}

#[allow(dead_code)]
fn now_time() -> chrono::DateTime<chrono::Utc> {
    chrono::Utc.with_ymd_and_hms(2024, 4, 8, 12, 34, 56).unwrap()
}

#[allow(dead_code)]
fn now() -> Field {
    Field::DateTime(instant(now_time()))
}

#[allow(dead_code)]
fn yesterday_time() -> chrono::DateTime<chrono::Utc> {
    chrono::Utc.with_ymd_and_hms(2024, 4, 7, 12, 34, 56).unwrap()
}

#[allow(dead_code)]
fn yesterday() -> Field {
    Field::DateTime(instant(yesterday_time()))
}

#[allow(dead_code)]
fn get_fields() -> Vec<Field> {
    vec![
        Field::Int(5),
        Field::String("str".to_string()),
        Field::Float(bits(1.2)),
        Field::Bool(true),
        now(),
    ]
}

#[allow(dead_code)]
fn get_field(index: usize) -> Field {
    get_fields()[index].clone()
}

#[allow(dead_code)]
fn get_doc() -> Doc {
    Doc {
        hidden: false,
        status: Status::Active,
        fields: get_fields(),
        schema_version_id: "".to_string(),
    }
}

#[allow(dead_code)]
fn expect(actual: Result<bool, Error>, expect_match: bool, expect_error: bool) {
    match actual {
        Ok(true) => assert!(expect_match, "Expected match"),
        Ok(false) => assert!(!expect_match, "Expected no match"),
        _ => {
            if !expect_error {
                panic!("Expected no error")
            }
        }
    }
}

#[allow(dead_code)]
fn test_op(doc_field: Field, op: Op, target_field: Field, expect_match: bool) {
    let cond = Condition::Op(op, target_field);
    expect(match_conditions(&cond, &doc_field), expect_match, false);
}

#[test]
fn op_ge_test_ge_int() {
    test_op(Field::Int(6), Op::GE, Field::Int(5), true);
    test_op(Field::Int(5), Op::GE, Field::Int(5), true);
    test_op(Field::Int(5), Op::GE, Field::Int(6), false);
}

#[test]
fn op_ge_test_ge_float() {
    test_op(Field::Float(bits(6.0)), Op::GE, Field::Float(bits(5.0)), true);
    test_op(Field::Float(bits(5.0)), Op::GE, Field::Float(bits(5.0)), true);
    test_op(Field::Float(bits(5.0)), Op::GE, Field::Float(bits(6.0)), false);
}

#[test]
fn op_ge_test_ge_float_int() {
    test_op(Field::Float(bits(5.0)), Op::GE, Field::Int(5), true);
    test_op(Field::Float(bits(5.5)), Op::GE, Field::Int(5), true);
    test_op(Field::Int(5), Op::GE, Field::Float(bits(5.0)), true);
    test_op(Field::Int(5), Op::GE, Field::Float(bits(4.5)), true);
}

#[test]
fn op_ge_test_ge_time() {
    test_op(now(), Op::GE, yesterday(), true);
    test_op(now(), Op::GE, now(), true);
    test_op(yesterday(), Op::GE, now(), false);
}

#[test]
fn op_ge_test_ge_null() {
    test_op(Field::Null, Op::GE, Field::Int(5), false);
    test_op(Field::Int(5), Op::GE, Field::Null, false);
}
