#![allow(unused_imports)]

use chrono::{Duration, TimeZone, Utc};
use connor::cond::{match_conditions, CompoundOp, Condition, Op};
use connor::doc::{DateTime, Doc, Field, Status};
use connor::error::Error;

#[allow(dead_code)]
fn instant(t: chrono::DateTime<chrono::Utc>) -> DateTime {
    DateTime::new(t.timestamp(), t.timestamp_subsec_nanos())
}

#[allow(dead_code)]
fn instants(v: Vec<chrono::DateTime<chrono::Utc>>) -> Vec<DateTime> {
    v.into_iter().map(instant).collect()
}

#[allow(dead_code)]
fn opt_instant(t: Option<chrono::DateTime<chrono::Utc>>) -> Option<DateTime> {
    t.map(instant)
}

#[allow(dead_code)]
fn opt_instants(v: Vec<Option<chrono::DateTime<chrono::Utc>>>) -> Vec<Option<DateTime>> {
    v.into_iter().map(opt_instant).collect()
}

#[allow(dead_code)]
fn bits(x: f64) -> u64 {
    x.to_bits()
}

#[allow(dead_code)]
fn floats(v: Vec<f64>) -> Vec<u64> {
    v.into_iter().map(bits).collect()
}

#[allow(dead_code)]
fn opt_bits(x: Option<f64>) -> Option<u64> {
    x.map(bits)
}

#[allow(dead_code)]
fn opt_floats(v: Vec<Option<f64>>) -> Vec<Option<u64>> {
    v.into_iter().map(opt_bits).collect()
}

#[allow(dead_code)]
fn now_time() -> chrono::DateTime<chrono::Utc> {
    chrono::Utc.with_ymd_and_hms(2024, 4, 8, 12, 34, 56).unwrap()
}

#[allow(dead_code)]
fn now() -> Field {
    Field::DateTime(instant(now_time()))
}

#[allow(dead_code)]
fn yesterday_time() -> chrono::DateTime<chrono::Utc> {
    chrono::Utc.with_ymd_and_hms(2024, 4, 7, 12, 34, 56).unwrap()
}

#[allow(dead_code)]
fn yesterday() -> Field {
    Field::DateTime(instant(yesterday_time()))
}

#[allow(dead_code)]
fn get_fields() -> Vec<Field> {
    vec![
        Field::Int(5),
        Field::String("str".to_string()),
        Field::Float(bits(1.2)),
        Field::Bool(true),
        now(),
    ]
}

#[allow(dead_code)]
fn get_field(index: usize) -> Field {
    get_fields()[index].clone()
}

#[allow(dead_code)]
fn get_doc() -> Doc {
    Doc {
        hidden: false,
        status: Status::Active,
        fields: get_fields(),
        schema_version_id: "".to_string(),
    }
}

#[allow(dead_code)]
fn expect(actual: Result<bool, Error>, expect_match: bool, expect_error: bool) {
    match actual {
        Ok(true) => assert!(expect_match, "Expected match"),
        Ok(false) => assert!(!expect_match, "Expected no match"),
        _ => {
            if !expect_error {
                panic!("Expected no error")
            }
        }
    }
}

#[allow(dead_code)]
fn test_op(doc_field: Field, op: Op, target_field: Field, expect_match: bool) {
    let cond = Condition::Op(op, target_field);
    expect(match_conditions(&cond, &doc_field), expect_match, false);
}

#[test]
fn op_ilike_test_ilike() {
    let field = Field::String("Source is the glue of web3".to_string());

    // exact match
    let cond = Condition::Op(Op::ILIKE, field.clone());
    expect(match_conditions(&cond, &field), true, false);

    // not exact match
    let cond = Condition::Op(Op::ILIKE, Field::String("Source is the glue".to_string()));
    expect(match_conditions(&cond, &field), false, false);

    // match prefix
    let cond = Condition::Op(Op::ILIKE, Field::String("SOURCE%".to_string()));
    expect(match_conditions(&cond, &field), true, false);

    // match suffix
    let cond = Condition::Op(Op::ILIKE, Field::String("%WEB3".to_string()));
    expect(match_conditions(&cond, &field), true, false);

    // match contains
    let cond = Condition::Op(Op::ILIKE, Field::String("%GLUE%".to_string()));
    expect(match_conditions(&cond, &field), true, false);

    // match start and end with
    let cond = Condition::Op(Op::ILIKE, Field::String("source%WEB3".to_string()));
    expect(match_conditions(&cond, &field), true, false);
}

#[test]
fn op_ilike_test_ilike_null() {
    let str_field = Field::String("Source is the glue of web3".to_string());

    let cond = Condition::Op(Op::ILIKE, Field::Null);
    expect(match_conditions(&cond, &str_field), false, false);

    let cond = Condition::Op(Op::ILIKE, str_field);
    expect(match_conditions(&cond, &Field::Null), false, false);
}
