use connor::cond::{CompoundOp, Condition, Op};
use connor::decode::{deserialize_condition, match_conditions_with};
use connor::doc::Field;

const SIMPLE_EQ_COND_JSON: &str = r#"
{
    "PROP": {
        "index": 4,
        "condition": {
            "EQ": {
                "Int": 10
            }
        }
    }
}"#;

const NESTED_PROPS_JSON: &str = r#"
{
    "AND": [
        {
            "PROP": {
                "index": 0,
                "condition": {
                    "EQ": {
                        "Int": 10
                    }
                }
            }
        },
        {
            "PROP": {
                "index": 1,
                "condition": {
                    "PROP": {
                        "index": 0,
                        "condition": {
                            "IN": {
                                "IntArray": [1, 2, 3]
                            }
                        }
                    }
                }
            }
        }
    ]
}"#;

const AND_COND_JSON: &str = r#"
{
    "AND":[
       {
          "PROP":{
             "condition":{
                "NE":{
                   "String":"bae-3bfe0092-e31f-5ebe-a3ba-fa18fac448a6"
                }
             },
             "index":0
          }
       },
       {
          "PROP":{
             "condition":{
                "EQ":{
                   "String":"bae-fd541c25-229e-5280-b44b-e5c2af3e374d"
                }
             },
             "index":4
          }
       }
    ]
 }"#;

const AUTHOR_DOC_WITH_PROPS_JSON: &str = r#"{
    "fields":[
       {
          "String":"bae-3bfe0092-e31f-5ebe-a3ba-fa18fac448a6"
       },
       {
          "Int":65
       },
       {
          "String":"John Grisham"
       },
       null,
       null,
       null,
       null,
       null,
       null
    ]
 }"#;

const EQ_AND_NE_COND_JSON: &str = r#" {
"AND":[
   {
      "PROP":{
         "condition":{
            "NE":{
               "String":"bae-edeade01-2d21-5d6d-aadf-efc5a5279de5"
            }
         },
         "index":0
      }
   },
   {
      "PROP":{
         "condition":{
            "EQ":{
               "String":"bae-807ea028-6c13-5f86-a72b-46e8b715a162"
            }
         },
         "index":2
      }
   }
]}"#;

const DOC_WITH_WITH_2_STRINGS_JSON: &str = r#"{
    "fields":[
       {
          "String":"bae-78a40f28-a4b8-5dca-be44-392b0f96d0ff"
       },
       null,
       {
          "String":"bae-807ea028-6c13-5f86-a72b-46e8b715a162"
       },
       null,
       null,
       null,
       null
    ]
 }"#;

const COND_1_JSON: &str = r#"{"GT":{"Int":0},"NE":null}"#;

const FIELD_1_JSON: &str = r#"{"Int":2}"#;

const COND_2_JSON: &str = r#"{"LT":{"Float":9}}"#;

const FIELD_2_JSON: &str = r#"null"#;

#[test]
fn deserialize_simple_cond() {
    let result = deserialize_condition(SIMPLE_EQ_COND_JSON);

    assert!(result.is_ok());
    let cond = result.unwrap();

    match cond {
        Condition::Prop(index, condition) => {
            assert_eq!(index, 4);
            match &*condition {
                Condition::Op(op, field) => {
                    assert_eq!(*op, Op::EQ);
                    if let Field::Int(int_val) = field {
                        assert_eq!(*int_val, 10);
                    } else {
                        panic!("Expected Int");
                    }
                }
                _ => panic!("Expected Op"),
            }
        }
        _ => panic!("Expected CompoundOp"),
    }
}

#[test]
fn deserialize_cond_with_nested_props() {
    let result = deserialize_condition(NESTED_PROPS_JSON);

    assert!(result.is_ok());
    let cond = result.unwrap();

    match cond {
        Condition::CompoundOp(op, conditions) => {
            assert_eq!(op, CompoundOp::AND);
            assert_eq!(conditions.len(), 2);
            match &conditions[0] {
                Condition::Prop(index, condition) => {
                    assert_eq!(*index, 0);
                    match &**condition {
                        Condition::Op(op, field) => {
                            assert_eq!(*op, Op::EQ);
                            if let Field::Int(int_val) = field {
                                assert_eq!(*int_val, 10);
                            } else {
                                panic!("Expected Int");
                            }
                        }
                        _ => panic!("Expected Op"),
                    }
                }
                _ => panic!("Expected Prop"),
            }
            match &conditions[1] {
                Condition::Prop(index, condition) => {
                    assert_eq!(*index, 1);
                    match &**condition {
                        Condition::Prop(index, condition) => {
                            assert_eq!(*index, 0);
                            match &**condition {
                                Condition::Op(op, field) => {
                                    assert_eq!(*op, Op::IN);
                                    if let Field::IntArray(int_arr) = field {
                                        assert_eq!(int_arr, &[1, 2, 3]);
                                    } else {
                                        panic!("Expected IntArray");
                                    }
                                }
                                _ => panic!("Expected Op"),
                            }
                        }
                        _ => panic!("Expected Prop"),
                    }
                }
                _ => panic!("Expected Prop"),
            }
        }
        _ => panic!("Expected CompoundOp"),
    }
}

#[test]
fn match_doc_against_and_cond() {
    let result = match_conditions_with(AND_COND_JSON, AUTHOR_DOC_WITH_PROPS_JSON);

    assert!(result.is_ok());
    assert_eq!(result.unwrap(), false);
}

#[test]
fn match_conditions_against_field_match() {
    let result = match_conditions_with(COND_1_JSON, FIELD_1_JSON);

    assert!(result.is_ok());
    assert!(result.unwrap());
}

#[test]
fn match_conditions_against_field_match_no_match() {
    let result = match_conditions_with(COND_2_JSON, FIELD_2_JSON);

    assert!(result.is_ok());
    assert!(!result.unwrap());
}

#[test]
fn match_conditions_with_null_op() {
    for op in ["NOT", "AND", "OR"] {
        let cond_str = format!("{{\"{}\":null}}", op);
        let result = match_conditions_with(&cond_str, FIELD_1_JSON);

        assert!(result.is_err(), "Expected error for op: {}", op);
    }
}
#[test]
fn match_with_text_and_of_ne_and_eq() {
    let result = match_conditions_with(EQ_AND_NE_COND_JSON, DOC_WITH_WITH_2_STRINGS_JSON);
    assert_eq!(result, Ok(true));
}

#[test]
fn match_with_text_prop_on_null_field() {
    let result = match_conditions_with(SIMPLE_EQ_COND_JSON, AUTHOR_DOC_WITH_PROPS_JSON);
    assert_eq!(result, Ok(false));
}
