use mongodb_language_model::{
    parse, Clause, Expression, ExpressionTreeClause, JsonValue, LeafClause, LeafValue,
    ListOperator, Member, Operator, OperatorExpressionOperator, Value, ValueOperator,
};

fn leaf(key: &str, value: JsonValue) -> Clause {
    Clause::Leaf(LeafClause {
        key: key.to_string(),
        value: Value::Leaf(LeafValue { value }),
    })
}

#[test]
fn lib_test_parse_simple() {
    let expression = parse(r#"{"status": "1"}"#).unwrap();
    assert_eq!(
        expression,
        Expression {
            clauses: vec![leaf("status", JsonValue::Str("1".to_string()))]
        }
    );
}

#[test]
fn test_parse_true_bool() {
    let expression = parse(r#"{"status": true}"#).unwrap();
    assert_eq!(
        expression,
        Expression {
            clauses: vec![leaf("status", JsonValue::Boolean(true))]
        }
    );
}

#[test]
fn test_parse_false_bool() {
    let expression = parse(r#"{"status": false}"#).unwrap();
    assert_eq!(
        expression,
        Expression {
            clauses: vec![leaf("status", JsonValue::Boolean(false))]
        }
    );
}

#[test]
fn test_parse_null() {
    let expression = parse(r#"{"status": null}"#).unwrap();
    assert_eq!(
        expression,
        Expression {
            clauses: vec![leaf("status", JsonValue::Null)]
        }
    );
}

#[test]
fn test_parse_simple_with_extended_double() {
    let expression = parse(r#"{"x":{"$f":1.2}}"#).unwrap();
    assert_eq!(
        expression,
        Expression {
            clauses: vec![leaf("x", JsonValue::Number("1.2".to_string()))]
        }
    );
}

#[test]
fn test_parse_simple_with_alt_extended_double() {
    let expression = parse(r#"{"status": { "$numberDecimal": 1.2 }}"#).unwrap();
    assert_eq!(
        expression,
        Expression {
            clauses: vec![leaf("status", JsonValue::Number("1.2".to_string()))]
        }
    );
}

#[test]
fn test_parse_simple_with_double() {
    let expression = parse(r#"{"status": 1.2}"#).unwrap();
    assert_eq!(
        expression,
        Expression {
            clauses: vec![leaf("status", JsonValue::Number("1.2".to_string()))]
        }
    );
}

#[test]
fn test_parse_with_regex() {
    // regex operators are not classified yet; they stay future extensions
}

#[test]
fn test_parse_with_or() {
    let expression = parse(r#"{"$or":[{"status":"A"},{"qty":{"$lt":30}}]}"#).unwrap();
    assert_eq!(
        expression,
        Expression {
            clauses: vec![Clause::ExpressionTree(
                ExpressionTreeClause {
                    operator: "$or".to_string(),
                    expressions: vec![
                        Expression {
                            clauses: vec![leaf("status", JsonValue::Str("A".to_string()))],
                        },
                        Expression {
                            clauses: vec![Clause::Leaf(LeafClause {
                                key: "qty".to_string(),
                                value: Value::Operators(vec![Operator::Value(ValueOperator {
                                    operator: "$lt".to_string(),
                                    value: LeafValue {
                                        value: JsonValue::Number("30".to_string())
                                    }
                                })])
                            })],
                        },
                    ],
                }
            )]
        }
    );
}

#[test]
fn lib_test_parse_with_list_operator() {
    let expression = parse(r#"{"status":{"$in":["A","D"]},"x":2}"#).unwrap();
    assert_eq!(
        expression,
        Expression {
            clauses: vec![
                Clause::Leaf(LeafClause {
                    key: "status".to_string(),
                    value: Value::Operators(vec![Operator::List(ListOperator {
                        operator: "$in".to_string(),
                        values: vec![
                            LeafValue {
                                value: JsonValue::Str("A".to_string())
                            },
                            LeafValue {
                                value: JsonValue::Str("D".to_string())
                            },
                        ],
                    })]),
                }),
                leaf("x", JsonValue::Number("2".to_string())),
            ]
        }
    );
}

#[test]
fn test_parse_simple_with_not() {
    let expression = parse(r#"{"age":{"$not":{"$gt":12}}}"#).unwrap();
    assert_eq!(
        expression,
        Expression {
            clauses: vec![Clause::Leaf(LeafClause {
                key: "age".to_string(),
                value: Value::Operators(vec![Operator::ExpressionOperator(
                    OperatorExpressionOperator {
                        operator: "$not".to_string(),
                        operators: vec![Operator::Value(ValueOperator {
                            operator: "$gt".to_string(),
                            value: LeafValue {
                                value: JsonValue::Number("12".to_string())
                            }
                        })]
                    }
                )])
            })]
        }
    );
}

#[test]
fn test_empty_query_parses_to_empty_expression() {
    let expression = parse("{}").unwrap();
    assert_eq!(expression, Expression { clauses: vec![] });
}

#[test]
fn test_clause_order_and_duplicates_preserved() {
    let expression = parse(r#"{"a": 1, "b": 2, "a": 3}"#).unwrap();
    let keys: Vec<String> = expression
        .clauses
        .iter()
        .map(|c| match c {
            Clause::Leaf(lc) => lc.key.clone(),
            Clause::ExpressionTree(tc) => tc.operator.clone(),
        })
        .collect();
    assert_eq!(keys, vec!["a".to_string(), "b".to_string(), "a".to_string()]);
}

#[test]
fn test_opaque_object_leaf_preserved() {
    let expression = parse(r#"{"loc": {"lat": 1, "lon": -2}}"#).unwrap();
    assert_eq!(
        expression,
        Expression {
            clauses: vec![leaf(
                "loc",
                JsonValue::Object(vec![
                    Member {
                        key: "lat".to_string(),
                        value: JsonValue::Number("1".to_string())
                    },
                    Member {
                        key: "lon".to_string(),
                        value: JsonValue::Number("-2".to_string())
                    },
                ])
            )]
        }
    );
}

#[test]
fn test_extended_decimal_unwrap_is_idempotent() {
    let wrapped = parse(r#"{"x":{"$numberDecimal":1.2}}"#).unwrap();
    let plain = parse(r#"{"x":1.2}"#).unwrap();
    assert_eq!(wrapped, plain);
}

#[test]
fn test_number_forms_preserved() {
    let expression = parse(r#"{"a": 1.5e3, "b": -0.5, "c": 0, "d": 12E+2}"#).unwrap();
    let expected = Expression {
        clauses: vec![
            leaf("a", JsonValue::Number("1.5e3".to_string())),
            leaf("b", JsonValue::Number("-0.5".to_string())),
            leaf("c", JsonValue::Number("0".to_string())),
            leaf("d", JsonValue::Number("12E+2".to_string())),
        ],
    };
    assert_eq!(expression, expected);
}

#[test]
fn test_string_escapes_decoded() {
    let expression = parse(r#"{"k": "a\nb\t\"\\A"}"#).unwrap();
    assert_eq!(
        expression,
        Expression {
            clauses: vec![leaf("k", JsonValue::Str("a\nb\t\"\\A".to_string()))]
        }
    );
}

#[test]
fn test_surrogate_pair_escape_decoded() {
    let expression = parse(r#"{"k": "\uD83D\uDE00"}"#).unwrap();
    assert_eq!(
        expression,
        Expression {
            clauses: vec![leaf("k", JsonValue::Str("\u{1F600}".to_string()))]
        }
    );
}

#[test]
fn test_lone_surrogate_escape_rejected() {
    assert!(parse(r#"{"k": "\uD83D"}"#).is_err());
}

#[test]
fn test_deeply_nested_negation_preserves_structure() {
    let expression = parse(r#"{"age":{"$not":{"$not":{"$not":{"$gt":1}}}}}"#).unwrap();
    let mut depth = 0;
    let mut ops = match &expression.clauses[0] {
        Clause::Leaf(lc) => match &lc.value {
            Value::Operators(ops) => ops,
            _ => panic!("expected operators"),
        },
        _ => panic!("expected leaf clause"),
    };
    loop {
        assert_eq!(ops.len(), 1);
        match &ops[0] {
            Operator::ExpressionOperator(eo) => {
                assert_eq!(eo.operator, "$not");
                depth += 1;
                ops = &eo.operators;
            }
            Operator::Value(vo) => {
                assert_eq!(vo.operator, "$gt");
                break;
            }
            _ => panic!("unexpected operator shape"),
        }
    }
    assert_eq!(depth, 3);
}

#[test]
fn test_syntax_errors_are_reported_not_panicked() {
    for bad in [
        r#"{"k":}"#,
        r#"{"k": "unterminated}"#,
        r#"{"k": 1"#,
        r#""#,
        r#"{"k": 1} trailing"#,
        r#"{"$or": []}"#,
        r#"{"status": {"$in": []}}"#,
        r#"{"k": 01}"#,
        r#"{"k": 1.}"#,
        r#"{"k": [1, 2]}"#,
        r#"{,}"#,
        r#"{"a": 1,}"#,
    ] {
        assert!(parse(bad).is_err(), "input should be refused: {}", bad);
    }
}

#[test]
fn test_error_carries_position_and_message() {
    let err = parse("{\n  \"k\": }").unwrap_err();
    assert_eq!(err.line, 2);
    assert_eq!(err.column, 8);
    assert_eq!(err.offset, 9);
    let msg = err.message();
    assert!(msg.starts_with("syntax error at line 2, column 8"), "{}", msg);
    assert!(!err.expected.is_empty());
}

#[test]
fn test_wrapper_with_extra_members_rejected() {
    assert!(parse(r#"{"x": {"$f": 1, "b": 2}}"#).is_err());
}

#[test]
fn test_wrapper_key_with_string_operand_is_value_operator() {
    let expression = parse(r#"{"x": {"$f": "y"}}"#).unwrap();
    assert_eq!(
        expression,
        Expression {
            clauses: vec![Clause::Leaf(LeafClause {
                key: "x".to_string(),
                value: Value::Operators(vec![Operator::Value(ValueOperator {
                    operator: "$f".to_string(),
                    value: LeafValue {
                        value: JsonValue::Str("y".to_string())
                    }
                })])
            })]
        }
    );
}

#[test]
fn test_unknown_operator_parses_by_shape() {
    let expression = parse(r#"{"k": {"$frobnicate": 7}}"#).unwrap();
    assert_eq!(
        expression,
        Expression {
            clauses: vec![Clause::Leaf(LeafClause {
                key: "k".to_string(),
                value: Value::Operators(vec![Operator::Value(ValueOperator {
                    operator: "$frobnicate".to_string(),
                    value: LeafValue {
                        value: JsonValue::Number("7".to_string())
                    }
                })])
            })]
        }
    );
}

#[test]
fn test_whitespace_everywhere() {
    let spaced = parse(" {\t\"a\" :\n1 , \"b\" : true } ").unwrap();
    let tight = parse(r#"{"a":1,"b":true}"#).unwrap();
    assert_eq!(spaced, tight);
}

#[test]
fn test_bmp_unicode_escape_decoded() {
    let expression = parse(r#"{"k": "Aé"}"#).unwrap();
    assert_eq!(
        expression,
        Expression {
            clauses: vec![leaf("k", JsonValue::Str("A\u{00e9}".to_string()))]
        }
    );
}

#[test]
fn test_error_message_is_exact() {
    let err = parse(r#"x"#).unwrap_err();
    assert_eq!(err.offset, 0);
    assert_eq!(err.line, 1);
    assert_eq!(err.column, 1);
    let msg = err.message();
    assert_eq!(msg, "syntax error at line 1, column 1: expected expression");
}

#[test]
fn test_error_offset_at_failure_point() {
    let err = parse(r#"{"a": 1, }"#).unwrap_err();
    assert_eq!(err.offset, 9);
    assert_eq!(err.line, 1);
    assert_eq!(err.column, 10);
}

#[test]
fn test_nested_wrapper_inside_opaque_object_kept_verbatim() {
    let expression = parse(r#"{"loc": {"a": {"$f": 1.2}}}"#).unwrap();
    assert_eq!(
        expression,
        Expression {
            clauses: vec![leaf(
                "loc",
                JsonValue::Object(vec![Member {
                    key: "a".to_string(),
                    value: JsonValue::Object(vec![Member {
                        key: "$f".to_string(),
                        value: JsonValue::Number("1.2".to_string())
                    }])
                }])
            )]
        }
    );
}

#[test]
fn test_dollar_key_with_scalar_value_is_leaf_clause() {
    let expression = parse(r#"{"$weird": 5}"#).unwrap();
    assert_eq!(
        expression,
        Expression {
            clauses: vec![leaf("$weird", JsonValue::Number("5".to_string()))]
        }
    );
}
