use mongodb_language_model::{MongoDbParser, Rule};

#[test]
fn lib_test_object_null() {
    let parse = MongoDbParser::parse(Rule::Object, r#"{"status": null}"#);
    assert!(parse.is_ok());
}

#[test]
fn lib_test_object_string() {
    let parse = MongoDbParser::parse(Rule::Object, r#"{"status": "some"}"#);
    assert!(parse.is_ok());
}

#[test]
fn lib_test_member_null() {
    let parse = MongoDbParser::parse(Rule::Member, r#""status": null"#);
    assert!(parse.is_ok());
}

#[test]
fn lib_test_member_false() {
    let parse = MongoDbParser::parse(Rule::Member, r#""status": false"#);
    assert!(parse.is_ok());
}

#[test]
fn lib_test_member_true() {
    let parse = MongoDbParser::parse(Rule::Member, r#""status": true"#);
    assert!(parse.is_ok());
}

#[test]
fn lib_test_member_string() {
    let parse = MongoDbParser::parse(Rule::Member, r#""status": "true""#);
    assert!(parse.is_ok());
}

#[test]
fn test_member_decimal_number() {
    let parse = MongoDbParser::parse(Rule::Member, r#""status": 1.2"#);
    assert!(parse.is_ok());
}

#[test]
fn test_member_explicit_decimal_number() {
    let parse = MongoDbParser::parse(Rule::Member, r#""status": { "$numberDecimal": 1.2 }"#);
    assert!(parse.is_ok());
}

#[test]
fn test_member_explicit_alt_decimal_number() {
    let parse = MongoDbParser::parse(Rule::Member, r#""status": { "$f": 1.2 }"#);
    assert!(parse.is_ok());
}

#[test]
fn test_json_object_null() {
    let parse = MongoDbParser::parse(Rule::Json, r#""#);
    assert!(parse.is_ok());
}

#[test]
fn main_test_object_null() {
    let parse = MongoDbParser::parse(Rule::Object, r#"{"status": null}"#);
    assert!(parse.is_ok());
}

#[test]
fn main_test_object_string() {
    let parse = MongoDbParser::parse(Rule::Object, r#"{"status": "some"}"#);
    assert!(parse.is_ok());
}

#[test]
fn main_test_member_null() {
    let parse = MongoDbParser::parse(Rule::Member, r#""status": null"#);
    assert!(parse.is_ok());
}

#[test]
fn main_test_member_false() {
    let parse = MongoDbParser::parse(Rule::Member, r#""status": false"#);
    assert!(parse.is_ok());
}

#[test]
fn main_test_member_true() {
    let parse = MongoDbParser::parse(Rule::Member, r#""status": true"#);
    assert!(parse.is_ok());
}

#[test]
fn main_test_member_string() {
    let parse = MongoDbParser::parse(Rule::Member, r#""status": "true""#);
    assert!(parse.is_ok());
}

#[test]
fn test_query_rule_requires_whole_input() {
    assert!(MongoDbParser::parse(Rule::Query, r#"{"a": 1}"#).is_ok());
    assert!(MongoDbParser::parse(Rule::Query, r#"{"a": 1} extra"#).is_err());
}

#[test]
fn test_other_rules_match_a_prefix() {
    assert!(MongoDbParser::parse(Rule::Object, r#"{"a": 1} extra"#).is_ok());
    assert!(MongoDbParser::parse(Rule::StringLiteral, r#""abc" extra"#).is_ok());
}

#[test]
fn test_json_rule_accepts_a_whole_document() {
    assert!(MongoDbParser::parse(Rule::Json, r#"[1, {"a": null}, "x"]"#).is_ok());
    assert!(MongoDbParser::parse(Rule::Json, r#"[1,"#).is_err());
}

#[test]
fn test_operator_rules_by_shape() {
    assert!(MongoDbParser::parse(Rule::ListOperatorType, r#""$in": [1, 2]"#).is_ok());
    assert!(MongoDbParser::parse(Rule::ValueOperatorType, r#""$lt": 30"#).is_ok());
    assert!(
        MongoDbParser::parse(Rule::OperatorExpressionOperatorType, r#""$not": {"$gt": 1}"#)
            .is_ok()
    );
    assert!(MongoDbParser::parse(Rule::Operator, r#""plain": 1"#).is_err());
}

#[test]
fn test_rule_names_render() {
    assert_eq!(Rule::Query.name(), "query");
    assert_eq!(Rule::ExpressionTreeClause.name(), "expression_tree_clause");
}

#[test]
fn test_every_rule_entry_point() {
    assert!(MongoDbParser::parse(Rule::Expression, r#"{"a": 1}"#).is_ok());
    assert!(MongoDbParser::parse(Rule::Clause, r#""a": 1"#).is_ok());
    assert!(MongoDbParser::parse(Rule::LeafClause, r#""a": 1"#).is_ok());
    assert!(MongoDbParser::parse(Rule::ExpressionTreeClause, r#""$or": [{"a": 1}]"#).is_ok());
    assert!(MongoDbParser::parse(Rule::ExpressionList, r#"{"a": 1}, {"b": 2}"#).is_ok());
    assert!(MongoDbParser::parse(Rule::Value, r#"{"$lt": 3}"#).is_ok());
    assert!(MongoDbParser::parse(Rule::LeafValue, r#"null"#).is_ok());
    assert!(MongoDbParser::parse(Rule::LeafValueList, r#"1, "a""#).is_ok());
    assert!(MongoDbParser::parse(Rule::OperatorExpression, r#"{"$gt": 1, "$lt": 9}"#).is_ok());
    assert!(MongoDbParser::parse(Rule::OperatorList, r#""$gt": 1, "$lt": 9"#).is_ok());
    assert!(MongoDbParser::parse(Rule::Operator, r#""$size": 3"#).is_ok());
    assert!(MongoDbParser::parse(Rule::Array, r#"[null, []]"#).is_ok());
    assert!(MongoDbParser::parse(Rule::StringLiteral, r#""s""#).is_ok());
    assert!(MongoDbParser::parse(Rule::NumberLiteral, "-12.5e-3").is_ok());
    assert!(MongoDbParser::parse(Rule::BooleanLiteral, "false").is_ok());
    assert!(MongoDbParser::parse(Rule::NullLiteral, "null").is_ok());
    assert!(MongoDbParser::parse(Rule::NullLiteral, "nul").is_err());
    assert!(MongoDbParser::parse(Rule::BooleanLiteral, "True").is_err());
    assert!(MongoDbParser::parse(Rule::StringLiteral, r#""open"#).is_err());
}
