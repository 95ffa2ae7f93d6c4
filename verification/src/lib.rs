//! A library for parsing MongoDB-style filter queries into an abstract
//! syntax tree.
//!
//! The entry point is [`parse`], which turns a JSON-shaped filter document
//! into an [`Expression`]: an ordered list of clauses, where each clause is
//! either a field predicate or a logical combinator over sub-expressions,
//! and each operator is classified by the shape of its operand.

pub mod ast;
pub mod error;
pub mod grammar;
pub mod laws;
pub mod parser;

pub use crate::error::{ParseError, Rule};
pub use crate::parser::{parse, rule_matches, MongoDbParser};
pub use crate::laws::{lemma_clause_list_cons, lemma_clause_list_single, lemma_nested_negation_parses, lemma_query_wf};
pub use crate::ast::{
    Clause, Expression, ExpressionTreeClause, JsonValue, LeafClause, LeafValue, ListOperator,
    Member, Operator, OperatorExpressionOperator, Value, ValueOperator,
};


