//! The typed abstract syntax tree for filter queries, together with its
//! mathematical model (`*Model` types over `Seq`) and the well-formedness
//! invariants that the grammar guarantees for every tree it produces.
use vstd::prelude::*;

verus! {

/// A scalar or structured JSON value carried by a leaf of the tree.
///
/// Numbers keep the exact lexeme from the source text (integer, decimal or
/// exponent form), so the written form round-trips unchanged.
#[derive(Debug, PartialEq)]
pub enum JsonValue {
    Null,
    Boolean(bool),
    Number(String),
    Str(String),
    Array(Vec<JsonValue>),
    Object(Vec<Member>),
}

/// One `key: value` member of a JSON object, in source order.
#[derive(Debug, PartialEq)]
pub struct Member {
    pub key: String,
    pub value: JsonValue,
}

/// An ordered conjunction of clauses; may be empty, order and duplicate keys
/// are preserved.
#[derive(Debug, PartialEq)]
pub struct Expression {
    pub clauses: Vec<Clause>,
}

/// One field predicate or one nested logical combinator.
#[derive(Debug, PartialEq)]
pub enum Clause {
    Leaf(LeafClause),
    ExpressionTree(ExpressionTreeClause),
}

/// A `key: value` predicate on a single field.
#[derive(Debug, PartialEq)]
pub struct LeafClause {
    pub key: String,
    pub value: Value,
}

/// A logical combinator (for example `$or`) over at least one sub-expression.
#[derive(Debug, PartialEq)]
pub struct ExpressionTreeClause {
    pub operator: String,
    pub expressions: Vec<Expression>,
}

/// The right-hand side of a leaf clause: either a plain value or a non-empty
/// list of operators applied to the field.
#[derive(Debug, PartialEq)]
pub enum Value {
    Leaf(LeafValue),
    Operators(Vec<Operator>),
}

/// A leaf value wrapping one JSON value.
#[derive(Debug, PartialEq)]
pub struct LeafValue {
    pub value: JsonValue,
}

/// A `$`-prefixed predicate, shaped by its operand.
#[derive(Debug, PartialEq)]
pub enum Operator {
    List(ListOperator),
    Value(ValueOperator),
    ExpressionOperator(OperatorExpressionOperator),
}

/// An operator with an array operand holding at least one leaf value.
#[derive(Debug, PartialEq)]
pub struct ListOperator {
    pub operator: String,
    pub values: Vec<LeafValue>,
}

/// An operator with exactly one leaf value as operand.
#[derive(Debug, PartialEq)]
pub struct ValueOperator {
    pub operator: String,
    pub value: LeafValue,
}

/// An operator whose operand is itself a non-empty list of operators.
#[derive(Debug, PartialEq)]
pub struct OperatorExpressionOperator {
    pub operator: String,
    pub operators: Vec<Operator>,
}

// ---------------------------------------------------------------------------
// Mathematical models: the same shapes over `Seq`, used by all contracts.
// ---------------------------------------------------------------------------

pub enum JsonModel {
    Null,
    Boolean(bool),
    Number(Seq<char>),
    Str(Seq<char>),
    Array(Seq<JsonModel>),
    Object(Seq<MemberModel>),
}

pub struct MemberModel {
    pub key: Seq<char>,
    pub value: JsonModel,
}

pub struct ExpressionModel {
    pub clauses: Seq<ClauseModel>,
}

pub enum ClauseModel {
    Leaf(LeafClauseModel),
    ExpressionTree(ExpressionTreeClauseModel),
}

pub struct LeafClauseModel {
    pub key: Seq<char>,
    pub value: ValueModel,
}

pub struct ExpressionTreeClauseModel {
    pub operator: Seq<char>,
    pub expressions: Seq<ExpressionModel>,
}

pub enum ValueModel {
    Leaf(LeafValueModel),
    Operators(Seq<OperatorModel>),
}

pub struct LeafValueModel {
    pub value: JsonModel,
}

pub enum OperatorModel {
    List(ListOperatorModel),
    Value(ValueOperatorModel),
    ExpressionOperator(OperatorExpressionOperatorModel),
}

pub struct ListOperatorModel {
    pub operator: Seq<char>,
    pub values: Seq<LeafValueModel>,
}

pub struct ValueOperatorModel {
    pub operator: Seq<char>,
    pub value: LeafValueModel,
}

pub struct OperatorExpressionOperatorModel {
    pub operator: Seq<char>,
    pub operators: Seq<OperatorModel>,
}

// ---------------------------------------------------------------------------
// Views from the executable tree onto its model.
// ---------------------------------------------------------------------------

pub open spec fn view_json_seq(xs: Seq<JsonValue>) -> Seq<JsonModel>
    decreases xs,
{
    Seq::new(xs.len(), |i: int| if 0 <= i < xs.len() { view_json(xs[i]) } else { arbitrary() })
}

pub open spec fn view_member_seq(ms: Seq<Member>) -> Seq<MemberModel>
    decreases ms,
{
    Seq::new(ms.len(), |i: int| if 0 <= i < ms.len() { view_member(ms[i]) } else { arbitrary() })
}

pub open spec fn view_json(v: JsonValue) -> JsonModel
    decreases v,
{
    match v {
        JsonValue::Null => JsonModel::Null,
        JsonValue::Boolean(b) => JsonModel::Boolean(b),
        JsonValue::Number(n) => JsonModel::Number(n@),
        JsonValue::Str(t) => JsonModel::Str(t@),
        JsonValue::Array(xs) => JsonModel::Array(view_json_seq(xs@)),
        JsonValue::Object(ms) => JsonModel::Object(view_member_seq(ms@)),
    }
}

pub open spec fn view_member(m: Member) -> MemberModel
    decreases m,
{
    MemberModel { key: m.key@, value: view_json(m.value) }
}

pub open spec fn view_clause_seq(cs: Seq<Clause>) -> Seq<ClauseModel>
    decreases cs,
{
    Seq::new(cs.len(), |i: int| if 0 <= i < cs.len() { view_clause(cs[i]) } else { arbitrary() })
}

pub open spec fn view_expression_seq(es: Seq<Expression>) -> Seq<ExpressionModel>
    decreases es,
{
    Seq::new(es.len(), |i: int| if 0 <= i < es.len() { view_expression(es[i]) } else { arbitrary() })
}

pub open spec fn view_operator_seq(ops: Seq<Operator>) -> Seq<OperatorModel>
    decreases ops,
{
    Seq::new(ops.len(), |i: int| if 0 <= i < ops.len() { view_operator(ops[i]) } else { arbitrary() })
}

pub open spec fn view_leaf_value_seq(vs: Seq<LeafValue>) -> Seq<LeafValueModel>
    decreases vs,
{
    Seq::new(vs.len(), |i: int| if 0 <= i < vs.len() { view_leaf_value(vs[i]) } else { arbitrary() })
}

pub open spec fn view_expression(e: Expression) -> ExpressionModel
    decreases e,
{
    ExpressionModel { clauses: view_clause_seq(e.clauses@) }
}

pub open spec fn view_clause(c: Clause) -> ClauseModel
    decreases c,
{
    match c {
        Clause::Leaf(lc) => ClauseModel::Leaf(
            LeafClauseModel { key: lc.key@, value: view_value(lc.value) },
        ),
        Clause::ExpressionTree(tc) => ClauseModel::ExpressionTree(
            ExpressionTreeClauseModel {
                operator: tc.operator@,
                expressions: view_expression_seq(tc.expressions@),
            },
        ),
    }
}

pub open spec fn view_value(v: Value) -> ValueModel
    decreases v,
{
    match v {
        Value::Leaf(lv) => ValueModel::Leaf(view_leaf_value(lv)),
        Value::Operators(ops) => ValueModel::Operators(view_operator_seq(ops@)),
    }
}

pub open spec fn view_leaf_value(lv: LeafValue) -> LeafValueModel
    decreases lv,
{
    LeafValueModel { value: view_json(lv.value) }
}

pub open spec fn view_operator(op: Operator) -> OperatorModel
    decreases op,
{
    match op {
        Operator::List(lo) => OperatorModel::List(
            ListOperatorModel {
                operator: lo.operator@,
                values: view_leaf_value_seq(lo.values@),
            },
        ),
        Operator::Value(vo) => OperatorModel::Value(
            ValueOperatorModel { operator: vo.operator@, value: view_leaf_value(vo.value) },
        ),
        Operator::ExpressionOperator(eo) => OperatorModel::ExpressionOperator(
            OperatorExpressionOperatorModel {
                operator: eo.operator@,
                operators: view_operator_seq(eo.operators@),
            },
        ),
    }
}

/// Pushing one element onto a list commutes with taking the list's view.
pub broadcast proof fn lemma_view_push_json(xs: Seq<JsonValue>, x: JsonValue)
    ensures
        #[trigger] view_json_seq(xs.push(x)) =~= view_json_seq(xs).push(view_json(x)),
{
}

pub broadcast proof fn lemma_view_push_member(ms: Seq<Member>, m: Member)
    ensures
        #[trigger] view_member_seq(ms.push(m)) =~= view_member_seq(ms).push(view_member(m)),
{
}

pub broadcast proof fn lemma_view_push_clause(cs: Seq<Clause>, c: Clause)
    ensures
        #[trigger] view_clause_seq(cs.push(c)) =~= view_clause_seq(cs).push(view_clause(c)),
{
}

pub broadcast proof fn lemma_view_push_expression(es: Seq<Expression>, e: Expression)
    ensures
        #[trigger] view_expression_seq(es.push(e)) =~= view_expression_seq(es).push(
            view_expression(e),
        ),
{
}

pub broadcast proof fn lemma_view_push_operator(ops: Seq<Operator>, op: Operator)
    ensures
        #[trigger] view_operator_seq(ops.push(op)) =~= view_operator_seq(ops).push(
            view_operator(op),
        ),
{
}

pub broadcast proof fn lemma_view_push_leaf_value(vs: Seq<LeafValue>, v: LeafValue)
    ensures
        #[trigger] view_leaf_value_seq(vs.push(v)) =~= view_leaf_value_seq(vs).push(
            view_leaf_value(v),
        ),
{
}

// ---------------------------------------------------------------------------
// Well-formedness: the invariants that the grammar enforces on every tree.
// ---------------------------------------------------------------------------

/// An operator name is a non-empty string beginning with `$`.
pub open spec fn is_operator_name(name: Seq<char>) -> bool {
    name.len() >= 1 && name[0] == '$'
}

pub open spec fn wf_expression(e: ExpressionModel) -> bool
    decreases e,
{
    forall|i: int| 0 <= i < e.clauses.len() ==> wf_clause(#[trigger] e.clauses[i])
}

pub open spec fn wf_clause(c: ClauseModel) -> bool
    decreases c,
{
    match c {
        ClauseModel::Leaf(lc) => wf_value(lc.value),
        ClauseModel::ExpressionTree(tc) => {
            &&& is_operator_name(tc.operator)
            &&& tc.expressions.len() >= 1
            &&& forall|i: int|
                0 <= i < tc.expressions.len() ==> wf_expression(#[trigger] tc.expressions[i])
        },
    }
}

pub open spec fn wf_value(v: ValueModel) -> bool
    decreases v,
{
    match v {
        ValueModel::Leaf(_) => true,
        ValueModel::Operators(ops) => {
            &&& ops.len() >= 1
            &&& forall|i: int| 0 <= i < ops.len() ==> wf_operator(#[trigger] ops[i])
        },
    }
}

pub open spec fn wf_operator(op: OperatorModel) -> bool
    decreases op,
{
    match op {
        OperatorModel::List(lo) => {
            &&& is_operator_name(lo.operator)
            &&& lo.values.len() >= 1
        },
        OperatorModel::Value(vo) => is_operator_name(vo.operator),
        OperatorModel::ExpressionOperator(eo) => {
            &&& is_operator_name(eo.operator)
            &&& eo.operators.len() >= 1
            &&& forall|i: int| 0 <= i < eo.operators.len() ==> wf_operator(#[trigger] eo.operators[i])
        },
    }
}

} // verus!
