//! Laws of the grammar, proved by induction over the productions: every tree
//! a successful parse denotes is well-formed (operator names begin with `$`,
//! operator lists and sub-expression lists are never empty, list operators
//! carry at least one value); negation-style wrapping parses at every
//! nesting depth and keeps its structure; and the clause list concatenates
//! clauses in source order, so no clause is dropped, merged or reordered.
use vstd::prelude::*;

use crate::ast::{wf_clause, wf_expression, wf_operator, wf_value};
use crate::grammar;

verus! {

pub proof fn lemma_list_operator_type_wf(s: Seq<char>, pos: int)
    ensures
        grammar::list_operator_type(s, pos) matches Some((lo, n)) ==> wf_operator(
            crate::ast::OperatorModel::List(lo),
        ),
    decreases grammar::remaining(s, pos), 17int,
{
    if grammar::list_operator_type(s, pos) is Some {
        lemma_leaf_value_list_len(s, pos);
    }
}

/// A parsed leaf-value list holds at least one value.
pub proof fn lemma_leaf_value_list_len(s: Seq<char>, pos: int)
    ensures
        grammar::leaf_value_list(s, pos) matches Some((vs, n)) ==> vs.len() >= 1,
{
}

pub proof fn lemma_value_operator_type_wf(s: Seq<char>, pos: int)
    ensures
        grammar::value_operator_type(s, pos) matches Some((vo, n)) ==> wf_operator(
            crate::ast::OperatorModel::Value(vo),
        ),
    decreases grammar::remaining(s, pos), 17int,
{
}

pub proof fn lemma_operator_expression_operator_type_wf(s: Seq<char>, pos: int)
    ensures
        grammar::operator_expression_operator_type(s, pos) matches Some((eo, n)) ==> wf_operator(
            crate::ast::OperatorModel::ExpressionOperator(eo),
        ),
    decreases grammar::remaining(s, pos), 18int,
{
    if grammar::operator_expression_operator_type(s, pos) is Some {
        let (name, n1) = grammar::operator_name(s, pos)->Some_0;
        let p1 = pos + n1;
        let w1 = grammar::ws_len(s, p1);
        let p2 = p1 + w1 + 1;
        let w2 = grammar::ws_len(s, p2);
        lemma_operator_expression_wf(s, p2 + w2);
    }
}

pub proof fn lemma_operator_wf(s: Seq<char>, pos: int)
    ensures
        grammar::operator(s, pos) matches Some((op, n)) ==> wf_operator(op),
    decreases grammar::remaining(s, pos), 19int,
{
    lemma_list_operator_type_wf(s, pos);
    lemma_value_operator_type_wf(s, pos);
    lemma_operator_expression_operator_type_wf(s, pos);
}

pub proof fn lemma_operator_list_wf(s: Seq<char>, pos: int)
    ensures
        grammar::operator_list(s, pos) matches Some((ops, n)) ==> ops.len() >= 1 && forall|i: int|
            0 <= i < ops.len() ==> wf_operator(#[trigger] ops[i]),
    decreases grammar::remaining(s, pos), 20int,
{
    if grammar::operator_list(s, pos) is Some {
        lemma_operator_wf(s, pos);
        let (op, n) = grammar::operator(s, pos)->Some_0;
        lemma_operator_list_tail_wf(s, pos + n);
    }
}

pub proof fn lemma_operator_list_tail_wf(s: Seq<char>, pos: int)
    ensures
        grammar::operator_list_tail(s, pos) matches Some((ops, k)) ==> forall|i: int|
            0 <= i < ops.len() ==> wf_operator(#[trigger] ops[i]),
    decreases grammar::remaining(s, pos), 0int,
{
    let w = grammar::ws_len(s, pos);
    if pos + w < s.len() && s[pos + w] == ',' {
        let p2 = pos + w + 1;
        let w2 = grammar::ws_len(s, p2);
        lemma_operator_list_wf(s, p2 + w2);
    }
}

pub proof fn lemma_operator_expression_wf(s: Seq<char>, pos: int)
    ensures
        grammar::operator_expression(s, pos) matches Some((ops, n)) ==> ops.len() >= 1 && forall|
            i: int,
        |
            0 <= i < ops.len() ==> wf_operator(#[trigger] ops[i]),
    decreases grammar::remaining(s, pos), 22int,
{
    if 0 <= pos < s.len() && s[pos] == '{' {
        let w = grammar::ws_len(s, pos + 1);
        lemma_operator_list_wf(s, pos + 1 + w);
    }
}

pub proof fn lemma_value_wf(s: Seq<char>, pos: int)
    ensures
        grammar::value(s, pos) matches Some((v, n)) ==> wf_value(v),
    decreases grammar::remaining(s, pos), 23int,
{
    lemma_operator_expression_wf(s, pos);
}

pub proof fn lemma_leaf_clause_wf(s: Seq<char>, pos: int)
    ensures
        grammar::leaf_clause(s, pos) matches Some((lc, n)) ==> wf_clause(
            crate::ast::ClauseModel::Leaf(lc),
        ),
    decreases grammar::remaining(s, pos), 24int,
{
    if grammar::leaf_clause(s, pos) is Some {
        let (k, n1) = grammar::string_lit(s, pos)->Some_0;
        let p1 = pos + n1;
        let w1 = grammar::ws_len(s, p1);
        let p2 = p1 + w1 + 1;
        let w2 = grammar::ws_len(s, p2);
        lemma_value_wf(s, p2 + w2);
    }
}

pub proof fn lemma_expression_tree_clause_wf(s: Seq<char>, pos: int)
    ensures
        grammar::expression_tree_clause(s, pos) matches Some((tc, n)) ==> wf_clause(
            crate::ast::ClauseModel::ExpressionTree(tc),
        ),
    decreases grammar::remaining(s, pos), 25int,
{
    if grammar::expression_tree_clause(s, pos) is Some {
        let (name, n1) = grammar::operator_name(s, pos)->Some_0;
        let p1 = pos + n1;
        let w1 = grammar::ws_len(s, p1);
        let p2 = p1 + w1 + 1;
        let w2 = grammar::ws_len(s, p2);
        let p3 = p2 + w2;
        let w3 = grammar::ws_len(s, p3 + 1);
        lemma_expression_list_wf(s, p3 + 1 + w3);
    }
}

pub proof fn lemma_clause_wf(s: Seq<char>, pos: int)
    ensures
        grammar::clause(s, pos) matches Some((c, n)) ==> wf_clause(c),
    decreases grammar::remaining(s, pos), 26int,
{
    lemma_leaf_clause_wf(s, pos);
    lemma_expression_tree_clause_wf(s, pos);
}

pub proof fn lemma_clause_list_wf(s: Seq<char>, pos: int)
    ensures
        grammar::clause_list(s, pos) matches Some((cs, n)) ==> cs.len() >= 1 && forall|i: int|
            0 <= i < cs.len() ==> wf_clause(#[trigger] cs[i]),
    decreases grammar::remaining(s, pos), 27int,
{
    if grammar::clause_list(s, pos) is Some {
        lemma_clause_wf(s, pos);
        let (c, n) = grammar::clause(s, pos)->Some_0;
        lemma_clause_list_tail_wf(s, pos + n);
    }
}

pub proof fn lemma_clause_list_tail_wf(s: Seq<char>, pos: int)
    ensures
        grammar::clause_list_tail(s, pos) matches Some((cs, k)) ==> forall|i: int|
            0 <= i < cs.len() ==> wf_clause(#[trigger] cs[i]),
    decreases grammar::remaining(s, pos), 0int,
{
    let w = grammar::ws_len(s, pos);
    if pos + w < s.len() && s[pos + w] == ',' {
        let p2 = pos + w + 1;
        let w2 = grammar::ws_len(s, p2);
        lemma_clause_list_wf(s, p2 + w2);
    }
}

pub proof fn lemma_expression_wf(s: Seq<char>, pos: int)
    ensures
        grammar::expression(s, pos) matches Some((e, n)) ==> wf_expression(e),
    decreases grammar::remaining(s, pos), 31int,
{
    if 0 <= pos < s.len() && s[pos] == '{' {
        let w = grammar::ws_len(s, pos + 1);
        lemma_clause_list_wf(s, pos + 1 + w);
    }
}

pub proof fn lemma_expression_list_wf(s: Seq<char>, pos: int)
    ensures
        grammar::expression_list(s, pos) matches Some((es, n)) ==> es.len() >= 1 && forall|i: int|
            0 <= i < es.len() ==> wf_expression(#[trigger] es[i]),
    decreases grammar::remaining(s, pos), 32int,
{
    if grammar::expression_list(s, pos) is Some {
        lemma_expression_wf(s, pos);
        let (e, n) = grammar::expression(s, pos)->Some_0;
        lemma_expression_list_tail_wf(s, pos + n);
    }
}

pub proof fn lemma_expression_list_tail_wf(s: Seq<char>, pos: int)
    ensures
        grammar::expression_list_tail(s, pos) matches Some((es, k)) ==> forall|i: int|
            0 <= i < es.len() ==> wf_expression(#[trigger] es[i]),
    decreases grammar::remaining(s, pos), 0int,
{
    let w = grammar::ws_len(s, pos);
    if pos + w < s.len() && s[pos + w] == ',' {
        let p2 = pos + w + 1;
        let w2 = grammar::ws_len(s, p2);
        lemma_expression_list_wf(s, p2 + w2);
    }
}

/// Every tree that the `query` production denotes is well-formed.
pub proof fn lemma_query_wf(s: Seq<char>)
    ensures
        grammar::query(s) matches Some(e) ==> wf_expression(e),
{
    let w = grammar::ws_len(s, 0);
    lemma_expression_wf(s, w as int);
}

// ---------------------------------------------------------------------------
// Negation-style wrapping nests to any depth.
// ---------------------------------------------------------------------------

/// The length of the text of an `n`-deep negation wrapping: `"$gt":12`
/// inside `n` rings of `"$not":{` ... `}`.
pub open spec fn nested_not_len(n: nat) -> int
    decreases n,
{
    if n == 0 {
        8
    } else {
        9 + nested_not_len((n - 1) as nat)
    }
}

/// The text of an `n`-deep negation wrapping stands at `pos`, followed by a
/// closing brace or the end of the input.
pub open spec fn nested_not_at(s: Seq<char>, pos: int, n: nat) -> bool
    decreases n,
{
    &&& 0 <= pos
    &&& pos + nested_not_len(n) <= s.len()
    &&& (pos + nested_not_len(n) == s.len() || s[pos + nested_not_len(n)] == '}')
    &&& if n == 0 {
        s[pos] == '"' && s[pos + 1] == '$' && s[pos + 2] == 'g' && s[pos + 3] == 't' && s[pos + 4]
            == '"' && s[pos + 5] == ':' && s[pos + 6] == '1' && s[pos + 7] == '2'
    } else {
        s[pos] == '"' && s[pos + 1] == '$' && s[pos + 2] == 'n' && s[pos + 3] == 'o' && s[pos + 4]
            == 't' && s[pos + 5] == '"' && s[pos + 6] == ':' && s[pos + 7] == '{'
            && nested_not_at(s, pos + 8, (n - 1) as nat)
    }
}

/// The member that the `n`-deep wrapping reads as, taken as generic JSON.
pub open spec fn nested_json_model(n: nat) -> crate::ast::MemberModel
    decreases n,
{
    if n == 0 {
        crate::ast::MemberModel { key: "$gt"@, value: crate::ast::JsonModel::Number("12"@) }
    } else {
        crate::ast::MemberModel {
            key: "$not"@,
            value: crate::ast::JsonModel::Object(seq![nested_json_model((n - 1) as nat)]),
        }
    }
}

/// The operator that the `n`-deep wrapping denotes: `n` expression operators
/// around one value operator.
pub open spec fn nested_not_model(n: nat) -> crate::ast::OperatorModel
    decreases n,
{
    if n == 0 {
        crate::ast::OperatorModel::Value(
            crate::ast::ValueOperatorModel {
                operator: "$gt"@,
                value: crate::ast::LeafValueModel { value: crate::ast::JsonModel::Number("12"@) },
            },
        )
    } else {
        crate::ast::OperatorModel::ExpressionOperator(
            crate::ast::OperatorExpressionOperatorModel {
                operator: "$not"@,
                operators: seq![nested_not_model((n - 1) as nat)],
            },
        )
    }
}

/// Every wrapping text is at least as long as its base.
proof fn lemma_nested_not_len_low(n: nat)
    ensures
        nested_not_len(n) >= 8,
    decreases n,
{
    if n > 0 {
        lemma_nested_not_len_low((n - 1) as nat);
    }
}

#[verifier::rlimit(100)]
#[verifier::spinoff_prover]
proof fn lemma_string_not(s: Seq<char>, pos: int)
    requires
        0 <= pos,
        pos + 6 <= s.len(),
        s[pos] == '"',
        s[pos + 1] == '$',
        s[pos + 2] == 'n',
        s[pos + 3] == 'o',
        s[pos + 4] == 't',
        s[pos + 5] == '"',
    ensures
        grammar::string_lit(s, pos) == Some(("$not"@, 6nat)),
{
    reveal_strlit("$not");
    assert(grammar::string_body(s, pos + 5) == Some((Seq::<char>::empty(), 0nat)));
    assert(grammar::string_body(s, pos + 4) == Some((seq![s[pos + 4]] + Seq::<char>::empty(), 1nat)));
    assert(grammar::string_body(s, pos + 3) == Some((seq![s[pos + 3]] + (seq![s[pos + 4]]
        + Seq::<char>::empty()), 2nat)));
    assert(grammar::string_body(s, pos + 2) == Some((seq![s[pos + 2]] + (seq![s[pos + 3]]
        + (seq![s[pos + 4]] + Seq::<char>::empty())), 3nat)));
    assert(grammar::string_body(s, pos + 1) == Some((seq![s[pos + 1]] + (seq![s[pos + 2]]
        + (seq![s[pos + 3]] + (seq![s[pos + 4]] + Seq::<char>::empty()))), 4nat)));
    assert(seq![s[pos + 1]] + (seq![s[pos + 2]] + (seq![s[pos + 3]] + (seq![s[pos + 4]]
        + Seq::<char>::empty()))) =~= "$not"@);
}

#[verifier::rlimit(100)]
#[verifier::spinoff_prover]
proof fn lemma_string_gt(s: Seq<char>, pos: int)
    requires
        0 <= pos,
        pos + 5 <= s.len(),
        s[pos] == '"',
        s[pos + 1] == '$',
        s[pos + 2] == 'g',
        s[pos + 3] == 't',
        s[pos + 4] == '"',
    ensures
        grammar::string_lit(s, pos) == Some(("$gt"@, 5nat)),
{
    reveal_strlit("$gt");
    assert(grammar::string_body(s, pos + 4) == Some((Seq::<char>::empty(), 0nat)));
    assert(grammar::string_body(s, pos + 3) == Some((seq![s[pos + 3]] + Seq::<char>::empty(), 1nat)));
    assert(grammar::string_body(s, pos + 2) == Some((seq![s[pos + 2]] + (seq![s[pos + 3]]
        + Seq::<char>::empty()), 2nat)));
    assert(grammar::string_body(s, pos + 1) == Some((seq![s[pos + 1]] + (seq![s[pos + 2]]
        + (seq![s[pos + 3]] + Seq::<char>::empty())), 3nat)));
    assert(seq![s[pos + 1]] + (seq![s[pos + 2]] + (seq![s[pos + 3]] + Seq::<char>::empty()))
        =~= "$gt"@);
}

/// The base of the wrapping, `"$gt":12`, reads as one generic JSON member.
#[verifier::rlimit(100)]
#[verifier::spinoff_prover]
proof fn lemma_nested_json_base(s: Seq<char>, pos: int)
    requires
        nested_not_at(s, pos, 0),
    ensures
        grammar::json_member(s, pos) == Some((nested_json_model(0), 8nat)),
{
    reveal_strlit("12");
    assert(nested_not_at(s, pos, 0));
    lemma_string_gt(s, pos);
    assert(grammar::ws_len(s, pos + 5) == 0);
    assert(grammar::ws_len(s, pos + 6) == 0);
    assert(grammar::digits_len(s, pos + 8) == 0);
    assert(grammar::digits_len(s, pos + 7) == 1);
    assert(grammar::digits_len(s, pos + 6) == 2);
    assert(grammar::number_lit(s, pos + 6) == Some(2nat));
    assert(s.subrange(pos + 6, pos + 8) =~= "12"@);
    assert(grammar::json_value(s, pos + 6) == Some(
        (crate::ast::JsonModel::Number("12"@), 2nat),
    ));
}

/// Taken as generic JSON, the `n`-deep wrapping is one member.
#[verifier::rlimit(100)]
#[verifier::spinoff_prover]
proof fn lemma_nested_json(s: Seq<char>, pos: int, n: nat)
    requires
        nested_not_at(s, pos, n),
    ensures
        grammar::json_member(s, pos) == Some((nested_json_model(n), nested_not_len(n) as nat)),
    decreases n, 0int,
{
    if n == 0 {
        lemma_nested_json_base(s, pos);
    } else {
        lemma_nested_not_len_low((n - 1) as nat);
        assert(nested_not_at(s, pos + 8, (n - 1) as nat));
        lemma_string_not(s, pos);
        lemma_nested_json(s, pos + 8, (n - 1) as nat);
        lemma_nested_object(s, pos + 7, (n - 1) as nat);
        assert(grammar::ws_len(s, pos + 6) == 0);
        assert(grammar::ws_len(s, pos + 7) == 0);
        assert(grammar::json_value(s, pos + 7) == Some(
            (
                crate::ast::JsonModel::Object(seq![nested_json_model((n - 1) as nat)]),
                (nested_not_len((n - 1) as nat) + 2) as nat,
            ),
        ));
    }
}

/// A brace-enclosed `n`-deep wrapping reads as a one-member JSON object.
#[verifier::rlimit(100)]
#[verifier::spinoff_prover]
proof fn lemma_nested_object(s: Seq<char>, p: int, n: nat)
    requires
        0 <= p,
        p < s.len(),
        s[p] == '{',
        nested_not_at(s, p + 1, n),
        p + 1 + nested_not_len(n) < s.len(),
        s[p + 1 + nested_not_len(n)] == '}',
    ensures
        grammar::json_object(s, p) == Some(
            (seq![nested_json_model(n)], (nested_not_len(n) + 2) as nat),
        ),
    decreases n, 1int,
{
    lemma_nested_not_len_low(n);
    lemma_nested_json(s, p + 1, n);
    let inner_end = p + 1 + nested_not_len(n);
    assert(grammar::ws_len(s, p + 1) == 0);
    assert(grammar::ws_len(s, inner_end) == 0);
    assert(grammar::json_member_list_tail(s, inner_end) == Some(
        (Seq::<crate::ast::MemberModel>::empty(), 0nat),
    ));
    assert(grammar::json_member_list(s, p + 1) == Some(
        (seq![nested_json_model(n)], nested_not_len(n) as nat),
    )) by {
        assert(grammar::json_member_list_tail(s, inner_end) == Some(
            (Seq::<crate::ast::MemberModel>::empty(), 0nat),
        ));
        assert(seq![nested_json_model(n)] + Seq::<crate::ast::MemberModel>::empty() =~= seq![
            nested_json_model(n),
        ]);
    }
}

/// The base of the wrapping parses as the value operator `$gt: 12`.
#[verifier::rlimit(100)]
#[verifier::spinoff_prover]
proof fn lemma_nested_negation_base(s: Seq<char>, pos: int)
    requires
        nested_not_at(s, pos, 0),
    ensures
        grammar::operator(s, pos) == Some((nested_not_model(0), 8nat)),
{
    reveal_strlit("$gt");
    reveal_strlit("12");
    assert(nested_not_at(s, pos, 0));
    lemma_string_gt(s, pos);
    assert(grammar::operator_name(s, pos) == Some(("$gt"@, 5nat)));
    assert(grammar::ws_len(s, pos + 5) == 0);
    assert(grammar::ws_len(s, pos + 6) == 0);
    assert(grammar::list_operator_type(s, pos) is None);
    assert(grammar::digits_len(s, pos + 8) == 0);
    assert(grammar::digits_len(s, pos + 7) == 1);
    assert(grammar::digits_len(s, pos + 6) == 2);
    assert(grammar::number_lit(s, pos + 6) == Some(2nat));
    assert(s.subrange(pos + 6, pos + 8) =~= "12"@);
    assert(grammar::leaf_value(s, pos + 6) == Some(
        (
            crate::ast::LeafValueModel { value: crate::ast::JsonModel::Number("12"@) },
            2nat,
        ),
    ));
    assert(grammar::value_operator_type(s, pos) == Some(
        (
            crate::ast::ValueOperatorModel {
                operator: "$gt"@,
                value: crate::ast::LeafValueModel { value: crate::ast::JsonModel::Number("12"@) },
            },
            8nat,
        ),
    ));
}

/// For every depth `n`, an `n`-deep negation-style wrapping parses as one
/// operator whose tree nests exactly `n` deep: structural nesting is
/// preserved at every depth.
#[verifier::rlimit(100)]
#[verifier::spinoff_prover]
pub proof fn lemma_nested_negation_parses(s: Seq<char>, pos: int, n: nat)
    requires
        nested_not_at(s, pos, n),
    ensures
        grammar::operator(s, pos) == Some((nested_not_model(n), nested_not_len(n) as nat)),
    decreases n,
{
    if n == 0 {
        lemma_nested_negation_base(s, pos);
    } else {
        reveal_strlit("$not");
        reveal_strlit("$f");
        reveal_strlit("$numberDecimal");
        lemma_nested_not_len_low((n - 1) as nat);
        assert(nested_not_at(s, pos + 8, (n - 1) as nat));
        lemma_string_not(s, pos);
        assert(grammar::operator_name(s, pos) == Some(("$not"@, 6nat)));
        assert(grammar::ws_len(s, pos + 6) == 0);
        assert(grammar::ws_len(s, pos + 7) == 0);
        assert(grammar::list_operator_type(s, pos) is None);
        // the operand reads as an object whose single member names an
        // operator, so no leaf value matches and the value form fails
        lemma_nested_object(s, pos + 7, (n - 1) as nat);
        let ms = seq![nested_json_model((n - 1) as nat)];
        assert(crate::ast::is_operator_name(ms[0].key)) by {
            reveal_strlit("$not");
            reveal_strlit("$gt");
        }
        assert(ms[0].key != "$f"@ && ms[0].key != "$numberDecimal"@) by {
            reveal_strlit("$not");
            reveal_strlit("$gt");
            reveal_strlit("$f");
            reveal_strlit("$numberDecimal");
        }
        assert(grammar::object_leaf(s, pos + 7) is None);
        assert(grammar::leaf_value(s, pos + 7) is None);
        assert(grammar::value_operator_type(s, pos) is None);
        // the expression-operator alternative takes it
        lemma_nested_negation_parses(s, pos + 8, (n - 1) as nat);
        let inner_end = pos + 8 + nested_not_len((n - 1) as nat);
        assert(grammar::ws_len(s, inner_end) == 0);
        assert(grammar::operator_list_tail(s, inner_end) == Some(
            (Seq::<crate::ast::OperatorModel>::empty(), 0nat),
        ));
        assert(grammar::operator_list(s, pos + 8) == Some(
            (seq![nested_not_model((n - 1) as nat)], nested_not_len((n - 1) as nat) as nat),
        )) by {
            assert(grammar::operator_list_tail(s, inner_end) == Some(
                (Seq::<crate::ast::OperatorModel>::empty(), 0nat),
            ));
            assert(seq![nested_not_model((n - 1) as nat)]
                + Seq::<crate::ast::OperatorModel>::empty() =~= seq![
                nested_not_model((n - 1) as nat),
            ]);
        }
        assert(grammar::operator_expression(s, pos + 7) == Some(
            (seq![nested_not_model((n - 1) as nat)], (nested_not_len((n - 1) as nat) + 2) as nat),
        ));
    }
}

// ---------------------------------------------------------------------------
// The clause list keeps source order and duplicates.
// ---------------------------------------------------------------------------

/// A clause whose text ends at a closing brace is a whole clause list.
#[verifier::rlimit(100)]
#[verifier::spinoff_prover]
pub proof fn lemma_clause_list_single(s: Seq<char>, pos: int, c0: crate::ast::ClauseModel, kcl: int)
    requires
        0 <= pos,
        0 <= kcl,
        pos + kcl < s.len(),
        s[pos + kcl] == '}',
        grammar::clause(s, pos) == Some((c0, kcl as nat)),
    ensures
        grammar::clause_list(s, pos) == Some((seq![c0], kcl as nat)),
{
    assert(grammar::ws_len(s, pos + kcl) == 0);
    assert(grammar::clause_list_tail(s, pos + kcl) == Some(
        (Seq::<crate::ast::ClauseModel>::empty(), 0nat),
    ));
    assert(seq![c0] + Seq::<crate::ast::ClauseModel>::empty() =~= seq![c0]);
}

/// A clause followed by a comma and a clause list parses as their
/// concatenation: source order is kept and nothing is dropped or merged.
#[verifier::rlimit(100)]
#[verifier::spinoff_prover]
pub proof fn lemma_clause_list_cons(
    s: Seq<char>,
    pos: int,
    c0: crate::ast::ClauseModel,
    kcl: int,
    rest: Seq<crate::ast::ClauseModel>,
    rest_len: int,
)
    requires
        0 <= pos,
        0 <= kcl,
        0 <= rest_len,
        pos + kcl + 1 < s.len(),
        s[pos + kcl] == ',',
        s[pos + kcl + 1] == '"',
        grammar::clause(s, pos) == Some((c0, kcl as nat)),
        grammar::clause_list(s, pos + kcl + 1) == Some((rest, rest_len as nat)),
    ensures
        grammar::clause_list(s, pos) == Some((seq![c0] + rest, (kcl + 1 + rest_len) as nat)),
{
    assert(grammar::ws_len(s, pos + kcl) == 0);
    assert(grammar::ws_len(s, pos + kcl + 1) == 0);
    assert(grammar::clause_list_tail(s, pos + kcl) == Some((rest, (1 + rest_len) as nat)));
}

} // verus!
