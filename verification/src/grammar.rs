//! The grammar of the filter-query language, stated as specification
//! functions over a sequence of characters.
//!
//! Each production takes the input and a start position and yields the
//! parsed model together with the number of characters it consumed, or
//! `None` when the input does not match the production at that position.
//! Alternatives are ordered, as in any parsing-expression grammar: a later
//! alternative is meaningful only where every earlier one fails.
//!
//! These functions are the single authority on what the language accepts;
//! the executable parser is proved to return exactly their result.
use vstd::prelude::*;

use crate::ast::{
    ClauseModel, ExpressionModel, ExpressionTreeClauseModel, JsonModel, LeafClauseModel,
    LeafValueModel, ListOperatorModel, MemberModel, OperatorExpressionOperatorModel, OperatorModel,
    ValueModel, ValueOperatorModel, is_operator_name,
};

verus! {

/// The termination measure: how much input is left in front of `pos`.
pub open spec fn remaining(s: Seq<char>, pos: int) -> int {
    if pos <= s.len() {
        s.len() - pos
    } else {
        0
    }
}

pub open spec fn is_ws(c: char) -> bool {
    c == ' ' || c == '\t' || c == '\n' || c == '\r'
}

pub open spec fn is_digit(c: char) -> bool {
    '0' <= c && c <= '9'
}

pub open spec fn is_hex_digit(c: char) -> bool {
    is_digit(c) || ('a' <= c && c <= 'f') || ('A' <= c && c <= 'F')
}

pub open spec fn hex_digit_value(c: char) -> int {
    if is_digit(c) {
        c as int - '0' as int
    } else if 'a' <= c && c <= 'f' {
        c as int - 'a' as int + 10
    } else {
        c as int - 'A' as int + 10
    }
}

/// The number of whitespace characters at `pos`.
pub open spec fn ws_len(s: Seq<char>, pos: int) -> nat
    decreases remaining(s, pos),
{
    if 0 <= pos < s.len() && is_ws(s[pos]) {
        1 + ws_len(s, pos + 1)
    } else {
        0
    }
}

/// The number of decimal digits at `pos`.
pub open spec fn digits_len(s: Seq<char>, pos: int) -> nat
    decreases remaining(s, pos),
{
    if 0 <= pos < s.len() && is_digit(s[pos]) {
        1 + digits_len(s, pos + 1)
    } else {
        0
    }
}

/// The value of the four hexadecimal digits at `pos`, if they are there.
pub open spec fn hex4(s: Seq<char>, pos: int) -> Option<int> {
    if 0 <= pos && pos + 4 <= s.len() && is_hex_digit(s[pos]) && is_hex_digit(s[pos + 1])
        && is_hex_digit(s[pos + 2]) && is_hex_digit(s[pos + 3]) {
        Some(
            hex_digit_value(s[pos]) * 0x1000 + hex_digit_value(s[pos + 1]) * 0x100
                + hex_digit_value(s[pos + 2]) * 0x10 + hex_digit_value(s[pos + 3]),
        )
    } else {
        None
    }
}

/// One escape sequence at `pos`, where `s[pos]` is the backslash: the
/// character it denotes and the characters consumed. A `\u` escape takes a
/// Unicode scalar value directly, or a surrogate pair for the supplementary
/// planes; an unpaired surrogate does not match.
pub open spec fn escape(s: Seq<char>, pos: int) -> Option<(char, nat)> {
    if 0 <= pos && pos + 2 <= s.len() {
        let e = s[pos + 1];
        if e == '"' || e == '\\' || e == '/' {
            Some((e, 2))
        } else if e == 'b' {
            Some(('\u{0008}', 2))
        } else if e == 'f' {
            Some(('\u{000C}', 2))
        } else if e == 'n' {
            Some(('\n', 2))
        } else if e == 'r' {
            Some(('\r', 2))
        } else if e == 't' {
            Some(('\t', 2))
        } else if e == 'u' {
            match hex4(s, pos + 2) {
                None => None,
                Some(n) => {
                    if n < 0xD800 || n >= 0xE000 {
                        Some(((n as u32) as char, 6))
                    } else if n < 0xDC00 {
                        if pos + 8 <= s.len() && s[pos + 6] == '\\' && s[pos + 7] == 'u' {
                            match hex4(s, pos + 8) {
                                None => None,
                                Some(m) => {
                                    if 0xDC00 <= m < 0xE000 {
                                        Some(
                                            (
                                                ((0x10000 + (n - 0xD800) * 0x400 + (m - 0xDC00))
                                                    as u32) as char,
                                                12,
                                            ),
                                        )
                                    } else {
                                        None
                                    }
                                },
                            }
                        } else {
                            None
                        }
                    } else {
                        None
                    }
                },
            }
        } else {
            None
        }
    } else {
        None
    }
}

/// The body of a string literal starting at `pos` (just after the opening
/// quote): the decoded characters up to the closing quote, and the number of
/// source characters they took (the closing quote not included).
pub open spec fn string_body(s: Seq<char>, pos: int) -> Option<(Seq<char>, nat)>
    decreases remaining(s, pos), 0int,
{
    if 0 <= pos < s.len() {
        let c = s[pos];
        if c == '"' {
            Some((Seq::empty(), 0))
        } else if c == '\\' {
            match escape(s, pos) {
                None => None,
                Some((d, k)) => match string_body(s, pos + k) {
                    None => None,
                    Some((cs, n)) => Some((seq![d] + cs, k + n)),
                },
            }
        } else if (c as u32) < 0x20 {
            None
        } else {
            match string_body(s, pos + 1) {
                None => None,
                Some((cs, n)) => Some((seq![c] + cs, 1 + n)),
            }
        }
    } else {
        None
    }
}

/// A string literal at `pos`: its decoded content and the characters
/// consumed, quotes included.
pub open spec fn string_lit(s: Seq<char>, pos: int) -> Option<(Seq<char>, nat)>
    decreases remaining(s, pos), 1int,
{
    if 0 <= pos < s.len() && s[pos] == '"' {
        match string_body(s, pos + 1) {
            None => None,
            Some((cs, n)) => Some((cs, n + 2)),
        }
    } else {
        None
    }
}

/// A number literal at `pos`, following the JSON lexical rules: optional
/// minus sign, an integer part without needless leading zeros, an optional
/// fraction and an optional exponent. Yields the characters consumed; the
/// lexeme itself is the corresponding subrange of the input.
pub open spec fn number_lit(s: Seq<char>, pos: int) -> Option<nat> {
    if pos < 0 {
        None
    } else {
        let p1 = if pos < s.len() && s[pos] == '-' {
            pos + 1
        } else {
            pos
        };
        if p1 < s.len() && s[p1] == '0' {
            number_tail(s, pos, p1 + 1)
        } else if p1 < s.len() && is_digit(s[p1]) {
            number_tail(s, pos, p1 + digits_len(s, p1))
        } else {
            None
        }
    }
}

/// The fraction and exponent parts of a number whose integer part ends at
/// `int_end`; yields the characters consumed since `start`.
pub open spec fn number_tail(s: Seq<char>, start: int, int_end: int) -> Option<nat> {
    if int_end < s.len() && s[int_end] == '.' {
        if digits_len(s, int_end + 1) == 0 {
            None
        } else {
            number_exponent(s, start, int_end + 1 + digits_len(s, int_end + 1))
        }
    } else {
        number_exponent(s, start, int_end)
    }
}

/// The optional exponent of a number whose digits end at `frac_end`; yields
/// the characters consumed since `start`.
pub open spec fn number_exponent(s: Seq<char>, start: int, frac_end: int) -> Option<nat> {
    if frac_end < s.len() && (s[frac_end] == 'e' || s[frac_end] == 'E') {
        let exp_start = if frac_end + 1 < s.len() && (s[frac_end + 1] == '+' || s[frac_end + 1]
            == '-') {
            frac_end + 2
        } else {
            frac_end + 1
        };
        if digits_len(s, exp_start) == 0 {
            None
        } else {
            Some((exp_start + digits_len(s, exp_start) - start) as nat)
        }
    } else {
        Some((frac_end - start) as nat)
    }
}

// ---------------------------------------------------------------------------
// Generic JSON values, as they appear nested inside opaque leaves.
// ---------------------------------------------------------------------------

/// One `key: value` member of a JSON object.
pub open spec fn json_member(s: Seq<char>, pos: int) -> Option<(MemberModel, nat)>
    decreases remaining(s, pos), 8int,
{
    match string_lit(s, pos) {
        None => None,
        Some((k, n1)) => {
            let p1 = pos + n1;
            let w1 = ws_len(s, p1);
            if p1 + w1 < s.len() && s[p1 + w1] == ':' {
                let p2 = p1 + w1 + 1;
                let w2 = ws_len(s, p2);
                match json_value(s, p2 + w2) {
                    None => None,
                    Some((v, n2)) => Some(
                        (MemberModel { key: k, value: v }, n1 + w1 + 1 + w2 + n2),
                    ),
                }
            } else {
                None
            }
        },
    }
}

/// A non-empty, comma-separated list of members, in source order.
pub open spec fn json_member_list(s: Seq<char>, pos: int) -> Option<(Seq<MemberModel>, nat)>
    decreases remaining(s, pos), 9int,
{
    match json_member(s, pos) {
        None => None,
        Some((x, n)) => match json_member_list_tail(s, pos + n) {
            None => None,
            Some((xs, k)) => Some((seq![x] + xs, n + k)),
        },
    }
}

/// What may follow one element of the list: a comma and further elements,
/// or nothing.
pub open spec fn json_member_list_tail(s: Seq<char>, pos: int) -> Option<(Seq<MemberModel>, nat)>
    decreases remaining(s, pos), 0int,
{
    let w = ws_len(s, pos);
    if pos + w < s.len() && s[pos + w] == ',' {
        let p2 = pos + w + 1;
        let w2 = ws_len(s, p2);
        match json_member_list(s, p2 + w2) {
            None => None,
            Some((xs, n)) => Some((xs, w + 1 + w2 + n)),
        }
    } else {
        Some((Seq::empty(), 0))
    }
}

/// A JSON object: `{`, an optionally empty member list, `}`. Yields the
/// members in source order, duplicates preserved.
pub open spec fn json_object(s: Seq<char>, pos: int) -> Option<(Seq<MemberModel>, nat)>
    decreases remaining(s, pos), 10int,
{
    if 0 <= pos < s.len() && s[pos] == '{' {
        let w = ws_len(s, pos + 1);
        let p1 = pos + 1 + w;
        if p1 < s.len() && s[p1] == '}' {
            Some((Seq::empty(), (p1 + 1 - pos) as nat))
        } else {
            match json_member_list(s, p1) {
                None => None,
                Some((ms, n)) => {
                    let p2 = p1 + n;
                    let w2 = ws_len(s, p2);
                    if p2 + w2 < s.len() && s[p2 + w2] == '}' {
                        Some((ms, (p2 + w2 + 1 - pos) as nat))
                    } else {
                        None
                    }
                },
            }
        }
    } else {
        None
    }
}

/// A non-empty, comma-separated list of JSON values, in source order.
pub open spec fn json_value_list(s: Seq<char>, pos: int) -> Option<(Seq<JsonModel>, nat)>
    decreases remaining(s, pos), 13int,
{
    match json_value(s, pos) {
        None => None,
        Some((x, n)) => match json_value_list_tail(s, pos + n) {
            None => None,
            Some((xs, k)) => Some((seq![x] + xs, n + k)),
        },
    }
}

/// What may follow one element of the list: a comma and further elements,
/// or nothing.
pub open spec fn json_value_list_tail(s: Seq<char>, pos: int) -> Option<(Seq<JsonModel>, nat)>
    decreases remaining(s, pos), 0int,
{
    let w = ws_len(s, pos);
    if pos + w < s.len() && s[pos + w] == ',' {
        let p2 = pos + w + 1;
        let w2 = ws_len(s, p2);
        match json_value_list(s, p2 + w2) {
            None => None,
            Some((xs, n)) => Some((xs, w + 1 + w2 + n)),
        }
    } else {
        Some((Seq::empty(), 0))
    }
}

/// A JSON array: `[`, an optionally empty value list, `]`.
pub open spec fn json_array(s: Seq<char>, pos: int) -> Option<(Seq<JsonModel>, nat)>
    decreases remaining(s, pos), 11int,
{
    if 0 <= pos < s.len() && s[pos] == '[' {
        let w = ws_len(s, pos + 1);
        let p1 = pos + 1 + w;
        if p1 < s.len() && s[p1] == ']' {
            Some((Seq::empty(), (p1 + 1 - pos) as nat))
        } else {
            match json_value_list(s, p1) {
                None => None,
                Some((vs, n)) => {
                    let p2 = p1 + n;
                    let w2 = ws_len(s, p2);
                    if p2 + w2 < s.len() && s[p2 + w2] == ']' {
                        Some((vs, (p2 + w2 + 1 - pos) as nat))
                    } else {
                        None
                    }
                },
            }
        }
    } else {
        None
    }
}

/// A generic JSON value, dispatched on its first character.
pub open spec fn json_value(s: Seq<char>, pos: int) -> Option<(JsonModel, nat)>
    decreases remaining(s, pos), 12int,
{
    if 0 <= pos < s.len() {
        let c = s[pos];
        if c == '"' {
            match string_lit(s, pos) {
                None => None,
                Some((t, n)) => Some((JsonModel::Str(t), n)),
            }
        } else if c == '{' {
            match json_object(s, pos) {
                None => None,
                Some((ms, n)) => Some((JsonModel::Object(ms), n)),
            }
        } else if c == '[' {
            match json_array(s, pos) {
                None => None,
                Some((vs, n)) => Some((JsonModel::Array(vs), n)),
            }
        } else if c == 't' {
            if lit_true(s, pos) {
                Some((JsonModel::Boolean(true), 4))
            } else {
                None
            }
        } else if c == 'f' {
            if lit_false(s, pos) {
                Some((JsonModel::Boolean(false), 5))
            } else {
                None
            }
        } else if c == 'n' {
            if lit_null(s, pos) {
                Some((JsonModel::Null, 4))
            } else {
                None
            }
        } else {
            match number_lit(s, pos) {
                None => None,
                Some(n) => Some((JsonModel::Number(s.subrange(pos, pos + n)), n)),
            }
        }
    } else {
        None
    }
}

pub open spec fn lit_true(s: Seq<char>, pos: int) -> bool {
    0 <= pos && pos + 4 <= s.len() && s[pos] == 't' && s[pos + 1] == 'r' && s[pos + 2] == 'u'
        && s[pos + 3] == 'e'
}

pub open spec fn lit_false(s: Seq<char>, pos: int) -> bool {
    0 <= pos && pos + 5 <= s.len() && s[pos] == 'f' && s[pos + 1] == 'a' && s[pos + 2] == 'l'
        && s[pos + 3] == 's' && s[pos + 4] == 'e'
}

pub open spec fn lit_null(s: Seq<char>, pos: int) -> bool {
    0 <= pos && pos + 4 <= s.len() && s[pos] == 'n' && s[pos + 1] == 'u' && s[pos + 2] == 'l'
        && s[pos + 3] == 'l'
}

// ---------------------------------------------------------------------------
// The filter-query productions.
// ---------------------------------------------------------------------------

/// An object in leaf-value position. A decimal wrapper — exactly one member,
/// key `$f` or `$numberDecimal`, number operand — denotes its number. Any
/// other object whose first key names an operator is not a leaf (it can only
/// be an operator expression); the rest are opaque values kept verbatim.
pub open spec fn object_leaf(s: Seq<char>, pos: int) -> Option<(JsonModel, nat)>
    decreases remaining(s, pos), 14int,
{
    match json_object(s, pos) {
        None => None,
        Some((ms, n)) => {
            if ms.len() == 1 && (ms[0].key == "$f"@ || ms[0].key == "$numberDecimal"@)
                && ms[0].value is Number {
                Some((ms[0].value, n))
            } else if ms.len() >= 1 && is_operator_name(ms[0].key) {
                None
            } else {
                Some((JsonModel::Object(ms), n))
            }
        },
    }
}

/// A leaf value: a scalar literal or an object leaf. Arrays are not leaf
/// values; they appear only nested inside opaque objects or as operator
/// operands.
pub open spec fn leaf_value(s: Seq<char>, pos: int) -> Option<(LeafValueModel, nat)>
    decreases remaining(s, pos), 15int,
{
    if 0 <= pos < s.len() {
        let c = s[pos];
        if c == '"' {
            match string_lit(s, pos) {
                None => None,
                Some((t, n)) => Some((LeafValueModel { value: JsonModel::Str(t) }, n)),
            }
        } else if c == '{' {
            match object_leaf(s, pos) {
                None => None,
                Some((v, n)) => Some((LeafValueModel { value: v }, n)),
            }
        } else if c == 't' {
            if lit_true(s, pos) {
                Some((LeafValueModel { value: JsonModel::Boolean(true) }, 4))
            } else {
                None
            }
        } else if c == 'f' {
            if lit_false(s, pos) {
                Some((LeafValueModel { value: JsonModel::Boolean(false) }, 5))
            } else {
                None
            }
        } else if c == 'n' {
            if lit_null(s, pos) {
                Some((LeafValueModel { value: JsonModel::Null }, 4))
            } else {
                None
            }
        } else {
            match number_lit(s, pos) {
                None => None,
                Some(n) => Some(
                    (LeafValueModel { value: JsonModel::Number(s.subrange(pos, pos + n)) }, n),
                ),
            }
        }
    } else {
        None
    }
}

/// A non-empty, comma-separated list of leaf values, in source order.
pub open spec fn leaf_value_list(s: Seq<char>, pos: int) -> Option<(Seq<LeafValueModel>, nat)>
    decreases remaining(s, pos), 16int,
{
    match leaf_value(s, pos) {
        None => None,
        Some((x, n)) => match leaf_value_list_tail(s, pos + n) {
            None => None,
            Some((xs, k)) => Some((seq![x] + xs, n + k)),
        },
    }
}

/// What may follow one element of the list: a comma and further elements,
/// or nothing.
pub open spec fn leaf_value_list_tail(s: Seq<char>, pos: int) -> Option<(Seq<LeafValueModel>, nat)>
    decreases remaining(s, pos), 0int,
{
    let w = ws_len(s, pos);
    if pos + w < s.len() && s[pos + w] == ',' {
        let p2 = pos + w + 1;
        let w2 = ws_len(s, p2);
        match leaf_value_list(s, p2 + w2) {
            None => None,
            Some((xs, n)) => Some((xs, w + 1 + w2 + n)),
        }
    } else {
        Some((Seq::empty(), 0))
    }
}

/// An operator name in key position: a string literal whose decoded content
/// begins with `$`.
pub open spec fn operator_name(s: Seq<char>, pos: int) -> Option<(Seq<char>, nat)>
    decreases remaining(s, pos), 2int,
{
    match string_lit(s, pos) {
        None => None,
        Some((k, n)) => {
            if is_operator_name(k) {
                Some((k, n))
            } else {
                None
            }
        },
    }
}

/// `"$op": [ leaf values ]` — an operator with an array operand.
pub open spec fn list_operator_type(s: Seq<char>, pos: int) -> Option<(ListOperatorModel, nat)>
    decreases remaining(s, pos), 17int,
{
    match operator_name(s, pos) {
        None => None,
        Some((name, n1)) => {
            let p1 = pos + n1;
            let w1 = ws_len(s, p1);
            if p1 + w1 < s.len() && s[p1 + w1] == ':' {
                let p2 = p1 + w1 + 1;
                let w2 = ws_len(s, p2);
                let p3 = p2 + w2;
                if p3 < s.len() && s[p3] == '[' {
                    let w3 = ws_len(s, p3 + 1);
                    match leaf_value_list(s, p3 + 1 + w3) {
                        None => None,
                        Some((vs, n2)) => {
                            let p4 = p3 + 1 + w3 + n2;
                            let w4 = ws_len(s, p4);
                            if p4 + w4 < s.len() && s[p4 + w4] == ']' {
                                Some(
                                    (
                                        ListOperatorModel { operator: name, values: vs },
                                        (p4 + w4 + 1 - pos) as nat,
                                    ),
                                )
                            } else {
                                None
                            }
                        },
                    }
                } else {
                    None
                }
            } else {
                None
            }
        },
    }
}

/// `"$op": leaf value` — an operator with a single operand.
pub open spec fn value_operator_type(s: Seq<char>, pos: int) -> Option<(ValueOperatorModel, nat)>
    decreases remaining(s, pos), 17int,
{
    match operator_name(s, pos) {
        None => None,
        Some((name, n1)) => {
            let p1 = pos + n1;
            let w1 = ws_len(s, p1);
            if p1 + w1 < s.len() && s[p1 + w1] == ':' {
                let p2 = p1 + w1 + 1;
                let w2 = ws_len(s, p2);
                match leaf_value(s, p2 + w2) {
                    None => None,
                    Some((v, n2)) => Some(
                        (
                            ValueOperatorModel { operator: name, value: v },
                            n1 + w1 + 1 + w2 + n2,
                        ),
                    ),
                }
            } else {
                None
            }
        },
    }
}

/// `"$op": { operators }` — an operator wrapping further operators.
pub open spec fn operator_expression_operator_type(s: Seq<char>, pos: int) -> Option<
    (OperatorExpressionOperatorModel, nat),
>
    decreases remaining(s, pos), 18int,
{
    match operator_name(s, pos) {
        None => None,
        Some((name, n1)) => {
            let p1 = pos + n1;
            let w1 = ws_len(s, p1);
            if p1 + w1 < s.len() && s[p1 + w1] == ':' {
                let p2 = p1 + w1 + 1;
                let w2 = ws_len(s, p2);
                match operator_expression(s, p2 + w2) {
                    None => None,
                    Some((ops, n2)) => Some(
                        (
                            OperatorExpressionOperatorModel { operator: name, operators: ops },
                            n1 + w1 + 1 + w2 + n2,
                        ),
                    ),
                }
            } else {
                None
            }
        },
    }
}

/// One operator, disambiguated purely by the shape of its operand: an array
/// selects the list form, anything that is a leaf selects the value form,
/// and an object of operators selects the expression-operator form.
pub open spec fn operator(s: Seq<char>, pos: int) -> Option<(OperatorModel, nat)>
    decreases remaining(s, pos), 19int,
{
    match list_operator_type(s, pos) {
        Some((lo, n)) => Some((OperatorModel::List(lo), n)),
        None => match value_operator_type(s, pos) {
            Some((vo, n)) => Some((OperatorModel::Value(vo), n)),
            None => match operator_expression_operator_type(s, pos) {
                Some((eo, n)) => Some((OperatorModel::ExpressionOperator(eo), n)),
                None => None,
            },
        },
    }
}

/// A non-empty, comma-separated list of operators, in source order.
pub open spec fn operator_list(s: Seq<char>, pos: int) -> Option<(Seq<OperatorModel>, nat)>
    decreases remaining(s, pos), 20int,
{
    match operator(s, pos) {
        None => None,
        Some((x, n)) => match operator_list_tail(s, pos + n) {
            None => None,
            Some((xs, k)) => Some((seq![x] + xs, n + k)),
        },
    }
}

/// What may follow one element of the list: a comma and further elements,
/// or nothing.
pub open spec fn operator_list_tail(s: Seq<char>, pos: int) -> Option<(Seq<OperatorModel>, nat)>
    decreases remaining(s, pos), 0int,
{
    let w = ws_len(s, pos);
    if pos + w < s.len() && s[pos + w] == ',' {
        let p2 = pos + w + 1;
        let w2 = ws_len(s, p2);
        match operator_list(s, p2 + w2) {
            None => None,
            Some((xs, n)) => Some((xs, w + 1 + w2 + n)),
        }
    } else {
        Some((Seq::empty(), 0))
    }
}

/// `{ operators }` — a brace-enclosed, non-empty operator list.
pub open spec fn operator_expression(s: Seq<char>, pos: int) -> Option<(Seq<OperatorModel>, nat)>
    decreases remaining(s, pos), 21int,
{
    if 0 <= pos < s.len() && s[pos] == '{' {
        let w = ws_len(s, pos + 1);
        match operator_list(s, pos + 1 + w) {
            None => None,
            Some((ops, n)) => {
                let p2 = pos + 1 + w + n;
                let w2 = ws_len(s, p2);
                if p2 + w2 < s.len() && s[p2 + w2] == '}' {
                    Some((ops, (p2 + w2 + 1 - pos) as nat))
                } else {
                    None
                }
            },
        }
    } else {
        None
    }
}

/// The right-hand side of a leaf clause: a leaf value, or — only where no
/// leaf value matches — an operator expression.
pub open spec fn value(s: Seq<char>, pos: int) -> Option<(ValueModel, nat)>
    decreases remaining(s, pos), 22int,
{
    match leaf_value(s, pos) {
        Some((lv, n)) => Some((ValueModel::Leaf(lv), n)),
        None => match operator_expression(s, pos) {
            Some((ops, n)) => Some((ValueModel::Operators(ops), n)),
            None => None,
        },
    }
}

/// `key: value` — a predicate on one field; the key is any JSON string.
pub open spec fn leaf_clause(s: Seq<char>, pos: int) -> Option<(LeafClauseModel, nat)>
    decreases remaining(s, pos), 23int,
{
    match string_lit(s, pos) {
        None => None,
        Some((k, n1)) => {
            let p1 = pos + n1;
            let w1 = ws_len(s, p1);
            if p1 + w1 < s.len() && s[p1 + w1] == ':' {
                let p2 = p1 + w1 + 1;
                let w2 = ws_len(s, p2);
                match value(s, p2 + w2) {
                    None => None,
                    Some((v, n2)) => Some(
                        (LeafClauseModel { key: k, value: v }, n1 + w1 + 1 + w2 + n2),
                    ),
                }
            } else {
                None
            }
        },
    }
}

/// `"$op": [ expressions ]` — a logical combinator over at least one
/// sub-expression.
pub open spec fn expression_tree_clause(s: Seq<char>, pos: int) -> Option<
    (ExpressionTreeClauseModel, nat),
>
    decreases remaining(s, pos), 24int,
{
    match operator_name(s, pos) {
        None => None,
        Some((name, n1)) => {
            let p1 = pos + n1;
            let w1 = ws_len(s, p1);
            if p1 + w1 < s.len() && s[p1 + w1] == ':' {
                let p2 = p1 + w1 + 1;
                let w2 = ws_len(s, p2);
                let p3 = p2 + w2;
                if p3 < s.len() && s[p3] == '[' {
                    let w3 = ws_len(s, p3 + 1);
                    match expression_list(s, p3 + 1 + w3) {
                        None => None,
                        Some((es, n2)) => {
                            let p4 = p3 + 1 + w3 + n2;
                            let w4 = ws_len(s, p4);
                            if p4 + w4 < s.len() && s[p4 + w4] == ']' {
                                Some(
                                    (
                                        ExpressionTreeClauseModel {
                                            operator: name,
                                            expressions: es,
                                        },
                                        (p4 + w4 + 1 - pos) as nat,
                                    ),
                                )
                            } else {
                                None
                            }
                        },
                    }
                } else {
                    None
                }
            } else {
                None
            }
        },
    }
}

/// One clause: a leaf clause, or — only where no leaf clause matches — a
/// logical combinator.
pub open spec fn clause(s: Seq<char>, pos: int) -> Option<(ClauseModel, nat)>
    decreases remaining(s, pos), 25int,
{
    match leaf_clause(s, pos) {
        Some((lc, n)) => Some((ClauseModel::Leaf(lc), n)),
        None => match expression_tree_clause(s, pos) {
            Some((tc, n)) => Some((ClauseModel::ExpressionTree(tc), n)),
            None => None,
        },
    }
}

/// A non-empty, comma-separated list of clauses, in source order.
pub open spec fn clause_list(s: Seq<char>, pos: int) -> Option<(Seq<ClauseModel>, nat)>
    decreases remaining(s, pos), 26int,
{
    match clause(s, pos) {
        None => None,
        Some((x, n)) => match clause_list_tail(s, pos + n) {
            None => None,
            Some((xs, k)) => Some((seq![x] + xs, n + k)),
        },
    }
}

/// What may follow one element of the list: a comma and further elements,
/// or nothing.
pub open spec fn clause_list_tail(s: Seq<char>, pos: int) -> Option<(Seq<ClauseModel>, nat)>
    decreases remaining(s, pos), 0int,
{
    let w = ws_len(s, pos);
    if pos + w < s.len() && s[pos + w] == ',' {
        let p2 = pos + w + 1;
        let w2 = ws_len(s, p2);
        match clause_list(s, p2 + w2) {
            None => None,
            Some((xs, n)) => Some((xs, w + 1 + w2 + n)),
        }
    } else {
        Some((Seq::empty(), 0))
    }
}

/// `{ clauses }` — an expression; the clause list may be empty.
pub open spec fn expression(s: Seq<char>, pos: int) -> Option<(ExpressionModel, nat)>
    decreases remaining(s, pos), 30int,
{
    if 0 <= pos < s.len() && s[pos] == '{' {
        let w = ws_len(s, pos + 1);
        let p1 = pos + 1 + w;
        if p1 < s.len() && s[p1] == '}' {
            Some((ExpressionModel { clauses: Seq::empty() }, (p1 + 1 - pos) as nat))
        } else {
            match clause_list(s, p1) {
                None => None,
                Some((cs, n)) => {
                    let p2 = p1 + n;
                    let w2 = ws_len(s, p2);
                    if p2 + w2 < s.len() && s[p2 + w2] == '}' {
                        Some((ExpressionModel { clauses: cs }, (p2 + w2 + 1 - pos) as nat))
                    } else {
                        None
                    }
                },
            }
        }
    } else {
        None
    }
}

/// A non-empty, comma-separated list of expressions, in source order.
pub open spec fn expression_list(s: Seq<char>, pos: int) -> Option<(Seq<ExpressionModel>, nat)>
    decreases remaining(s, pos), 31int,
{
    match expression(s, pos) {
        None => None,
        Some((x, n)) => match expression_list_tail(s, pos + n) {
            None => None,
            Some((xs, k)) => Some((seq![x] + xs, n + k)),
        },
    }
}

/// What may follow one element of the list: a comma and further elements,
/// or nothing.
pub open spec fn expression_list_tail(s: Seq<char>, pos: int) -> Option<(Seq<ExpressionModel>, nat)>
    decreases remaining(s, pos), 0int,
{
    let w = ws_len(s, pos);
    if pos + w < s.len() && s[pos + w] == ',' {
        let p2 = pos + w + 1;
        let w2 = ws_len(s, p2);
        match expression_list(s, p2 + w2) {
            None => None,
            Some((xs, n)) => Some((xs, w + 1 + w2 + n)),
        }
    } else {
        Some((Seq::empty(), 0))
    }
}

/// A whole query document: one expression, surrounded by whitespace,
/// consuming the entire input.
pub open spec fn query(s: Seq<char>) -> Option<ExpressionModel> {
    let w = ws_len(s, 0);
    match expression(s, w as int) {
        None => None,
        Some((e, n)) => {
            if w + n + ws_len(s, (w + n) as int) == s.len() {
                Some(e)
            } else {
                None
            }
        },
    }
}

/// A whole document holding one generic JSON value, or nothing but
/// whitespace.
pub open spec fn json_doc(s: Seq<char>) -> bool {
    let w = ws_len(s, 0);
    if w == s.len() {
        true
    } else {
        match json_value(s, w as int) {
            None => false,
            Some((_, n)) => w + n + ws_len(s, (w + n) as int) == s.len(),
        }
    }
}

} // verus!
