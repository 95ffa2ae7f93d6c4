//! The executable recursive-descent parser. Every function returns exactly
//! what the corresponding grammar production denotes; the proofs relate each
//! step to the specification functions in `grammar`.
use vstd::prelude::*;
use vstd::string::StrSliceExecFns;

use crate::ast::{Expression, ExpressionTreeClause, JsonValue, Member};
use crate::ast::{view_json, view_json_seq, view_member, view_member_seq};
use crate::ast::{lemma_view_push_json, lemma_view_push_member};
use crate::ast::{
    lemma_view_push_clause, lemma_view_push_expression, lemma_view_push_leaf_value,
    lemma_view_push_operator,
};
use crate::ast::{
    view_clause, view_clause_seq, view_expression, view_expression_seq, view_leaf_value,
    view_leaf_value_seq, view_operator, view_operator_seq, view_value,
};
use crate::ast::{
    Clause, LeafClause, LeafValue, ListOperator, Operator, OperatorExpressionOperator, Value,
    ValueOperator,
};
use crate::error::{Fail, ParseError, Rule};
use crate::error::{column_of, line_of, push_char};
use crate::grammar;

verus! {

/// Relies on `char::from_u32`: every `u32` that is a Unicode scalar value
/// (not a surrogate, at most 0x10FFFF) converts to the `char` with exactly
/// that value.
#[verifier::external_body]
fn char_from_u32(n: u32) -> (c: char)
    requires
        n < 0xD800 || (0xE000 <= n && n <= 0x10FFFF),
    ensures
        c == (n as char),
{
    char::from_u32(n).unwrap()
}

fn is_ws_char(c: char) -> (r: bool)
    ensures
        r == grammar::is_ws(c),
{
    c == ' ' || c == '\t' || c == '\n' || c == '\r'
}

fn is_digit_char(c: char) -> (r: bool)
    ensures
        r == grammar::is_digit(c),
{
    '0' <= c && c <= '9'
}

/// Skips the whitespace run at `pos`.
fn skip_ws(s: &str, pos: usize) -> (r: usize)
    requires
        pos <= s@.len(),
    ensures
        pos <= r <= s@.len(),
        r == pos + grammar::ws_len(s@, pos as int),
{
    let len = s.unicode_len();
    let mut cur = pos;
    while cur < len && is_ws_char(s.get_char(cur))
        invariant
            pos <= cur <= len == s@.len(),
            grammar::ws_len(s@, pos as int) == (cur - pos) + grammar::ws_len(s@, cur as int),
        decreases len - cur,
    {
        cur = cur + 1;
    }
    cur
}

/// Skips the digit run at `pos`.
fn skip_digits(s: &str, pos: usize) -> (r: usize)
    requires
        pos <= s@.len(),
    ensures
        pos <= r <= s@.len(),
        r == pos + grammar::digits_len(s@, pos as int),
{
    let len = s.unicode_len();
    let mut cur = pos;
    while cur < len && is_digit_char(s.get_char(cur))
        invariant
            pos <= cur <= len == s@.len(),
            grammar::digits_len(s@, pos as int) == (cur - pos) + grammar::digits_len(
                s@,
                cur as int,
            ),
        decreases len - cur,
    {
        cur = cur + 1;
    }
    cur
}

/// The value of one hexadecimal digit, if `c` is one.
fn hex_digit(c: char) -> (r: Option<u32>)
    ensures
        match r {
            Some(v) => grammar::is_hex_digit(c) && v == grammar::hex_digit_value(c) && v <= 15,
            None => !grammar::is_hex_digit(c),
        },
{
    if '0' <= c && c <= '9' {
        Some(c as u32 - '0' as u32)
    } else if 'a' <= c && c <= 'f' {
        Some(c as u32 - 'a' as u32 + 10)
    } else if 'A' <= c && c <= 'F' {
        Some(c as u32 - 'A' as u32 + 10)
    } else {
        None
    }
}

/// The value of the four hexadecimal digits at `pos`, if they are there.
fn p_hex4(s: &str, pos: usize) -> (r: Option<u32>)
    requires
        pos <= s@.len(),
    ensures
        match r {
            Some(v) => grammar::hex4(s@, pos as int) == Some(v as int) && v <= 0xFFFF,
            None => grammar::hex4(s@, pos as int) is None,
        },
{
    let len = s.unicode_len();
    if len - pos < 4 {
        return None;
    }
    let d0 = hex_digit(s.get_char(pos));
    let d1 = hex_digit(s.get_char(pos + 1));
    let d2 = hex_digit(s.get_char(pos + 2));
    let d3 = hex_digit(s.get_char(pos + 3));
    match (d0, d1, d2, d3) {
        (Some(v0), Some(v1), Some(v2), Some(v3)) => Some(
            v0 * 0x1000 + v1 * 0x100 + v2 * 0x10 + v3,
        ),
        _ => None,
    }
}

/// One escape sequence at `pos` (`s[pos]` is the backslash): the character
/// it denotes and the source characters consumed.
fn p_escape(s: &str, pos: usize) -> (r: Option<(char, usize)>)
    requires
        pos <= s@.len(),
    ensures
        match r {
            Some((c, k)) => {
                &&& grammar::escape(s@, pos as int) == Some((c, k as nat))
                &&& 2 <= k
                &&& pos + k <= s@.len()
            },
            None => grammar::escape(s@, pos as int) is None,
        },
{
    let len = s.unicode_len();
    if len - pos < 2 {
        return None;
    }
    let e = s.get_char(pos + 1);
    if e == '"' || e == '\\' || e == '/' {
        Some((e, 2))
    } else if e == 'b' {
        Some(('\u{0008}', 2))
    } else if e == 'f' {
        Some(('\u{000C}', 2))
    } else if e == 'n' {
        Some(('\n', 2))
    } else if e == 'r' {
        Some(('\r', 2))
    } else if e == 't' {
        Some(('\t', 2))
    } else if e == 'u' {
        match p_hex4(s, pos + 2) {
            None => None,
            Some(n) => {
                if n < 0xD800 || n >= 0xE000 {
                    Some((char_from_u32(n), 6))
                } else if n < 0xDC00 {
                    if len - pos >= 8 && s.get_char(pos + 6) == '\\' && s.get_char(pos + 7)
                        == 'u' {
                        match p_hex4(s, pos + 8) {
                            None => None,
                            Some(m) => {
                                if 0xDC00 <= m && m < 0xE000 {
                                    let v = 0x10000 + (n - 0xD800) * 0x400 + (m - 0xDC00);
                                    Some((char_from_u32(v), 12))
                                } else {
                                    None
                                }
                            },
                        }
                    } else {
                        None
                    }
                } else {
                    None
                }
            },
        }
    } else {
        None
    }
}

/// A string literal at `pos`: the decoded content and the characters
/// consumed, quotes included.
#[verifier::rlimit(60)]
fn p_string(s: &str, pos: usize) -> (r: Result<(String, usize), Fail>)
    requires
        pos <= s@.len(),
    ensures
        match r {
            Ok((t, n)) => {
                &&& grammar::string_lit(s@, pos as int) == Some((t@, n as nat))
                &&& 2 <= n
                &&& pos + n <= s@.len()
            },
            Err(f) => {
                &&& grammar::string_lit(s@, pos as int) is None
                &&& f.pos <= s@.len()
            },
        },
{
    let len = s.unicode_len();
    if !(pos < len && s.get_char(pos) == '"') {
        return Err(Fail::at(pos, Rule::StringLiteral));
    }
    let mut cur = pos + 1;
    let mut out = String::new();
    loop
        invariant
            pos < pos + 1 <= cur <= len == s@.len(),
            s@[pos as int] == '"',
            match grammar::string_body(s@, cur as int) {
                Some((cs, n)) => grammar::string_body(s@, pos + 1) == Some(
                    (out@ + cs, ((cur - pos - 1) + n) as nat),
                ),
                None => grammar::string_body(s@, pos + 1) is None,
            },
        decreases len - cur,
    {
        if cur == len {
            return Err(Fail::at(cur, Rule::StringLiteral));
        }
        let c = s.get_char(cur);
        if c == '"' {
            proof {
                assert(out@ + Seq::<char>::empty() =~= out@);
            }
            return Ok((out, cur + 1 - pos));
        } else if c == '\\' {
            match p_escape(s, cur) {
                None => {
                    return Err(Fail::at(cur, Rule::StringLiteral));
                },
                Some((d, k)) => {
                    let ghost prev = out@;
                    push_char(&mut out, d);
                    proof {
                        if grammar::string_body(s@, cur + k) is Some {
                            let (cs, n) = grammar::string_body(s@, cur + k)->Some_0;
                            assert(prev + (seq![d] + cs) =~= out@ + cs);
                        }
                    }
                    cur = cur + k;
                },
            }
        } else if (c as u32) < 0x20 {
            return Err(Fail::at(cur, Rule::StringLiteral));
        } else {
            let ghost prev = out@;
            push_char(&mut out, c);
            proof {
                if grammar::string_body(s@, cur + 1) is Some {
                    let (cs, n) = grammar::string_body(s@, cur + 1)->Some_0;
                    assert(prev + (seq![c] + cs) =~= out@ + cs);
                }
            }
            cur = cur + 1;
        }
    }
}

/// A number literal at `pos`: the lexeme exactly as written, and its length.
#[verifier::rlimit(100)]
fn p_number(s: &str, pos: usize) -> (r: Result<(String, usize), Fail>)
    requires
        pos <= s@.len(),
    ensures
        match r {
            Ok((t, n)) => {
                &&& grammar::number_lit(s@, pos as int) == Some(n as nat)
                &&& t@ == s@.subrange(pos as int, pos + n)
                &&& 1 <= n
                &&& pos + n <= s@.len()
            },
            Err(f) => {
                &&& grammar::number_lit(s@, pos as int) is None
                &&& f.pos <= s@.len()
            },
        },
{
    let len = s.unicode_len();
    let mut end = pos;
    if end < len && s.get_char(end) == '-' {
        end = end + 1;
    }
    if end < len && s.get_char(end) == '0' {
        end = end + 1;
    } else if end < len && is_digit_char(s.get_char(end)) {
        end = skip_digits(s, end);
    } else {
        return Err(Fail::at(end, Rule::NumberLiteral));
    }
    if end < len && s.get_char(end) == '.' {
        let d = skip_digits(s, end + 1);
        if d == end + 1 {
            return Err(Fail::at(d, Rule::NumberLiteral));
        }
        end = d;
    }
    if end < len && (s.get_char(end) == 'e' || s.get_char(end) == 'E') {
        let mut q = end + 1;
        if q < len && (s.get_char(q) == '+' || s.get_char(q) == '-') {
            q = q + 1;
        }
        let d = skip_digits(s, q);
        if d == q {
            return Err(Fail::at(d, Rule::NumberLiteral));
        }
        end = d;
    }
    let t = s.substring_char(pos, end).to_owned();
    Ok((t, end - pos))
}

/// `true` at `pos`?
fn p_true(s: &str, pos: usize) -> (r: bool)
    requires
        pos <= s@.len(),
    ensures
        r == grammar::lit_true(s@, pos as int),
{
    let len = s.unicode_len();
    len - pos >= 4 && s.get_char(pos) == 't' && s.get_char(pos + 1) == 'r' && s.get_char(pos + 2)
        == 'u' && s.get_char(pos + 3) == 'e'
}

/// `false` at `pos`?
fn p_false(s: &str, pos: usize) -> (r: bool)
    requires
        pos <= s@.len(),
    ensures
        r == grammar::lit_false(s@, pos as int),
{
    let len = s.unicode_len();
    len - pos >= 5 && s.get_char(pos) == 'f' && s.get_char(pos + 1) == 'a' && s.get_char(pos + 2)
        == 'l' && s.get_char(pos + 3) == 's' && s.get_char(pos + 4) == 'e'
}

/// `null` at `pos`?
fn p_null(s: &str, pos: usize) -> (r: bool)
    requires
        pos <= s@.len(),
    ensures
        r == grammar::lit_null(s@, pos as int),
{
    let len = s.unicode_len();
    len - pos >= 4 && s.get_char(pos) == 'n' && s.get_char(pos + 1) == 'u' && s.get_char(pos + 2)
        == 'l' && s.get_char(pos + 3) == 'l'
}

/// One `key: value` member of a JSON object.
fn p_json_member(s: &str, pos: usize) -> (r: Result<(Member, usize), Fail>)
    requires
        pos <= s@.len(),
    ensures
        match r {
            Ok((m, n)) => {
                &&& grammar::json_member(s@, pos as int) == Some((view_member(m), n as nat))
                &&& 1 <= n
                &&& pos + n <= s@.len()
            },
            Err(f) => {
                &&& grammar::json_member(s@, pos as int) is None
                &&& f.pos <= s@.len()
            },
        },
    decreases s@.len() - pos, 8int,
{
    let len = s.unicode_len();
    let (k, n1) = match p_string(s, pos) {
        Ok(v) => v,
        Err(f) => {
            return Err(f);
        },
    };
    let w1 = skip_ws(s, pos + n1);
    if !(w1 < len && s.get_char(w1) == ':') {
        return Err(Fail::at(w1, Rule::Member));
    }
    let w2 = skip_ws(s, w1 + 1);
    match p_json_value(s, w2) {
        Err(f) => Err(f),
        Ok((v, n2)) => Ok((Member { key: k, value: v }, w2 + n2 - pos)),
    }
}

/// A non-empty, comma-separated list of members.
#[verifier::rlimit(60)]
fn p_json_member_list(s: &str, pos: usize) -> (r: Result<(Vec<Member>, usize), Fail>)
    requires
        pos <= s@.len(),
    ensures
        match r {
            Ok((ms, n)) => {
                &&& grammar::json_member_list(s@, pos as int) == Some(
                    (view_member_seq(ms@), n as nat),
                )
                &&& 1 <= n
                &&& pos + n <= s@.len()
            },
            Err(f) => {
                &&& grammar::json_member_list(s@, pos as int) is None
                &&& f.pos <= s@.len()
            },
        },
    decreases s@.len() - pos, 9int,
{
    let len = s.unicode_len();
    let mut acc: Vec<Member> = Vec::new();
    let (m0, n0) = match p_json_member(s, pos) {
        Ok(v) => v,
        Err(f) => {
            return Err(f);
        },
    };
    let ghost vm0 = view_member(m0);
    acc.push(m0);
    proof {
        assert(view_member_seq(acc@) =~= seq![vm0]);
    }
    let mut end = pos + n0;
    loop
        invariant
            pos < end <= s@.len(),
            len == s@.len(),
            match grammar::json_member_list_tail(s@, end as int) {
                Some((ms, k)) => grammar::json_member_list(s@, pos as int) == Some(
                    (view_member_seq(acc@) + ms, ((end - pos) + k) as nat),
                ),
                None => grammar::json_member_list(s@, pos as int) is None,
            },
        decreases len - end,
    {
        let w = skip_ws(s, end);
        if !(w < len && s.get_char(w) == ',') {
            proof {
                assert(view_member_seq(acc@) + Seq::<crate::ast::MemberModel>::empty()
                    =~= view_member_seq(acc@));
            }
            return Ok((acc, end - pos));
        }
        let q = skip_ws(s, w + 1);
        match p_json_member(s, q) {
            Err(f) => {
                return Err(f);
            },
            Ok((m, nm)) => {
                let ghost prev = acc@;
                let ghost vm = view_member(m);
                acc.push(m);
                proof {
                    broadcast use lemma_view_push_member;
                    if grammar::json_member_list_tail(s@, q + nm) is Some {
                        let (ms2, k2) = grammar::json_member_list_tail(s@, q + nm)->Some_0;
                        assert(view_member_seq(prev) + (seq![vm] + ms2) =~= view_member_seq(acc@)
                            + ms2);
                    }
                }
                end = q + nm;
            },
        }
    }
}

/// A JSON object: the members between its braces, in source order.
fn p_json_object(s: &str, pos: usize) -> (r: Result<(Vec<Member>, usize), Fail>)
    requires
        pos <= s@.len(),
    ensures
        match r {
            Ok((ms, n)) => {
                &&& grammar::json_object(s@, pos as int) == Some((view_member_seq(ms@), n as nat))
                &&& 1 <= n
                &&& pos + n <= s@.len()
            },
            Err(f) => {
                &&& grammar::json_object(s@, pos as int) is None
                &&& f.pos <= s@.len()
            },
        },
    decreases s@.len() - pos, 10int,
{
    let len = s.unicode_len();
    if !(pos < len && s.get_char(pos) == '{') {
        return Err(Fail::at(pos, Rule::Object));
    }
    let p1 = skip_ws(s, pos + 1);
    if p1 < len && s.get_char(p1) == '}' {
        let ms: Vec<Member> = Vec::new();
        proof {
            assert(view_member_seq(ms@) =~= Seq::<crate::ast::MemberModel>::empty());
        }
        return Ok((ms, p1 + 1 - pos));
    }
    match p_json_member_list(s, p1) {
        Err(f) => Err(f),
        Ok((ms, n)) => {
            let p2 = skip_ws(s, p1 + n);
            if p2 < len && s.get_char(p2) == '}' {
                Ok((ms, p2 + 1 - pos))
            } else {
                Err(Fail::at(p2, Rule::Object))
            }
        },
    }
}

/// A non-empty, comma-separated list of JSON values.
#[verifier::rlimit(60)]
fn p_json_value_list(s: &str, pos: usize) -> (r: Result<(Vec<JsonValue>, usize), Fail>)
    requires
        pos <= s@.len(),
    ensures
        match r {
            Ok((vs, n)) => {
                &&& grammar::json_value_list(s@, pos as int) == Some(
                    (view_json_seq(vs@), n as nat),
                )
                &&& 1 <= n
                &&& pos + n <= s@.len()
            },
            Err(f) => {
                &&& grammar::json_value_list(s@, pos as int) is None
                &&& f.pos <= s@.len()
            },
        },
    decreases s@.len() - pos, 13int,
{
    let len = s.unicode_len();
    let mut acc: Vec<JsonValue> = Vec::new();
    let (v0, n0) = match p_json_value(s, pos) {
        Ok(v) => v,
        Err(f) => {
            return Err(f);
        },
    };
    let ghost vv0 = view_json(v0);
    acc.push(v0);
    proof {
        assert(view_json_seq(acc@) =~= seq![vv0]);
    }
    let mut end = pos + n0;
    loop
        invariant
            pos < end <= s@.len(),
            len == s@.len(),
            match grammar::json_value_list_tail(s@, end as int) {
                Some((vs, k)) => grammar::json_value_list(s@, pos as int) == Some(
                    (view_json_seq(acc@) + vs, ((end - pos) + k) as nat),
                ),
                None => grammar::json_value_list(s@, pos as int) is None,
            },
        decreases len - end,
    {
        let w = skip_ws(s, end);
        if !(w < len && s.get_char(w) == ',') {
            proof {
                assert(view_json_seq(acc@) + Seq::<crate::ast::JsonModel>::empty() =~= view_json_seq(
                    acc@,
                ));
            }
            return Ok((acc, end - pos));
        }
        let q = skip_ws(s, w + 1);
        match p_json_value(s, q) {
            Err(f) => {
                return Err(f);
            },
            Ok((v, nv)) => {
                let ghost prev = acc@;
                let ghost vv = view_json(v);
                acc.push(v);
                proof {
                    broadcast use lemma_view_push_json;
                    if grammar::json_value_list_tail(s@, q + nv) is Some {
                        let (vs2, k2) = grammar::json_value_list_tail(s@, q + nv)->Some_0;
                        assert(view_json_seq(prev) + (seq![vv] + vs2) =~= view_json_seq(acc@)
                            + vs2);
                    }
                }
                end = q + nv;
            },
        }
    }
}

/// A JSON array: the values between its brackets, in source order.
fn p_json_array(s: &str, pos: usize) -> (r: Result<(Vec<JsonValue>, usize), Fail>)
    requires
        pos <= s@.len(),
    ensures
        match r {
            Ok((vs, n)) => {
                &&& grammar::json_array(s@, pos as int) == Some((view_json_seq(vs@), n as nat))
                &&& 1 <= n
                &&& pos + n <= s@.len()
            },
            Err(f) => {
                &&& grammar::json_array(s@, pos as int) is None
                &&& f.pos <= s@.len()
            },
        },
    decreases s@.len() - pos, 11int,
{
    let len = s.unicode_len();
    if !(pos < len && s.get_char(pos) == '[') {
        return Err(Fail::at(pos, Rule::Array));
    }
    let p1 = skip_ws(s, pos + 1);
    if p1 < len && s.get_char(p1) == ']' {
        let vs: Vec<JsonValue> = Vec::new();
        proof {
            assert(view_json_seq(vs@) =~= Seq::<crate::ast::JsonModel>::empty());
        }
        return Ok((vs, p1 + 1 - pos));
    }
    match p_json_value_list(s, p1) {
        Err(f) => Err(f),
        Ok((vs, n)) => {
            let p2 = skip_ws(s, p1 + n);
            if p2 < len && s.get_char(p2) == ']' {
                Ok((vs, p2 + 1 - pos))
            } else {
                Err(Fail::at(p2, Rule::Array))
            }
        },
    }
}

/// A generic JSON value, dispatched on its first character.
fn p_json_value(s: &str, pos: usize) -> (r: Result<(JsonValue, usize), Fail>)
    requires
        pos <= s@.len(),
    ensures
        match r {
            Ok((v, n)) => {
                &&& grammar::json_value(s@, pos as int) == Some((view_json(v), n as nat))
                &&& 1 <= n
                &&& pos + n <= s@.len()
            },
            Err(f) => {
                &&& grammar::json_value(s@, pos as int) is None
                &&& f.pos <= s@.len()
            },
        },
    decreases s@.len() - pos, 12int,
{
    let len = s.unicode_len();
    if pos == len {
        return Err(Fail::at(pos, Rule::Json));
    }
    let c = s.get_char(pos);
    if c == '"' {
        match p_string(s, pos) {
            Ok((t, n)) => Ok((JsonValue::Str(t), n)),
            Err(f) => Err(f),
        }
    } else if c == '{' {
        match p_json_object(s, pos) {
            Ok((ms, n)) => Ok((JsonValue::Object(ms), n)),
            Err(f) => Err(f),
        }
    } else if c == '[' {
        match p_json_array(s, pos) {
            Ok((vs, n)) => Ok((JsonValue::Array(vs), n)),
            Err(f) => Err(f),
        }
    } else if c == 't' {
        if p_true(s, pos) {
            Ok((JsonValue::Boolean(true), 4))
        } else {
            Err(Fail::at(pos, Rule::BooleanLiteral))
        }
    } else if c == 'f' {
        if p_false(s, pos) {
            Ok((JsonValue::Boolean(false), 5))
        } else {
            Err(Fail::at(pos, Rule::BooleanLiteral))
        }
    } else if c == 'n' {
        if p_null(s, pos) {
            Ok((JsonValue::Null, 4))
        } else {
            Err(Fail::at(pos, Rule::NullLiteral))
        }
    } else {
        match p_number(s, pos) {
            Ok((t, n)) => Ok((JsonValue::Number(t), n)),
            Err(f) => Err(f),
        }
    }
}

/// Character-wise string equality.
fn str_eq(a: &str, b: &str) -> (r: bool)
    ensures
        r == (a@ == b@),
{
    let la = a.unicode_len();
    let lb = b.unicode_len();
    if la != lb {
        return false;
    }
    let mut i: usize = 0;
    while i < la
        invariant
            0 <= i <= la == a@.len() == b@.len(),
            forall|j: int| 0 <= j < i ==> a@[j] == b@[j],
        decreases la - i,
    {
        if a.get_char(i) != b.get_char(i) {
            return false;
        }
        i = i + 1;
    }
    proof {
        assert(a@ =~= b@);
    }
    true
}

/// Does the decoded string name an operator (begin with `$`)?
fn is_operator_key(k: &String) -> (r: bool)
    ensures
        r == crate::ast::is_operator_name(k@),
{
    k.as_str().unicode_len() >= 1 && k.as_str().get_char(0) == '$'
}

/// An object in leaf-value position: a decimal wrapper denotes its number,
/// an object of operators is refused, anything else stays verbatim.
fn p_object_leaf(s: &str, pos: usize) -> (r: Result<(JsonValue, usize), Fail>)
    requires
        pos <= s@.len(),
    ensures
        match r {
            Ok((v, n)) => {
                &&& grammar::object_leaf(s@, pos as int) == Some((view_json(v), n as nat))
                &&& 1 <= n
                &&& pos + n <= s@.len()
            },
            Err(f) => {
                &&& grammar::object_leaf(s@, pos as int) is None
                &&& f.pos <= s@.len()
            },
        },
    decreases s@.len() - pos, 14int,
{
    let (ms, n) = match p_json_object(s, pos) {
        Ok(v) => v,
        Err(f) => {
            return Err(f);
        },
    };
    if ms.len() == 1 && (str_eq(ms[0].key.as_str(), "$f") || str_eq(
        ms[0].key.as_str(),
        "$numberDecimal",
    )) {
        let is_number = match &ms[0].value {
            JsonValue::Number(_) => true,
            _ => false,
        };
        if is_number {
            let mut ms = ms;
            let m = match ms.pop() {
                Some(m) => m,
                // one member is in the vector, so pop cannot come up empty
                None => unreached(),
            };
            return Ok((m.value, n));
        }
    }
    if ms.len() >= 1 && is_operator_key(&ms[0].key) {
        return Err(Fail::at(pos, Rule::LeafValue));
    }
    Ok((JsonValue::Object(ms), n))
}

/// A leaf value: a scalar literal or an object leaf.
fn p_leaf_value(s: &str, pos: usize) -> (r: Result<(LeafValue, usize), Fail>)
    requires
        pos <= s@.len(),
    ensures
        match r {
            Ok((lv, n)) => {
                &&& grammar::leaf_value(s@, pos as int) == Some((view_leaf_value(lv), n as nat))
                &&& 1 <= n
                &&& pos + n <= s@.len()
            },
            Err(f) => {
                &&& grammar::leaf_value(s@, pos as int) is None
                &&& f.pos <= s@.len()
            },
        },
    decreases s@.len() - pos, 15int,
{
    let len = s.unicode_len();
    if pos == len {
        return Err(Fail::at(pos, Rule::LeafValue));
    }
    let c = s.get_char(pos);
    if c == '"' {
        match p_string(s, pos) {
            Ok((t, n)) => Ok((LeafValue { value: JsonValue::Str(t) }, n)),
            Err(f) => Err(f),
        }
    } else if c == '{' {
        match p_object_leaf(s, pos) {
            Ok((v, n)) => Ok((LeafValue { value: v }, n)),
            Err(f) => Err(f),
        }
    } else if c == 't' {
        if p_true(s, pos) {
            Ok((LeafValue { value: JsonValue::Boolean(true) }, 4))
        } else {
            Err(Fail::at(pos, Rule::BooleanLiteral))
        }
    } else if c == 'f' {
        if p_false(s, pos) {
            Ok((LeafValue { value: JsonValue::Boolean(false) }, 5))
        } else {
            Err(Fail::at(pos, Rule::BooleanLiteral))
        }
    } else if c == 'n' {
        if p_null(s, pos) {
            Ok((LeafValue { value: JsonValue::Null }, 4))
        } else {
            Err(Fail::at(pos, Rule::NullLiteral))
        }
    } else {
        match p_number(s, pos) {
            Ok((t, n)) => Ok((LeafValue { value: JsonValue::Number(t) }, n)),
            Err(f) => Err(f),
        }
    }
}

/// A non-empty, comma-separated list of leaf values.
#[verifier::rlimit(60)]
fn p_leaf_value_list(s: &str, pos: usize) -> (r: Result<(Vec<LeafValue>, usize), Fail>)
    requires
        pos <= s@.len(),
    ensures
        match r {
            Ok((vs, n)) => {
                &&& grammar::leaf_value_list(s@, pos as int) == Some(
                    (view_leaf_value_seq(vs@), n as nat),
                )
                &&& 1 <= n
                &&& pos + n <= s@.len()
            },
            Err(f) => {
                &&& grammar::leaf_value_list(s@, pos as int) is None
                &&& f.pos <= s@.len()
            },
        },
    decreases s@.len() - pos, 16int,
{
    let len = s.unicode_len();
    let mut acc: Vec<LeafValue> = Vec::new();
    let (v0, n0) = match p_leaf_value(s, pos) {
        Ok(v) => v,
        Err(f) => {
            return Err(f);
        },
    };
    let ghost vv0 = view_leaf_value(v0);
    acc.push(v0);
    proof {
        assert(view_leaf_value_seq(acc@) =~= seq![vv0]);
    }
    let mut end = pos + n0;
    loop
        invariant
            pos < end <= s@.len(),
            len == s@.len(),
            match grammar::leaf_value_list_tail(s@, end as int) {
                Some((vs, k)) => grammar::leaf_value_list(s@, pos as int) == Some(
                    (view_leaf_value_seq(acc@) + vs, ((end - pos) + k) as nat),
                ),
                None => grammar::leaf_value_list(s@, pos as int) is None,
            },
        decreases len - end,
    {
        let w = skip_ws(s, end);
        if !(w < len && s.get_char(w) == ',') {
            proof {
                assert(view_leaf_value_seq(acc@) + Seq::<crate::ast::LeafValueModel>::empty()
                    =~= view_leaf_value_seq(acc@));
            }
            return Ok((acc, end - pos));
        }
        let q = skip_ws(s, w + 1);
        match p_leaf_value(s, q) {
            Err(f) => {
                return Err(f);
            },
            Ok((v, nv)) => {
                let ghost prev = acc@;
                let ghost vv = view_leaf_value(v);
                acc.push(v);
                proof {
                    broadcast use lemma_view_push_leaf_value;
                    if grammar::leaf_value_list_tail(s@, q + nv) is Some {
                        let (vs2, k2) = grammar::leaf_value_list_tail(s@, q + nv)->Some_0;
                        assert(view_leaf_value_seq(prev) + (seq![vv] + vs2)
                            =~= view_leaf_value_seq(acc@) + vs2);
                    }
                }
                end = q + nv;
            },
        }
    }
}

/// An operator name in key position: a string beginning with `$`.
fn p_operator_name(s: &str, pos: usize) -> (r: Result<(String, usize), Fail>)
    requires
        pos <= s@.len(),
    ensures
        match r {
            Ok((t, n)) => {
                &&& grammar::operator_name(s@, pos as int) == Some((t@, n as nat))
                &&& 2 <= n
                &&& pos + n <= s@.len()
            },
            Err(f) => {
                &&& grammar::operator_name(s@, pos as int) is None
                &&& f.pos <= s@.len()
            },
        },
    decreases s@.len() - pos, 2int,
{
    match p_string(s, pos) {
        Err(f) => Err(f),
        Ok((k, n)) => {
            if is_operator_key(&k) {
                Ok((k, n))
            } else {
                Err(Fail::at(pos, Rule::Operator))
            }
        },
    }
}

/// `"$op": [ leaf values ]`.
#[verifier::rlimit(60)]
fn p_list_operator_type(s: &str, pos: usize) -> (r: Result<(ListOperator, usize), Fail>)
    requires
        pos <= s@.len(),
    ensures
        match r {
            Ok((lo, n)) => {
                &&& grammar::list_operator_type(s@, pos as int) == Some(
                    (view_operator(Operator::List(lo))->List_0, n as nat),
                )
                &&& 1 <= n
                &&& pos + n <= s@.len()
            },
            Err(f) => {
                &&& grammar::list_operator_type(s@, pos as int) is None
                &&& f.pos <= s@.len()
            },
        },
    decreases s@.len() - pos, 17int,
{
    let len = s.unicode_len();
    let (name, n1) = match p_operator_name(s, pos) {
        Ok(v) => v,
        Err(f) => {
            return Err(f);
        },
    };
    let w1 = skip_ws(s, pos + n1);
    if !(w1 < len && s.get_char(w1) == ':') {
        return Err(Fail::at(w1, Rule::ListOperatorType));
    }
    let p3 = skip_ws(s, w1 + 1);
    if !(p3 < len && s.get_char(p3) == '[') {
        return Err(Fail::at(p3, Rule::ListOperatorType));
    }
    let q = skip_ws(s, p3 + 1);
    let (vs, n2) = match p_leaf_value_list(s, q) {
        Ok(v) => v,
        Err(f) => {
            return Err(f);
        },
    };
    let p4 = skip_ws(s, q + n2);
    if p4 < len && s.get_char(p4) == ']' {
        Ok((ListOperator { operator: name, values: vs }, p4 + 1 - pos))
    } else {
        Err(Fail::at(p4, Rule::ListOperatorType))
    }
}

/// `"$op": leaf value`.
#[verifier::rlimit(60)]
fn p_value_operator_type(s: &str, pos: usize) -> (r: Result<(ValueOperator, usize), Fail>)
    requires
        pos <= s@.len(),
    ensures
        match r {
            Ok((vo, n)) => {
                &&& grammar::value_operator_type(s@, pos as int) == Some(
                    (view_operator(Operator::Value(vo))->Value_0, n as nat),
                )
                &&& 1 <= n
                &&& pos + n <= s@.len()
            },
            Err(f) => {
                &&& grammar::value_operator_type(s@, pos as int) is None
                &&& f.pos <= s@.len()
            },
        },
    decreases s@.len() - pos, 17int,
{
    let len = s.unicode_len();
    let (name, n1) = match p_operator_name(s, pos) {
        Ok(v) => v,
        Err(f) => {
            return Err(f);
        },
    };
    let w1 = skip_ws(s, pos + n1);
    if !(w1 < len && s.get_char(w1) == ':') {
        return Err(Fail::at(w1, Rule::ValueOperatorType));
    }
    let w2 = skip_ws(s, w1 + 1);
    match p_leaf_value(s, w2) {
        Err(f) => Err(f),
        Ok((v, n2)) => Ok((ValueOperator { operator: name, value: v }, w2 + n2 - pos)),
    }
}

/// `"$op": { operators }`.
#[verifier::rlimit(60)]
fn p_operator_expression_operator_type(s: &str, pos: usize) -> (r: Result<
    (OperatorExpressionOperator, usize),
    Fail,
>)
    requires
        pos <= s@.len(),
    ensures
        match r {
            Ok((eo, n)) => {
                &&& grammar::operator_expression_operator_type(s@, pos as int) == Some(
                    (view_operator(Operator::ExpressionOperator(eo))->ExpressionOperator_0,
                    n as nat),
                )
                &&& 1 <= n
                &&& pos + n <= s@.len()
            },
            Err(f) => {
                &&& grammar::operator_expression_operator_type(s@, pos as int) is None
                &&& f.pos <= s@.len()
            },
        },
    decreases s@.len() - pos, 18int,
{
    let len = s.unicode_len();
    let (name, n1) = match p_operator_name(s, pos) {
        Ok(v) => v,
        Err(f) => {
            return Err(f);
        },
    };
    let w1 = skip_ws(s, pos + n1);
    if !(w1 < len && s.get_char(w1) == ':') {
        return Err(Fail::at(w1, Rule::OperatorExpressionOperatorType));
    }
    let w2 = skip_ws(s, w1 + 1);
    match p_operator_expression(s, w2) {
        Err(f) => Err(f),
        Ok((ops, n2)) => Ok(
            (OperatorExpressionOperator { operator: name, operators: ops }, w2 + n2 - pos),
        ),
    }
}

/// One operator, by the shape of its operand.
fn p_operator(s: &str, pos: usize) -> (r: Result<(Operator, usize), Fail>)
    requires
        pos <= s@.len(),
    ensures
        match r {
            Ok((op, n)) => {
                &&& grammar::operator(s@, pos as int) == Some((view_operator(op), n as nat))
                &&& 1 <= n
                &&& pos + n <= s@.len()
            },
            Err(f) => {
                &&& grammar::operator(s@, pos as int) is None
                &&& f.pos <= s@.len()
            },
        },
    decreases s@.len() - pos, 19int,
{
    let f1 = match p_list_operator_type(s, pos) {
        Ok((lo, n)) => {
            return Ok((Operator::List(lo), n));
        },
        Err(f) => f,
    };
    let f2 = match p_value_operator_type(s, pos) {
        Ok((vo, n)) => {
            return Ok((Operator::Value(vo), n));
        },
        Err(f) => f,
    };
    match p_operator_expression_operator_type(s, pos) {
        Ok((eo, n)) => Ok((Operator::ExpressionOperator(eo), n)),
        Err(f3) => Err(f1.or(f2).or(f3)),
    }
}

/// A non-empty, comma-separated list of operators.
#[verifier::rlimit(60)]
fn p_operator_list(s: &str, pos: usize) -> (r: Result<(Vec<Operator>, usize), Fail>)
    requires
        pos <= s@.len(),
    ensures
        match r {
            Ok((ops, n)) => {
                &&& grammar::operator_list(s@, pos as int) == Some(
                    (view_operator_seq(ops@), n as nat),
                )
                &&& ops@.len() >= 1
                &&& 1 <= n
                &&& pos + n <= s@.len()
            },
            Err(f) => {
                &&& grammar::operator_list(s@, pos as int) is None
                &&& f.pos <= s@.len()
            },
        },
    decreases s@.len() - pos, 20int,
{
    let len = s.unicode_len();
    let mut acc: Vec<Operator> = Vec::new();
    let (op0, n0) = match p_operator(s, pos) {
        Ok(v) => v,
        Err(f) => {
            return Err(f);
        },
    };
    let ghost vop0 = view_operator(op0);
    acc.push(op0);
    proof {
        assert(view_operator_seq(acc@) =~= seq![vop0]);
    }
    let mut end = pos + n0;
    loop
        invariant
            pos < end <= s@.len(),
            len == s@.len(),
            match grammar::operator_list_tail(s@, end as int) {
                Some((ops, k)) => grammar::operator_list(s@, pos as int) == Some(
                    (view_operator_seq(acc@) + ops, ((end - pos) + k) as nat),
                ),
                None => grammar::operator_list(s@, pos as int) is None,
            },
        decreases len - end,
    {
        let w = skip_ws(s, end);
        if !(w < len && s.get_char(w) == ',') {
            proof {
                assert(view_operator_seq(acc@) + Seq::<crate::ast::OperatorModel>::empty()
                    =~= view_operator_seq(acc@));
            }
            return Ok((acc, end - pos));
        }
        let q = skip_ws(s, w + 1);
        match p_operator(s, q) {
            Err(f) => {
                return Err(f);
            },
            Ok((op, nop)) => {
                let ghost prev = acc@;
                let ghost vop = view_operator(op);
                acc.push(op);
                proof {
                    broadcast use lemma_view_push_operator;
                    if grammar::operator_list_tail(s@, q + nop) is Some {
                        let (ops2, k2) = grammar::operator_list_tail(s@, q + nop)->Some_0;
                        assert(view_operator_seq(prev) + (seq![vop] + ops2)
                            =~= view_operator_seq(acc@) + ops2);
                    }
                }
                end = q + nop;
            },
        }
    }
}

/// `{ operators }`.
fn p_operator_expression(s: &str, pos: usize) -> (r: Result<(Vec<Operator>, usize), Fail>)
    requires
        pos <= s@.len(),
    ensures
        match r {
            Ok((ops, n)) => {
                &&& grammar::operator_expression(s@, pos as int) == Some(
                    (view_operator_seq(ops@), n as nat),
                )
                &&& 1 <= n
                &&& pos + n <= s@.len()
                &&& ops@.len() >= 1
            },
            Err(f) => {
                &&& grammar::operator_expression(s@, pos as int) is None
                &&& f.pos <= s@.len()
            },
        },
    decreases s@.len() - pos, 21int,
{
    let len = s.unicode_len();
    if !(pos < len && s.get_char(pos) == '{') {
        return Err(Fail::at(pos, Rule::OperatorExpression));
    }
    let p1 = skip_ws(s, pos + 1);
    let (ops, n) = match p_operator_list(s, p1) {
        Ok(v) => v,
        Err(f) => {
            return Err(f);
        },
    };
    let p2 = skip_ws(s, p1 + n);
    if p2 < len && s.get_char(p2) == '}' {
        Ok((ops, p2 + 1 - pos))
    } else {
        Err(Fail::at(p2, Rule::OperatorExpression))
    }
}

/// The right-hand side of a leaf clause.
fn p_value(s: &str, pos: usize) -> (r: Result<(Value, usize), Fail>)
    requires
        pos <= s@.len(),
    ensures
        match r {
            Ok((v, n)) => {
                &&& grammar::value(s@, pos as int) == Some((view_value(v), n as nat))
                &&& 1 <= n
                &&& pos + n <= s@.len()
            },
            Err(f) => {
                &&& grammar::value(s@, pos as int) is None
                &&& f.pos <= s@.len()
            },
        },
    decreases s@.len() - pos, 22int,
{
    let f1 = match p_leaf_value(s, pos) {
        Ok((lv, n)) => {
            return Ok((Value::Leaf(lv), n));
        },
        Err(f) => f,
    };
    match p_operator_expression(s, pos) {
        Ok((ops, n)) => Ok((Value::Operators(ops), n)),
        Err(f2) => Err(f1.or(f2)),
    }
}

/// `key: value` — a predicate on one field.
fn p_leaf_clause(s: &str, pos: usize) -> (r: Result<(LeafClause, usize), Fail>)
    requires
        pos <= s@.len(),
    ensures
        match r {
            Ok((lc, n)) => {
                &&& grammar::leaf_clause(s@, pos as int) == Some(
                    (view_clause(Clause::Leaf(lc))->Leaf_0, n as nat),
                )
                &&& 1 <= n
                &&& pos + n <= s@.len()
            },
            Err(f) => {
                &&& grammar::leaf_clause(s@, pos as int) is None
                &&& f.pos <= s@.len()
            },
        },
    decreases s@.len() - pos, 23int,
{
    let len = s.unicode_len();
    let (k, n1) = match p_string(s, pos) {
        Ok(v) => v,
        Err(f) => {
            return Err(f);
        },
    };
    let w1 = skip_ws(s, pos + n1);
    if !(w1 < len && s.get_char(w1) == ':') {
        return Err(Fail::at(w1, Rule::LeafClause));
    }
    let w2 = skip_ws(s, w1 + 1);
    match p_value(s, w2) {
        Err(f) => Err(f),
        Ok((v, n2)) => Ok((LeafClause { key: k, value: v }, w2 + n2 - pos)),
    }
}

/// `"$op": [ expressions ]` — a logical combinator.
#[verifier::rlimit(60)]
fn p_expression_tree_clause(s: &str, pos: usize) -> (r: Result<(ExpressionTreeClause, usize), Fail>)
    requires
        pos <= s@.len(),
    ensures
        match r {
            Ok((tc, n)) => {
                &&& grammar::expression_tree_clause(s@, pos as int) == Some(
                    (view_clause(Clause::ExpressionTree(tc))->ExpressionTree_0, n as nat),
                )
                &&& 1 <= n
                &&& pos + n <= s@.len()
            },
            Err(f) => {
                &&& grammar::expression_tree_clause(s@, pos as int) is None
                &&& f.pos <= s@.len()
            },
        },
    decreases s@.len() - pos, 24int,
{
    let len = s.unicode_len();
    let (name, n1) = match p_operator_name(s, pos) {
        Ok(v) => v,
        Err(f) => {
            return Err(f);
        },
    };
    let w1 = skip_ws(s, pos + n1);
    if !(w1 < len && s.get_char(w1) == ':') {
        return Err(Fail::at(w1, Rule::ExpressionTreeClause));
    }
    let p3 = skip_ws(s, w1 + 1);
    if !(p3 < len && s.get_char(p3) == '[') {
        return Err(Fail::at(p3, Rule::ExpressionTreeClause));
    }
    let q = skip_ws(s, p3 + 1);
    let (es, n2) = match p_expression_list(s, q) {
        Ok(v) => v,
        Err(f) => {
            return Err(f);
        },
    };
    let p4 = skip_ws(s, q + n2);
    if p4 < len && s.get_char(p4) == ']' {
        Ok((ExpressionTreeClause { operator: name, expressions: es }, p4 + 1 - pos))
    } else {
        Err(Fail::at(p4, Rule::ExpressionTreeClause))
    }
}

/// One clause.
fn p_clause(s: &str, pos: usize) -> (r: Result<(Clause, usize), Fail>)
    requires
        pos <= s@.len(),
    ensures
        match r {
            Ok((c, n)) => {
                &&& grammar::clause(s@, pos as int) == Some((view_clause(c), n as nat))
                &&& 1 <= n
                &&& pos + n <= s@.len()
            },
            Err(f) => {
                &&& grammar::clause(s@, pos as int) is None
                &&& f.pos <= s@.len()
            },
        },
    decreases s@.len() - pos, 25int,
{
    let f1 = match p_leaf_clause(s, pos) {
        Ok((lc, n)) => {
            return Ok((Clause::Leaf(lc), n));
        },
        Err(f) => f,
    };
    match p_expression_tree_clause(s, pos) {
        Ok((tc, n)) => Ok((Clause::ExpressionTree(tc), n)),
        Err(f2) => Err(f1.or(f2)),
    }
}

/// A non-empty, comma-separated list of clauses, in source order.
#[verifier::rlimit(60)]
fn p_clause_list(s: &str, pos: usize) -> (r: Result<(Vec<Clause>, usize), Fail>)
    requires
        pos <= s@.len(),
    ensures
        match r {
            Ok((cs, n)) => {
                &&& grammar::clause_list(s@, pos as int) == Some(
                    (view_clause_seq(cs@), n as nat),
                )
                &&& 1 <= n
                &&& pos + n <= s@.len()
            },
            Err(f) => {
                &&& grammar::clause_list(s@, pos as int) is None
                &&& f.pos <= s@.len()
            },
        },
    decreases s@.len() - pos, 26int,
{
    let len = s.unicode_len();
    let mut acc: Vec<Clause> = Vec::new();
    let (c0, n0) = match p_clause(s, pos) {
        Ok(v) => v,
        Err(f) => {
            return Err(f);
        },
    };
    let ghost vc0 = view_clause(c0);
    acc.push(c0);
    proof {
        assert(view_clause_seq(acc@) =~= seq![vc0]);
    }
    let mut end = pos + n0;
    loop
        invariant
            pos < end <= s@.len(),
            len == s@.len(),
            match grammar::clause_list_tail(s@, end as int) {
                Some((cs, k)) => grammar::clause_list(s@, pos as int) == Some(
                    (view_clause_seq(acc@) + cs, ((end - pos) + k) as nat),
                ),
                None => grammar::clause_list(s@, pos as int) is None,
            },
        decreases len - end,
    {
        let w = skip_ws(s, end);
        if !(w < len && s.get_char(w) == ',') {
            proof {
                assert(view_clause_seq(acc@) + Seq::<crate::ast::ClauseModel>::empty()
                    =~= view_clause_seq(acc@));
            }
            return Ok((acc, end - pos));
        }
        let q = skip_ws(s, w + 1);
        match p_clause(s, q) {
            Err(f) => {
                return Err(f);
            },
            Ok((c, nc)) => {
                let ghost prev = acc@;
                let ghost vc = view_clause(c);
                acc.push(c);
                proof {
                    broadcast use lemma_view_push_clause;
                    if grammar::clause_list_tail(s@, q + nc) is Some {
                        let (cs2, k2) = grammar::clause_list_tail(s@, q + nc)->Some_0;
                        assert(view_clause_seq(prev) + (seq![vc] + cs2) =~= view_clause_seq(acc@)
                            + cs2);
                    }
                }
                end = q + nc;
            },
        }
    }
}

/// `{ clauses }` — an expression; the clause list may be empty.
pub(crate) fn p_expression(s: &str, pos: usize) -> (r: Result<(Expression, usize), Fail>)
    requires
        pos <= s@.len(),
    ensures
        match r {
            Ok((e, n)) => {
                &&& grammar::expression(s@, pos as int) == Some((view_expression(e), n as nat))
                &&& 1 <= n
                &&& pos + n <= s@.len()
            },
            Err(f) => {
                &&& grammar::expression(s@, pos as int) is None
                &&& f.pos <= s@.len()
            },
        },
    decreases s@.len() - pos, 30int,
{
    let len = s.unicode_len();
    if !(pos < len && s.get_char(pos) == '{') {
        return Err(Fail::at(pos, Rule::Expression));
    }
    let p1 = skip_ws(s, pos + 1);
    if p1 < len && s.get_char(p1) == '}' {
        let cs: Vec<Clause> = Vec::new();
        proof {
            assert(view_clause_seq(cs@) =~= Seq::<crate::ast::ClauseModel>::empty());
        }
        return Ok((Expression { clauses: cs }, p1 + 1 - pos));
    }
    match p_clause_list(s, p1) {
        Err(f) => Err(f),
        Ok((cs, n)) => {
            let p2 = skip_ws(s, p1 + n);
            if p2 < len && s.get_char(p2) == '}' {
                Ok((Expression { clauses: cs }, p2 + 1 - pos))
            } else {
                Err(Fail::at(p2, Rule::Expression))
            }
        },
    }
}

/// A non-empty, comma-separated list of expressions.
#[verifier::rlimit(60)]
fn p_expression_list(s: &str, pos: usize) -> (r: Result<(Vec<Expression>, usize), Fail>)
    requires
        pos <= s@.len(),
    ensures
        match r {
            Ok((es, n)) => {
                &&& grammar::expression_list(s@, pos as int) == Some(
                    (view_expression_seq(es@), n as nat),
                )
                &&& 1 <= n
                &&& pos + n <= s@.len()
            },
            Err(f) => {
                &&& grammar::expression_list(s@, pos as int) is None
                &&& f.pos <= s@.len()
            },
        },
    decreases s@.len() - pos, 31int,
{
    let len = s.unicode_len();
    let mut acc: Vec<Expression> = Vec::new();
    let (e0, n0) = match p_expression(s, pos) {
        Ok(v) => v,
        Err(f) => {
            return Err(f);
        },
    };
    let ghost ve0 = view_expression(e0);
    acc.push(e0);
    proof {
        assert(view_expression_seq(acc@) =~= seq![ve0]);
    }
    let mut end = pos + n0;
    loop
        invariant
            pos < end <= s@.len(),
            len == s@.len(),
            match grammar::expression_list_tail(s@, end as int) {
                Some((es, k)) => grammar::expression_list(s@, pos as int) == Some(
                    (view_expression_seq(acc@) + es, ((end - pos) + k) as nat),
                ),
                None => grammar::expression_list(s@, pos as int) is None,
            },
        decreases len - end,
    {
        let w = skip_ws(s, end);
        if !(w < len && s.get_char(w) == ',') {
            proof {
                assert(view_expression_seq(acc@) + Seq::<crate::ast::ExpressionModel>::empty()
                    =~= view_expression_seq(acc@));
            }
            return Ok((acc, end - pos));
        }
        let q = skip_ws(s, w + 1);
        match p_expression(s, q) {
            Err(f) => {
                return Err(f);
            },
            Ok((e, ne)) => {
                let ghost prev = acc@;
                let ghost ve = view_expression(e);
                acc.push(e);
                proof {
                    broadcast use lemma_view_push_expression;
                    if grammar::expression_list_tail(s@, q + ne) is Some {
                        let (es2, k2) = grammar::expression_list_tail(s@, q + ne)->Some_0;
                        assert(view_expression_seq(prev) + (seq![ve] + es2)
                            =~= view_expression_seq(acc@) + es2);
                    }
                }
                end = q + ne;
            },
        }
    }
}

/// Whether a prefix of `s` matches the production `rule` (for [`Rule::Query`]
/// and [`Rule::Json`], whether all of `s` is one document).
pub open spec fn rule_matches(rule: Rule, s: Seq<char>) -> bool {
    match rule {
        Rule::Query => grammar::query(s) is Some,
        Rule::Expression => grammar::expression(s, 0) is Some,
        Rule::Clause => grammar::clause(s, 0) is Some,
        Rule::LeafClause => grammar::leaf_clause(s, 0) is Some,
        Rule::ExpressionTreeClause => grammar::expression_tree_clause(s, 0) is Some,
        Rule::ExpressionList => grammar::expression_list(s, 0) is Some,
        Rule::Value => grammar::value(s, 0) is Some,
        Rule::LeafValue => grammar::leaf_value(s, 0) is Some,
        Rule::LeafValueList => grammar::leaf_value_list(s, 0) is Some,
        Rule::OperatorExpression => grammar::operator_expression(s, 0) is Some,
        Rule::OperatorList => grammar::operator_list(s, 0) is Some,
        Rule::Operator => grammar::operator(s, 0) is Some,
        Rule::ListOperatorType => grammar::list_operator_type(s, 0) is Some,
        Rule::ValueOperatorType => grammar::value_operator_type(s, 0) is Some,
        Rule::OperatorExpressionOperatorType => grammar::operator_expression_operator_type(
            s,
            0,
        ) is Some,
        Rule::Json => grammar::json_doc(s),
        Rule::Object => grammar::json_object(s, 0) is Some,
        Rule::Array => grammar::json_array(s, 0) is Some,
        Rule::Member => grammar::json_member(s, 0) is Some,
        Rule::StringLiteral => grammar::string_lit(s, 0) is Some,
        Rule::NumberLiteral => grammar::number_lit(s, 0) is Some,
        Rule::BooleanLiteral => grammar::lit_true(s, 0) || grammar::lit_false(s, 0),
        Rule::NullLiteral => grammar::lit_null(s, 0),
    }
}

/// A whole document holding one generic JSON value, or only whitespace.
fn p_json_doc(s: &str) -> (r: Result<(), Fail>)
    ensures
        r is Ok <==> grammar::json_doc(s@),
        r is Err ==> r->Err_0.pos <= s@.len(),
{
    let len = s.unicode_len();
    let w = skip_ws(s, 0);
    if w == len {
        return Ok(());
    }
    match p_json_value(s, w) {
        Err(f) => Err(f),
        Ok((_, n)) => {
            let p2 = skip_ws(s, w + n);
            if p2 == len {
                Ok(())
            } else {
                Err(Fail::at(p2, Rule::Json))
            }
        },
    }
}

/// Parses one filter document into its typed tree.
///
/// Exactly the inputs accepted by the grammar's `query` production parse; for
/// them the returned tree is the one the grammar denotes. Every other input
/// is answered with a [`ParseError`] locating the failure; no partial tree is
/// ever returned. The length bound is a machine limit.
pub fn parse(query: &str) -> (r: Result<Expression, ParseError>)
    requires
        query@.len() < usize::MAX,
    ensures
        r is Ok <==> grammar::query(query@) is Some,
        match r {
            Ok(e) => grammar::query(query@) == Some(view_expression(e)),
            Err(pe) => {
                &&& grammar::query(query@) is None
                &&& pe.offset <= query@.len()
                &&& pe.line == line_of(query@, pe.offset as int)
                &&& pe.column == column_of(query@, pe.offset as int)
            },
        },
        r is Ok ==> crate::ast::wf_expression(view_expression(r->Ok_0)),
{
    proof {
        crate::laws::lemma_query_wf(query@);
    }
    let len = query.unicode_len();
    let w = skip_ws(query, 0);
    match p_expression(query, w) {
        Err(f) => Err(ParseError::from_fail(query, f)),
        Ok((e, n)) => {
            let p2 = skip_ws(query, w + n);
            if p2 == len {
                Ok(e)
            } else {
                Err(ParseError::from_fail(query, Fail::at(p2, Rule::Query)))
            }
        },
    }
}

/// The parser, exposed production by production: each grammar rule can be
/// matched against an input fragment on its own.
pub struct MongoDbParser;

impl MongoDbParser {
    /// Checks `input` against one production of the grammar: for
    /// [`Rule::Query`] and [`Rule::Json`] the whole input must be one
    /// document; any other rule matches a prefix of the input. The length
    /// bound is a machine limit.
    #[verifier::rlimit(60)]
    pub fn parse(rule: Rule, input: &str) -> (r: Result<(), ParseError>)
        requires
            input@.len() < usize::MAX,
        ensures
            r is Ok <==> rule_matches(rule, input@),
    {
        let res: Result<(), Fail> = match rule {
            Rule::Query => {
                let len = input.unicode_len();
                let w = skip_ws(input, 0);
                match p_expression(input, w) {
                    Err(f) => Err(f),
                    Ok((_, n)) => {
                        let p2 = skip_ws(input, w + n);
                        if p2 == len {
                            Ok(())
                        } else {
                            Err(Fail::at(p2, Rule::Query))
                        }
                    },
                }
            },
            Rule::Expression => p_expression(input, 0).map(|v| ()),
            Rule::Clause => p_clause(input, 0).map(|v| ()),
            Rule::LeafClause => p_leaf_clause(input, 0).map(|v| ()),
            Rule::ExpressionTreeClause => p_expression_tree_clause(input, 0).map(|v| ()),
            Rule::ExpressionList => p_expression_list(input, 0).map(|v| ()),
            Rule::Value => p_value(input, 0).map(|v| ()),
            Rule::LeafValue => p_leaf_value(input, 0).map(|v| ()),
            Rule::LeafValueList => p_leaf_value_list(input, 0).map(|v| ()),
            Rule::OperatorExpression => p_operator_expression(input, 0).map(|v| ()),
            Rule::OperatorList => p_operator_list(input, 0).map(|v| ()),
            Rule::Operator => p_operator(input, 0).map(|v| ()),
            Rule::ListOperatorType => p_list_operator_type(input, 0).map(|v| ()),
            Rule::ValueOperatorType => p_value_operator_type(input, 0).map(|v| ()),
            Rule::OperatorExpressionOperatorType => p_operator_expression_operator_type(
                input,
                0,
            ).map(|v| ()),
            Rule::Json => p_json_doc(input),
            Rule::Object => p_json_object(input, 0).map(|v| ()),
            Rule::Array => p_json_array(input, 0).map(|v| ()),
            Rule::Member => p_json_member(input, 0).map(|v| ()),
            Rule::StringLiteral => p_string(input, 0).map(|v| ()),
            Rule::NumberLiteral => p_number(input, 0).map(|v| ()),
            Rule::BooleanLiteral => {
                if p_true(input, 0) || p_false(input, 0) {
                    Ok(())
                } else {
                    Err(Fail::at(0, Rule::BooleanLiteral))
                }
            },
            Rule::NullLiteral => {
                if p_null(input, 0) {
                    Ok(())
                } else {
                    Err(Fail::at(0, Rule::NullLiteral))
                }
            },
        };
        match res {
            Ok(()) => Ok(()),
            Err(f) => Err(ParseError::from_fail(input, f)),
        }
    }
}

} // verus!
