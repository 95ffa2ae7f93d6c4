//! The error surface: a syntax error with the position of the failure, the
//! productions that were expected there, and a renderable message.
use vstd::prelude::*;
use vstd::string::StringExecFns;

verus! {

/// The productions of the grammar, named in diagnostics and usable as entry
/// points for matching a fragment against one production.
#[derive(Debug, Clone, Copy, PartialEq, Eq, Structural)]
pub enum Rule {
    Query,
    Expression,
    Clause,
    LeafClause,
    ExpressionTreeClause,
    ExpressionList,
    Value,
    LeafValue,
    LeafValueList,
    OperatorExpression,
    OperatorList,
    Operator,
    ListOperatorType,
    ValueOperatorType,
    OperatorExpressionOperatorType,
    Json,
    Object,
    Array,
    Member,
    StringLiteral,
    NumberLiteral,
    BooleanLiteral,
    NullLiteral,
}

/// A failed match inside the parser: the farthest position reached and the
/// productions that were expected there. Diagnostic only; which inputs fail
/// is fixed by the grammar, not by this record.
pub(crate) struct Fail {
    pub pos: usize,
    pub expected: Vec<Rule>,
}

impl Fail {
    /// A failure expecting one production at one position.
    pub(crate) fn at(pos: usize, rule: Rule) -> (f: Fail)
        ensures
            f.pos == pos,
            f.expected@ == seq![rule],
    {
        let mut expected: Vec<Rule> = Vec::new();
        expected.push(rule);
        proof {
            assert(expected@ =~= seq![rule]);
        }
        Fail { pos, expected }
    }

    /// Combines the failures of two ordered alternatives: the one that got
    /// farther wins; at a tie the expectations accumulate.
    pub(crate) fn or(self, other: Fail) -> (f: Fail)
        ensures
            f.pos == if other.pos > self.pos {
                other.pos
            } else {
                self.pos
            },
    {
        if other.pos > self.pos {
            other
        } else if self.pos > other.pos {
            self
        } else {
            let Fail { pos, mut expected } = self;
            let mut more = other.expected;
            expected.append(&mut more);
            Fail { pos, expected }
        }
    }
}

/// The line of the character at offset `off`, counting from 1.
pub open spec fn line_of(s: Seq<char>, off: int) -> int {
    1 + newline_count(s, off)
}

/// How many line breaks lie before offset `off`.
pub open spec fn newline_count(s: Seq<char>, off: int) -> int
    decreases off,
{
    if off <= 0 {
        0
    } else {
        newline_count(s, off - 1) + if 0 <= off - 1 < s.len() && s[off - 1] == '\n' {
            1int
        } else {
            0int
        }
    }
}

/// The offset at which the line holding offset `off` begins.
pub open spec fn line_start(s: Seq<char>, off: int) -> int
    decreases off,
{
    if off <= 0 {
        0
    } else if 0 <= off - 1 < s.len() && s[off - 1] == '\n' {
        off
    } else {
        line_start(s, off - 1)
    }
}

/// The column of the character at offset `off`, counting from 1.
pub open spec fn column_of(s: Seq<char>, off: int) -> int {
    off - line_start(s, off) + 1
}

/// A syntax error: the input does not match the grammar at `offset`
/// (a character offset into the input). `line` and `column` locate the same
/// place for human readers, both counting from 1; `expected` names the
/// productions that would have allowed the parse to continue there.
#[derive(Debug)]
pub struct ParseError {
    pub offset: usize,
    pub line: usize,
    pub column: usize,
    pub expected: Vec<Rule>,
}

impl ParseError {
    /// Locates a parser failure inside its input.
    pub(crate) fn from_fail(s: &str, f: Fail) -> (e: ParseError)
        requires
            f.pos <= s@.len(),
            f.pos < usize::MAX,  // machine limit: room for 1-based columns
        ensures
            e.offset == f.pos,
            e.line == line_of(s@, f.pos as int),
            e.column == column_of(s@, f.pos as int),
            e.expected == f.expected,
    {
        let mut i: usize = 0;
        let mut line: usize = 1;
        let mut start: usize = 0;
        while i < f.pos
            invariant
                0 <= i <= f.pos <= s@.len(),
                f.pos < usize::MAX,
                line == line_of(s@, i as int),
                start == line_start(s@, i as int),
                line <= i + 1,
                start <= i,
            decreases f.pos - i,
        {
            let c = s.get_char(i);
            if c == '\n' {
                line = line + 1;
                start = i + 1;
            }
            i = i + 1;
        }
        ParseError { offset: f.pos, line, column: f.pos - start + 1, expected: f.expected }
    }
}

/// Relies on `String::push`: appends one character at the end of the string.
#[verifier::external_body]
pub(crate) fn push_char(out: &mut String, c: char)
    ensures
        final(out)@ == old(out)@.push(c),
{
    out.push(c);
}

pub open spec fn digit_char(d: int) -> char {
    if d == 0 {
        '0'
    } else if d == 1 {
        '1'
    } else if d == 2 {
        '2'
    } else if d == 3 {
        '3'
    } else if d == 4 {
        '4'
    } else if d == 5 {
        '5'
    } else if d == 6 {
        '6'
    } else if d == 7 {
        '7'
    } else if d == 8 {
        '8'
    } else {
        '9'
    }
}

/// The decimal rendering of a non-negative number.
pub open spec fn spec_digits(n: int) -> Seq<char>
    decreases n,
{
    if n < 10 {
        seq![digit_char(n)]
    } else {
        spec_digits(n / 10).push(digit_char(n % 10))
    }
}

fn digit_of(d: usize) -> (c: char)
    requires
        d < 10,
    ensures
        c == digit_char(d as int),
{
    match d {
        0 => '0',
        1 => '1',
        2 => '2',
        3 => '3',
        4 => '4',
        5 => '5',
        6 => '6',
        7 => '7',
        8 => '8',
        _ => '9',
    }
}

/// Renders a number in decimal.
fn digits(n: usize) -> (s: String)
    ensures
        s@ == spec_digits(n as int),
    decreases n,
{
    if n < 10 {
        let mut s = String::new();
        push_char(&mut s, digit_of(n));
        proof {
            assert(s@ =~= seq![digit_char(n as int)]);
        }
        s
    } else {
        let mut s = digits(n / 10);
        push_char(&mut s, digit_of(n % 10));
        s
    }
}

/// The name of a production, as it reads in a message.
pub open spec fn rule_name(r: Rule) -> Seq<char> {
    match r {
        Rule::Query => "query"@,
        Rule::Expression => "expression"@,
        Rule::Clause => "clause"@,
        Rule::LeafClause => "leaf_clause"@,
        Rule::ExpressionTreeClause => "expression_tree_clause"@,
        Rule::ExpressionList => "expression_list"@,
        Rule::Value => "value"@,
        Rule::LeafValue => "leaf_value"@,
        Rule::LeafValueList => "leaf_value_list"@,
        Rule::OperatorExpression => "operator_expression"@,
        Rule::OperatorList => "operator_list"@,
        Rule::Operator => "operator"@,
        Rule::ListOperatorType => "list_operator_type"@,
        Rule::ValueOperatorType => "value_operator_type"@,
        Rule::OperatorExpressionOperatorType => "operator_expression_operator_type"@,
        Rule::Json => "json"@,
        Rule::Object => "object"@,
        Rule::Array => "array"@,
        Rule::Member => "member"@,
        Rule::StringLiteral => "string"@,
        Rule::NumberLiteral => "number"@,
        Rule::BooleanLiteral => "boolean"@,
        Rule::NullLiteral => "null"@,
    }
}

impl Rule {
    /// The production's name.
    pub fn name(self) -> (r: &'static str)
        ensures
            r@ == rule_name(self),
    {
        match self {
            Rule::Query => "query",
            Rule::Expression => "expression",
            Rule::Clause => "clause",
            Rule::LeafClause => "leaf_clause",
            Rule::ExpressionTreeClause => "expression_tree_clause",
            Rule::ExpressionList => "expression_list",
            Rule::Value => "value",
            Rule::LeafValue => "leaf_value",
            Rule::LeafValueList => "leaf_value_list",
            Rule::OperatorExpression => "operator_expression",
            Rule::OperatorList => "operator_list",
            Rule::Operator => "operator",
            Rule::ListOperatorType => "list_operator_type",
            Rule::ValueOperatorType => "value_operator_type",
            Rule::OperatorExpressionOperatorType => "operator_expression_operator_type",
            Rule::Json => "json",
            Rule::Object => "object",
            Rule::Array => "array",
            Rule::Member => "member",
            Rule::StringLiteral => "string",
            Rule::NumberLiteral => "number",
            Rule::BooleanLiteral => "boolean",
            Rule::NullLiteral => "null",
        }
    }
}

/// The first `i` expected-production names, comma-separated.
pub open spec fn expected_upto(rs: Seq<Rule>, i: int) -> Seq<char>
    decreases i,
{
    if i <= 0 {
        Seq::empty()
    } else if i == 1 {
        rule_name(rs[0])
    } else {
        expected_upto(rs, i - 1) + ", "@ + rule_name(rs[i - 1])
    }
}

/// What `message` returns.
pub open spec fn spec_message(e: ParseError) -> Seq<char> {
    "syntax error at line "@ + spec_digits(e.line as int) + ", column "@ + spec_digits(
        e.column as int,
    ) + if e.expected@.len() == 0 {
        Seq::<char>::empty()
    } else {
        ": expected "@ + expected_upto(e.expected@, e.expected@.len() as int)
    }
}

impl ParseError {
    /// Renders the error as one line of text.
    #[verifier::rlimit(60)]
    pub fn message(&self) -> (m: String)
        ensures
            m@ == spec_message(*self),
    {
        let mut m = String::from_str("syntax error at line ");
        let d1 = digits(self.line);
        m.append(d1.as_str());
        m.append(", column ");
        let d2 = digits(self.column);
        m.append(d2.as_str());
        let ghost head = "syntax error at line "@ + spec_digits(self.line as int) + ", column "@
            + spec_digits(self.column as int);
        proof {
            assert(m@ =~= head);
        }
        if self.expected.len() == 0 {
            proof {
                assert(head + Seq::<char>::empty() =~= head);
            }
            return m;
        }
        m.append(": expected ");
        let ghost base = m@;
        let mut i: usize = 0;
        while i < self.expected.len()
            invariant
                0 <= i <= self.expected@.len(),
                base == head + ": expected "@,
                m@ == base + expected_upto(self.expected@, i as int),
                i == 0 ==> m@ == base,
            decreases self.expected@.len() - i,
        {
            let ghost before = m@;
            if i > 0 {
                m.append(", ");
            }
            m.append(self.expected[i].name());
            proof {
                if i == 0 {
                    assert(m@ =~= base + expected_upto(self.expected@, 1));
                } else {
                    assert(before + ", "@ + rule_name(self.expected@[i as int]) =~= base
                        + expected_upto(self.expected@, i + 1));
                }
            }
            i = i + 1;
        }
        proof {
            assert(m@ =~= spec_message(*self));
        }
        m
    }
}

} // verus!
