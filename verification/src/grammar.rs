//! The grammar, stated as specification functions.
//!
//! Every rule is a total function from the input and a position to either
//! a parsed node together with the position of the first unconsumed
//! character, or a structured failure.  Rules that recurse carry an
//! explicit `depth` allowance; when it runs out the rule fails with
//! `ErrorKind::NestingTooDeep` instead of recursing further.  Every
//! call from one rule into another passes `depth - 1`, which also makes
//! every recursion terminate.  A rule that attaches a context label is
//! split into a wrapper and a core at the same `depth`; the second
//! component of their `decreases` clauses orders the wrapper before the
//! core.  The executable parser is proved to return exactly what these
//! functions describe.

use vstd::prelude::*;

use crate::ast::BinaryOperator;
use crate::ast::SpecCompoundStatement;
use crate::ast::SpecExpression;
use crate::ast::SpecExternalDeclaration;
use crate::ast::SpecFunctionDefinition;
use crate::ast::SpecFunctionParameter;
use crate::ast::SpecInitDeclarator;
use crate::ast::SpecProgram;
use crate::ast::SpecStatement;
use crate::ast::SpecVariableDeclaration;
use crate::ast::TypeSpecifier;
use crate::ast::UnaryOperator;
use crate::error::ErrorKind;
use crate::error::Expected;
use crate::error::ParseContext;
use crate::error::SpecParseError;
use crate::error::spec_error;
use crate::error::spec_fail;
use crate::error::spec_with_context;

verus! {

/// How many nested rule activations the parser allows before it fails
/// with `ErrorKind::NestingTooDeep`.
pub const RECURSION_LIMIT: usize = 2048;

/// The outcome of a grammar rule: a node and the position after it, or a
/// failure.
pub type SpecParsed<T> = Result<(T, int), SpecParseError>;

// ---------------------------------------------------------------------
// Character classes.
// ---------------------------------------------------------------------

/// An ASCII letter.  Identifiers consist of these characters only.
pub open spec fn is_letter(c: char) -> bool {
    ('a' as u32 <= c as u32 && c as u32 <= 'z' as u32) || ('A' as u32 <= c as u32 && c as u32
        <= 'Z' as u32)
}

/// A decimal digit.
pub open spec fn is_digit(c: char) -> bool {
    '0' as u32 <= c as u32 && c as u32 <= '9' as u32
}

/// Insignificant whitespace.
pub open spec fn is_space(c: char) -> bool {
    c == ' ' || c == '\t' || c == '\n' || c == '\r'
}

/// The numeric value of a decimal digit.
pub open spec fn digit_value(c: char) -> int {
    c as u32 - '0' as u32
}

// ---------------------------------------------------------------------
// Scanners over character runs.
// ---------------------------------------------------------------------

/// The end of the run of letters starting at `pos`.
pub open spec fn scan_letters(s: Seq<char>, pos: int) -> int
    decreases s.len() - pos,
{
    if 0 <= pos < s.len() && is_letter(s[pos]) {
        scan_letters(s, pos + 1)
    } else {
        pos
    }
}

/// The end of the run of digits starting at `pos`.
pub open spec fn scan_digits(s: Seq<char>, pos: int) -> int
    decreases s.len() - pos,
{
    if 0 <= pos < s.len() && is_digit(s[pos]) {
        scan_digits(s, pos + 1)
    } else {
        pos
    }
}

/// The first position at or after `pos` that does not hold whitespace.
pub open spec fn spec_skip_ws(s: Seq<char>, pos: int) -> int
    decreases s.len() - pos,
{
    if 0 <= pos < s.len() && is_space(s[pos]) {
        spec_skip_ws(s, pos + 1)
    } else {
        pos
    }
}

// ---------------------------------------------------------------------
// Keywords.
// ---------------------------------------------------------------------

pub open spec fn kw_void() -> Seq<char> {
    seq!['v', 'o', 'i', 'd']
}

pub open spec fn kw_char() -> Seq<char> {
    seq!['c', 'h', 'a', 'r']
}

pub open spec fn kw_int() -> Seq<char> {
    seq!['i', 'n', 't']
}

pub open spec fn kw_float() -> Seq<char> {
    seq!['f', 'l', 'o', 'a', 't']
}

pub open spec fn kw_return() -> Seq<char> {
    seq!['r', 'e', 't', 'u', 'r', 'n']
}

pub open spec fn kw_if() -> Seq<char> {
    seq!['i', 'f']
}

pub open spec fn kw_else() -> Seq<char> {
    seq!['e', 'l', 's', 'e']
}

pub open spec fn kw_while() -> Seq<char> {
    seq!['w', 'h', 'i', 'l', 'e']
}

pub open spec fn kw_for() -> Seq<char> {
    seq!['f', 'o', 'r']
}

pub open spec fn kw_struct() -> Seq<char> {
    seq!['s', 't', 'r', 'u', 'c', 't']
}

pub open spec fn kw_typedef() -> Seq<char> {
    seq!['t', 'y', 'p', 'e', 'd', 'e', 'f']
}

/// The keyword `kw` stands at `pos` in `s` and ends at a word boundary:
/// the following character, if any, is not a letter.  Without the
/// boundary check, `"integer"` would wrongly match the keyword `int`.
pub open spec fn kw_at(s: Seq<char>, pos: int, kw: Seq<char>) -> bool {
    &&& 0 <= pos
    &&& pos + kw.len() <= s.len()
    &&& s.subrange(pos, pos + kw.len()) == kw
    &&& (pos + kw.len() == s.len() || !is_letter(s[pos + kw.len()]))
}

/// Bounds for `scan_digits`: it stays inside the input, every character
/// it passes over is a digit, and it stops only at a non-digit or the
/// end of the input.
pub proof fn lemma_scan_digits(s: Seq<char>, pos: int)
    requires
        0 <= pos <= s.len(),
    ensures
        pos <= scan_digits(s, pos) <= s.len(),
        forall|j: int| pos <= j < scan_digits(s, pos) ==> is_digit(s[j]),
        scan_digits(s, pos) < s.len() ==> !is_digit(s[scan_digits(s, pos)]),
    decreases s.len() - pos,
{
    if pos < s.len() && is_digit(s[pos]) {
        lemma_scan_digits(s, pos + 1);
    }
}

/// `scan_letters` lands exactly on `end` when everything before `end` is
/// a letter and `end` is the end of the input or a non-letter.
pub proof fn lemma_scan_letters_stops(s: Seq<char>, pos: int, end: int)
    requires
        0 <= pos <= end <= s.len(),
        forall|j: int| pos <= j < end ==> is_letter(s[j]),
        end == s.len() || !is_letter(s[end]),
    ensures
        scan_letters(s, pos) == end,
    decreases end - pos,
{
    if pos < end {
        lemma_scan_letters_stops(s, pos + 1, end);
    }
}

/// `spec_skip_ws` lands exactly on `end` when everything before `end` is
/// whitespace and `end` is the end of the input or not whitespace.
pub proof fn lemma_skip_ws_stops(s: Seq<char>, pos: int, end: int)
    requires
        0 <= pos <= end <= s.len(),
        forall|j: int| pos <= j < end ==> is_space(s[j]),
        end == s.len() || !is_space(s[end]),
    ensures
        spec_skip_ws(s, pos) == end,
    decreases end - pos,
{
    if pos < end {
        lemma_skip_ws_stops(s, pos + 1, end);
    }
}

/// `spec_skip_ws` stays inside the input.
pub proof fn lemma_skip_ws_bounds(s: Seq<char>, pos: int)
    requires
        0 <= pos <= s.len(),
    ensures
        pos <= spec_skip_ws(s, pos) <= s.len(),
    decreases s.len() - pos,
{
    if pos < s.len() && is_space(s[pos]) {
        lemma_skip_ws_bounds(s, pos + 1);
    }
}

/// A sequence of digits has a non-negative value.
pub proof fn lemma_digits_value_nonneg(ds: Seq<char>)
    requires
        forall|j: int| 0 <= j < ds.len() ==> is_digit(ds[j]),
    ensures
        digits_value(ds) >= 0,
    decreases ds.len(),
{
    if ds.len() > 0 {
        lemma_digits_value_nonneg(ds.subrange(0, ds.len() - 1));
    }
}

/// Reading one more digit multiplies the value so far by ten and adds
/// the digit.
pub proof fn lemma_digits_value_step(s: Seq<char>, pos: int, i: int)
    requires
        0 <= pos <= i < s.len(),
    ensures
        digits_value(s.subrange(pos, i + 1)) == digits_value(s.subrange(pos, i)) * 10
            + digit_value(s[i]),
{
    assert(s.subrange(pos, i + 1).subrange(0, i - pos) =~= s.subrange(pos, i));
    assert(s.subrange(pos, i + 1)[i - pos] == s[i]);
}

/// The value of a digit run only grows as the run extends.
pub proof fn lemma_digits_value_mono(s: Seq<char>, pos: int, i: int, end: int)
    requires
        0 <= pos <= i <= end <= s.len(),
        forall|j: int| pos <= j < end ==> is_digit(s[j]),
    ensures
        digits_value(s.subrange(pos, i)) <= digits_value(s.subrange(pos, end)),
    decreases end - i,
{
    if i < end {
        lemma_digits_value_step(s, pos, i);
        assert(forall|j: int| 0 <= j < i - pos ==> is_digit(s.subrange(pos, i)[j]));
        lemma_digits_value_nonneg(s.subrange(pos, i));
        lemma_digits_value_mono(s, pos, i + 1, end);
    }
}

// ---------------------------------------------------------------------
// Lexical atoms.
// ---------------------------------------------------------------------

/// Identifier: one or more ASCII letters, consumed greedily.
pub open spec fn spec_parse_identifier(s: Seq<char>, pos: int) -> SpecParsed<Seq<char>> {
    if 0 <= pos < s.len() && is_letter(s[pos]) {
        let end = scan_letters(s, pos);
        Ok((s.subrange(pos, end), end))
    } else {
        Err(spec_fail(s, pos, Expected::Letter))
    }
}

/// Type specifier: one of the keywords `void`, `char`, `int`, `float`,
/// each required to end at a word boundary.
pub open spec fn spec_parse_type_specifier(s: Seq<char>, pos: int) -> SpecParsed<TypeSpecifier> {
    if kw_at(s, pos, kw_void()) {
        Ok((TypeSpecifier::Void, pos + 4))
    } else if kw_at(s, pos, kw_char()) {
        Ok((TypeSpecifier::Char, pos + 4))
    } else if kw_at(s, pos, kw_int()) {
        Ok((TypeSpecifier::Int, pos + 3))
    } else if kw_at(s, pos, kw_float()) {
        Ok((TypeSpecifier::Float, pos + 5))
    } else {
        Err(spec_fail(s, pos, Expected::TypeKeyword))
    }
}

/// The value of a sequence of decimal digits, most significant first.
pub open spec fn digits_value(ds: Seq<char>) -> int
    decreases ds.len(),
{
    if ds.len() == 0 {
        0
    } else {
        digits_value(ds.subrange(0, ds.len() - 1)) * 10 + digit_value(ds[ds.len() - 1])
    }
}

/// Integer constant: one or more decimal digits.  A literal beyond the
/// 32-bit signed range is an explicit overflow failure, never silent
/// wraparound.
pub open spec fn spec_parse_constant(s: Seq<char>, pos: int) -> SpecParsed<SpecExpression> {
    if 0 <= pos < s.len() && is_digit(s[pos]) {
        let end = scan_digits(s, pos);
        let v = digits_value(s.subrange(pos, end));
        if v <= 0x7fff_ffff {
            Ok((SpecExpression::Constant(v as i32), end))
        } else {
            Err(spec_error(ErrorKind::NumericOverflow, pos))
        }
    } else {
        Err(spec_fail(s, pos, Expected::Digit))
    }
}

/// The position of the first double quote at or after `pos`, or the end
/// of the input if there is none.
pub open spec fn scan_to_quote(s: Seq<char>, pos: int) -> int
    decreases s.len() - pos,
{
    if 0 <= pos < s.len() && s[pos] != '"' {
        scan_to_quote(s, pos + 1)
    } else {
        pos
    }
}

/// String literal: a double quote, any characters other than a double
/// quote, and a closing double quote.
pub open spec fn spec_parse_string_literal(s: Seq<char>, pos: int) -> SpecParsed<SpecExpression> {
    if 0 <= pos < s.len() && s[pos] == '"' {
        let end = scan_to_quote(s, pos + 1);
        if end < s.len() {
            Ok((SpecExpression::StringLiteral(s.subrange(pos + 1, end)), end + 1))
        } else {
            Err(spec_fail(s, end, Expected::Tok('"')))
        }
    } else {
        Err(spec_fail(s, pos, Expected::Tok('"')))
    }
}

// ---------------------------------------------------------------------
// Expression grammar.  Levels from lowest to highest precedence:
// logical-or, logical-and, equality, additive, multiplicative, unary,
// primary.  Each binary level parses a left operand one level up, then
// left-associates further operands of its own level.
// ---------------------------------------------------------------------

/// Expression entry point.  Failures inside an expression carry the
/// `Expression` context label.
pub open spec fn spec_parse_expression(s: Seq<char>, pos: int, depth: nat) -> SpecParsed<
    SpecExpression,
>
    decreases depth, 1int,
{
    match spec_parse_or(s, pos, depth) {
        Ok(r) => Ok(r),
        Err(e) => Err(spec_with_context(e, ParseContext::Expression)),
    }
}

/// Logical-or level.
pub open spec fn spec_parse_or(s: Seq<char>, pos: int, depth: nat) -> SpecParsed<SpecExpression>
    decreases depth, 0int,
{
    if depth == 0 {
        Err(spec_error(ErrorKind::NestingTooDeep, pos))
    } else {
        match spec_parse_and(s, pos, (depth - 1) as nat) {
            Ok((left, p)) => spec_parse_or_rest(s, p, (depth - 1) as nat, left),
            Err(e) => Err(e),
        }
    }
}

/// Further `||` operands after a parsed logical-or left operand.
pub open spec fn spec_parse_or_rest(s: Seq<char>, pos: int, depth: nat, left: SpecExpression)
    -> SpecParsed<SpecExpression>
    decreases depth, 0int,
{
    if depth == 0 {
        Err(spec_error(ErrorKind::NestingTooDeep, pos))
    } else {
        let p = spec_skip_ws(s, pos);
        if p + 2 <= s.len() && s[p] == '|' && s[p + 1] == '|' {
            let q = spec_skip_ws(s, p + 2);
            match spec_parse_and(s, q, (depth - 1) as nat) {
                Ok((right, p2)) => spec_parse_or_rest(
                    s,
                    p2,
                    (depth - 1) as nat,
                    SpecExpression::BinaryOp {
                        left: Box::new(left),
                        operator: BinaryOperator::LogicalOr,
                        right: Box::new(right),
                    },
                ),
                Err(e) => Err(e),
            }
        } else {
            Ok((left, pos))
        }
    }
}

/// Logical-and level.
pub open spec fn spec_parse_and(s: Seq<char>, pos: int, depth: nat) -> SpecParsed<SpecExpression>
    decreases depth, 0int,
{
    if depth == 0 {
        Err(spec_error(ErrorKind::NestingTooDeep, pos))
    } else {
        match spec_parse_equality(s, pos, (depth - 1) as nat) {
            Ok((left, p)) => spec_parse_and_rest(s, p, (depth - 1) as nat, left),
            Err(e) => Err(e),
        }
    }
}

/// Further `&&` operands after a parsed logical-and left operand.
pub open spec fn spec_parse_and_rest(s: Seq<char>, pos: int, depth: nat, left: SpecExpression)
    -> SpecParsed<SpecExpression>
    decreases depth, 0int,
{
    if depth == 0 {
        Err(spec_error(ErrorKind::NestingTooDeep, pos))
    } else {
        let p = spec_skip_ws(s, pos);
        if p + 2 <= s.len() && s[p] == '&' && s[p + 1] == '&' {
            let q = spec_skip_ws(s, p + 2);
            match spec_parse_equality(s, q, (depth - 1) as nat) {
                Ok((right, p2)) => spec_parse_and_rest(
                    s,
                    p2,
                    (depth - 1) as nat,
                    SpecExpression::BinaryOp {
                        left: Box::new(left),
                        operator: BinaryOperator::LogicalAnd,
                        right: Box::new(right),
                    },
                ),
                Err(e) => Err(e),
            }
        } else {
            Ok((left, pos))
        }
    }
}

/// Equality level.
pub open spec fn spec_parse_equality(s: Seq<char>, pos: int, depth: nat) -> SpecParsed<
    SpecExpression,
>
    decreases depth, 0int,
{
    if depth == 0 {
        Err(spec_error(ErrorKind::NestingTooDeep, pos))
    } else {
        match spec_parse_additive(s, pos, (depth - 1) as nat) {
            Ok((left, p)) => spec_parse_equality_rest(s, p, (depth - 1) as nat, left),
            Err(e) => Err(e),
        }
    }
}

/// Further `==` operands after a parsed equality left operand.
pub open spec fn spec_parse_equality_rest(s: Seq<char>, pos: int, depth: nat, left: SpecExpression)
    -> SpecParsed<SpecExpression>
    decreases depth, 0int,
{
    if depth == 0 {
        Err(spec_error(ErrorKind::NestingTooDeep, pos))
    } else {
        let p = spec_skip_ws(s, pos);
        if p + 2 <= s.len() && s[p] == '=' && s[p + 1] == '=' {
            let q = spec_skip_ws(s, p + 2);
            match spec_parse_additive(s, q, (depth - 1) as nat) {
                Ok((right, p2)) => spec_parse_equality_rest(
                    s,
                    p2,
                    (depth - 1) as nat,
                    SpecExpression::EqualityOp { left: Box::new(left), right: Box::new(right) },
                ),
                Err(e) => Err(e),
            }
        } else {
            Ok((left, pos))
        }
    }
}

/// Additive level: `+` and `-`.
pub open spec fn spec_parse_additive(s: Seq<char>, pos: int, depth: nat) -> SpecParsed<
    SpecExpression,
>
    decreases depth, 0int,
{
    if depth == 0 {
        Err(spec_error(ErrorKind::NestingTooDeep, pos))
    } else {
        match spec_parse_multiplicative(s, pos, (depth - 1) as nat) {
            Ok((left, p)) => spec_parse_additive_rest(s, p, (depth - 1) as nat, left),
            Err(e) => Err(e),
        }
    }
}

/// The additive operator at `pos`, if any.
pub open spec fn additive_op_at(s: Seq<char>, pos: int) -> Option<BinaryOperator> {
    if 0 <= pos < s.len() && s[pos] == '+' {
        Option::Some(BinaryOperator::Add)
    } else if 0 <= pos < s.len() && s[pos] == '-' {
        Option::Some(BinaryOperator::Subtract)
    } else {
        Option::None
    }
}

/// Further `+`/`-` operands after a parsed additive left operand.
pub open spec fn spec_parse_additive_rest(s: Seq<char>, pos: int, depth: nat, left: SpecExpression)
    -> SpecParsed<SpecExpression>
    decreases depth, 0int,
{
    if depth == 0 {
        Err(spec_error(ErrorKind::NestingTooDeep, pos))
    } else {
        let p = spec_skip_ws(s, pos);
        match additive_op_at(s, p) {
            Option::Some(op) => {
                let q = spec_skip_ws(s, p + 1);
                match spec_parse_multiplicative(s, q, (depth - 1) as nat) {
                    Ok((right, p2)) => spec_parse_additive_rest(
                        s,
                        p2,
                        (depth - 1) as nat,
                        SpecExpression::BinaryOp {
                            left: Box::new(left),
                            operator: op,
                            right: Box::new(right),
                        },
                    ),
                    Err(e) => Err(e),
                }
            },
            Option::None => Ok((left, pos)),
        }
    }
}

/// Multiplicative level: `*`, `/` and `%`.
pub open spec fn spec_parse_multiplicative(s: Seq<char>, pos: int, depth: nat) -> SpecParsed<
    SpecExpression,
>
    decreases depth, 0int,
{
    if depth == 0 {
        Err(spec_error(ErrorKind::NestingTooDeep, pos))
    } else {
        match spec_parse_unary(s, pos, (depth - 1) as nat) {
            Ok((left, p)) => spec_parse_multiplicative_rest(s, p, (depth - 1) as nat, left),
            Err(e) => Err(e),
        }
    }
}

/// The multiplicative operator at `pos`, if any.
pub open spec fn multiplicative_op_at(s: Seq<char>, pos: int) -> Option<BinaryOperator> {
    if 0 <= pos < s.len() && s[pos] == '*' {
        Option::Some(BinaryOperator::Multiply)
    } else if 0 <= pos < s.len() && s[pos] == '/' {
        Option::Some(BinaryOperator::Divide)
    } else if 0 <= pos < s.len() && s[pos] == '%' {
        Option::Some(BinaryOperator::Modulo)
    } else {
        Option::None
    }
}

/// Further `*`/`/`/`%` operands after a parsed multiplicative left
/// operand.
pub open spec fn spec_parse_multiplicative_rest(
    s: Seq<char>,
    pos: int,
    depth: nat,
    left: SpecExpression,
) -> SpecParsed<SpecExpression>
    decreases depth, 0int,
{
    if depth == 0 {
        Err(spec_error(ErrorKind::NestingTooDeep, pos))
    } else {
        let p = spec_skip_ws(s, pos);
        match multiplicative_op_at(s, p) {
            Option::Some(op) => {
                let q = spec_skip_ws(s, p + 1);
                match spec_parse_unary(s, q, (depth - 1) as nat) {
                    Ok((right, p2)) => spec_parse_multiplicative_rest(
                        s,
                        p2,
                        (depth - 1) as nat,
                        SpecExpression::BinaryOp {
                            left: Box::new(left),
                            operator: op,
                            right: Box::new(right),
                        },
                    ),
                    Err(e) => Err(e),
                }
            },
            Option::None => Ok((left, pos)),
        }
    }
}

/// Unary level: prefix `-` and `!`, then the primary level.
pub open spec fn spec_parse_unary(s: Seq<char>, pos: int, depth: nat) -> SpecParsed<SpecExpression>
    decreases depth, 0int,
{
    if depth == 0 {
        Err(spec_error(ErrorKind::NestingTooDeep, pos))
    } else if 0 <= pos < s.len() && s[pos] == '-' {
        let q = spec_skip_ws(s, pos + 1);
        match spec_parse_unary(s, q, (depth - 1) as nat) {
            Ok((operand, p)) => Ok(
                (
                    SpecExpression::UnaryOp {
                        operator: UnaryOperator::Negate,
                        operand: Box::new(operand),
                    },
                    p,
                ),
            ),
            Err(e) => Err(e),
        }
    } else if 0 <= pos < s.len() && s[pos] == '!' {
        let q = spec_skip_ws(s, pos + 1);
        match spec_parse_unary(s, q, (depth - 1) as nat) {
            Ok((operand, p)) => Ok(
                (
                    SpecExpression::UnaryOp {
                        operator: UnaryOperator::LogicalNot,
                        operand: Box::new(operand),
                    },
                    p,
                ),
            ),
            Err(e) => Err(e),
        }
    } else {
        spec_parse_primary(s, pos, (depth - 1) as nat)
    }
}

/// Primary level: constant, string literal, parenthesized expression,
/// function call, or identifier.  A call is an identifier immediately
/// followed by `(`.  If nothing matches, the rule fails with a named
/// expected-expression failure rather than producing a default node.
pub open spec fn spec_parse_primary(s: Seq<char>, pos: int, depth: nat) -> SpecParsed<
    SpecExpression,
>
    decreases depth, 0int,
{
    if depth == 0 {
        Err(spec_error(ErrorKind::NestingTooDeep, pos))
    } else if 0 <= pos < s.len() && is_digit(s[pos]) {
        spec_parse_constant(s, pos)
    } else if 0 <= pos < s.len() && s[pos] == '"' {
        spec_parse_string_literal(s, pos)
    } else if 0 <= pos < s.len() && s[pos] == '(' {
        let q = spec_skip_ws(s, pos + 1);
        match spec_parse_expression(s, q, (depth - 1) as nat) {
            Ok((e, p)) => {
                let r = spec_skip_ws(s, p);
                if r < s.len() && s[r] == ')' {
                    Ok((e, r + 1))
                } else {
                    Err(spec_fail(s, r, Expected::Tok(')')))
                }
            },
            Err(e) => Err(e),
        }
    } else if 0 <= pos < s.len() && is_letter(s[pos]) {
        let end = scan_letters(s, pos);
        if end < s.len() && s[end] == '(' {
            spec_parse_call_args(s, spec_skip_ws(s, end + 1), (depth - 1) as nat, s.subrange(pos, end))
        } else {
            Ok((SpecExpression::Identifier(s.subrange(pos, end)), end))
        }
    } else {
        Err(spec_fail(s, pos, Expected::Expression))
    }
}

/// The argument list of a call, after the opening parenthesis and any
/// whitespace: either a closing parenthesis at once, or one or more
/// comma-separated argument expressions.
pub open spec fn spec_parse_call_args(s: Seq<char>, pos: int, depth: nat, name: Seq<char>)
    -> SpecParsed<SpecExpression>
    decreases depth, 0int,
{
    if depth == 0 {
        Err(spec_error(ErrorKind::NestingTooDeep, pos))
    } else if 0 <= pos < s.len() && s[pos] == ')' {
        Ok((SpecExpression::FunctionCall { name, arguments: Seq::empty() }, pos + 1))
    } else {
        match spec_parse_expression(s, pos, (depth - 1) as nat) {
            Ok((e, p)) => spec_parse_call_args_rest(s, p, (depth - 1) as nat, name, seq![e]),
            Err(e) => Err(e),
        }
    }
}

// ---------------------------------------------------------------------
// Statement grammar.
// ---------------------------------------------------------------------

/// Statement entry point: return statement, conditional, compound
/// statement, or an expression followed by `;`.  The loop keywords
/// `while` and `for` are recognized and rejected as unsupported
/// constructs rather than misparsed.  Failures carry the `Statement`
/// context label.
pub open spec fn spec_parse_statement(s: Seq<char>, pos: int, depth: nat) -> SpecParsed<
    SpecStatement,
>
    decreases depth, 1int,
{
    match spec_parse_statement_core(s, pos, depth) {
        Ok(r) => Ok(r),
        Err(e) => Err(spec_with_context(e, ParseContext::Statement)),
    }
}

/// The body of `spec_parse_statement`, before the context label is
/// attached.
pub open spec fn spec_parse_statement_core(s: Seq<char>, pos: int, depth: nat) -> SpecParsed<
    SpecStatement,
>
    decreases depth, 0int,
{
    if depth == 0 {
        Err(spec_error(ErrorKind::NestingTooDeep, pos))
    } else if kw_at(s, pos, kw_return()) {
        spec_parse_return(s, pos, (depth - 1) as nat)
    } else if kw_at(s, pos, kw_if()) {
        spec_parse_if(s, pos, (depth - 1) as nat)
    } else if kw_at(s, pos, kw_while()) || kw_at(s, pos, kw_for()) {
        Err(spec_error(ErrorKind::UnsupportedConstruct, pos))
    } else if 0 <= pos < s.len() && s[pos] == '{' {
        match spec_parse_compound(s, pos, (depth - 1) as nat) {
            Ok((c, p)) => Ok((SpecStatement::CompoundStmt(c), p)),
            Err(e) => Err(e),
        }
    } else {
        match spec_parse_expression(s, pos, (depth - 1) as nat) {
            Ok((e, p)) => {
                let r = spec_skip_ws(s, p);
                if r < s.len() && s[r] == ';' {
                    Ok((SpecStatement::ExpressionStmt(e), r + 1))
                } else {
                    Err(spec_fail(s, r, Expected::Tok(';')))
                }
            },
            Err(e) => Err(e),
        }
    }
}

/// Return statement: the keyword `return`, optional whitespace, an
/// expression, optional whitespace, `;`.  Assumes the keyword stands at
/// `pos`.  Failures carry the `ReturnStatement` context label.
pub open spec fn spec_parse_return(s: Seq<char>, pos: int, depth: nat) -> SpecParsed<SpecStatement>
    decreases depth, 1int,
{
    match spec_parse_return_core(s, pos, depth) {
        Ok(r) => Ok(r),
        Err(e) => Err(spec_with_context(e, ParseContext::ReturnStatement)),
    }
}

/// The body of `spec_parse_return`, before the context label is
/// attached.
pub open spec fn spec_parse_return_core(s: Seq<char>, pos: int, depth: nat) -> SpecParsed<
    SpecStatement,
>
    decreases depth, 0int,
{
    if depth == 0 {
        Err(spec_error(ErrorKind::NestingTooDeep, pos))
    } else if !kw_at(s, pos, kw_return()) {
        Err(spec_fail(s, pos, Expected::KeywordReturn))
    } else {
        let q = spec_skip_ws(s, pos + 6);
        match spec_parse_expression(s, q, (depth - 1) as nat) {
            Ok((e, p)) => {
                let r = spec_skip_ws(s, p);
                if r < s.len() && s[r] == ';' {
                    Ok((SpecStatement::ReturnStmt(e), r + 1))
                } else {
                    Err(spec_fail(s, r, Expected::Tok(';')))
                }
            },
            Err(e) => Err(e),
        }
    }
}

/// Conditional statement: `if`, `(`, condition, `)`, a body statement,
/// and optionally `else` with another statement.  Assumes the keyword
/// stands at `pos`.  Failures carry the `IfStatement` context label.
pub open spec fn spec_parse_if(s: Seq<char>, pos: int, depth: nat) -> SpecParsed<SpecStatement>
    decreases depth, 1int,
{
    match spec_parse_if_core(s, pos, depth) {
        Ok(r) => Ok(r),
        Err(e) => Err(spec_with_context(e, ParseContext::IfStatement)),
    }
}

/// The body of `spec_parse_if`, before the context label is attached.
pub open spec fn spec_parse_if_core(s: Seq<char>, pos: int, depth: nat) -> SpecParsed<
    SpecStatement,
>
    decreases depth, 0int,
{
    if depth == 0 {
        Err(spec_error(ErrorKind::NestingTooDeep, pos))
    } else {
        let p1 = spec_skip_ws(s, pos + 2);
        if p1 < s.len() && s[p1] == '(' {
            let q = spec_skip_ws(s, p1 + 1);
            match spec_parse_expression(s, q, (depth - 1) as nat) {
                Ok((cond, p2)) => {
                    let r = spec_skip_ws(s, p2);
                    if r < s.len() && s[r] == ')' {
                        let b = spec_skip_ws(s, r + 1);
                        match spec_parse_statement(s, b, (depth - 1) as nat) {
                            Ok((body, p3)) => {
                                let e1 = spec_skip_ws(s, p3);
                                if kw_at(s, e1, kw_else()) {
                                    let e2 = spec_skip_ws(s, e1 + 4);
                                    match spec_parse_statement(s, e2, (depth - 1) as nat) {
                                        Ok((els, p4)) => Ok(
                                            (
                                                SpecStatement::IfThenStmt {
                                                    condition: Box::new(cond),
                                                    body: Box::new(body),
                                                    else_body: Option::Some(Box::new(els)),
                                                },
                                                p4,
                                            ),
                                        ),
                                        Err(e) => Err(e),
                                    }
                                } else {
                                    Ok(
                                        (
                                            SpecStatement::IfThenStmt {
                                                condition: Box::new(cond),
                                                body: Box::new(body),
                                                else_body: Option::None,
                                            },
                                            p3,
                                        ),
                                    )
                                }
                            },
                            Err(e) => Err(e),
                        }
                    } else {
                        Err(spec_fail(s, r, Expected::Tok(')')))
                    }
                },
                Err(e) => Err(e),
            }
        } else {
            Err(spec_fail(s, p1, Expected::Tok('(')))
        }
    }
}

/// Compound statement: `{`, zero or more statements separated only by
/// insignificant whitespace, `}`.  Failures carry the
/// `CompoundStatement` context label.
pub open spec fn spec_parse_compound(s: Seq<char>, pos: int, depth: nat) -> SpecParsed<
    SpecCompoundStatement,
>
    decreases depth, 1int,
{
    match spec_parse_compound_core(s, pos, depth) {
        Ok(r) => Ok(r),
        Err(e) => Err(spec_with_context(e, ParseContext::CompoundStatement)),
    }
}

/// The body of `spec_parse_compound`, before the context label is
/// attached.
pub open spec fn spec_parse_compound_core(s: Seq<char>, pos: int, depth: nat) -> SpecParsed<
    SpecCompoundStatement,
>
    decreases depth, 0int,
{
    if depth == 0 {
        Err(spec_error(ErrorKind::NestingTooDeep, pos))
    } else if 0 <= pos < s.len() && s[pos] == '{' {
        spec_parse_statement_list(s, spec_skip_ws(s, pos + 1), (depth - 1) as nat, Seq::empty())
    } else {
        Err(spec_fail(s, pos, Expected::Tok('{')))
    }
}

/// The statements of a compound statement, up to and including the
/// closing brace.  `acc` holds the statements parsed so far, in order.
/// Input that ends before the closing brace is an incomplete-input
/// failure, never treated as closed.
pub open spec fn spec_parse_statement_list(
    s: Seq<char>,
    pos: int,
    depth: nat,
    acc: Seq<SpecStatement>,
) -> SpecParsed<SpecCompoundStatement>
    decreases depth, 0int,
{
    if depth == 0 {
        Err(spec_error(ErrorKind::NestingTooDeep, pos))
    } else if pos >= s.len() {
        Err(spec_fail(s, pos, Expected::Tok('}')))
    } else if s[pos] == '}' {
        Ok((SpecCompoundStatement { statements: acc }, pos + 1))
    } else {
        match spec_parse_statement(s, pos, (depth - 1) as nat) {
            Ok((st, p)) => spec_parse_statement_list(
                s,
                spec_skip_ws(s, p),
                (depth - 1) as nat,
                acc.push(st),
            ),
            Err(e) => Err(e),
        }
    }
}

// ---------------------------------------------------------------------
// Declarations and the program assembler.
// ---------------------------------------------------------------------

/// Parameter: a type specifier, mandatory whitespace, an identifier.
/// Failures carry the `Parameter` context label.
pub open spec fn spec_parse_parameter(s: Seq<char>, pos: int) -> SpecParsed<SpecFunctionParameter> {
    match spec_parse_parameter_core(s, pos) {
        Ok(r) => Ok(r),
        Err(e) => Err(spec_with_context(e, ParseContext::Parameter)),
    }
}

/// The body of `spec_parse_parameter`, before the context label is
/// attached.
pub open spec fn spec_parse_parameter_core(s: Seq<char>, pos: int) -> SpecParsed<
    SpecFunctionParameter,
> {
    match spec_parse_type_specifier(s, pos) {
        Ok((t, p)) => {
            if p < s.len() && is_space(s[p]) {
                let q = spec_skip_ws(s, p);
                match spec_parse_identifier(s, q) {
                    Ok((name, p2)) => Ok(
                        (SpecFunctionParameter { type_specifier: t, name }, p2),
                    ),
                    Err(e) => Err(e),
                }
            } else {
                Err(spec_fail(s, p, Expected::Whitespace))
            }
        },
        Err(e) => Err(e),
    }
}

/// Further comma-separated parameters after at least one has been
/// parsed.  `acc` holds the parameters parsed so far, in order.
pub open spec fn spec_parse_parameter_list_rest(
    s: Seq<char>,
    pos: int,
    depth: nat,
    acc: Seq<SpecFunctionParameter>,
) -> SpecParsed<Seq<SpecFunctionParameter>>
    decreases depth, 0int,
{
    if depth == 0 {
        Err(spec_error(ErrorKind::NestingTooDeep, pos))
    } else {
        let p = spec_skip_ws(s, pos);
        if p < s.len() && s[p] == ',' {
            let q = spec_skip_ws(s, p + 1);
            match spec_parse_parameter(s, q) {
                Ok((pr, p2)) => spec_parse_parameter_list_rest(s, p2, (depth - 1) as nat, acc.push(pr)),
                Err(e) => Err(e),
            }
        } else {
            Ok((acc, pos))
        }
    }
}

/// Function definition: type specifier, mandatory whitespace, name,
/// `(`, a possibly empty parameter list, `)`, optional whitespace, and a
/// compound-statement body.  Failures carry the `FunctionDefinition`
/// context label so diagnostics show which top-level construct was being
/// parsed.
pub open spec fn spec_parse_function_definition(s: Seq<char>, pos: int, depth: nat) -> SpecParsed<
    SpecFunctionDefinition,
>
    decreases depth, 1int,
{
    match spec_parse_function_definition_core(s, pos, depth) {
        Ok(r) => Ok(r),
        Err(e) => Err(spec_with_context(e, ParseContext::FunctionDefinition)),
    }
}

/// The body of `spec_parse_function_definition`, before the context
/// label is attached.
pub open spec fn spec_parse_function_definition_core(s: Seq<char>, pos: int, depth: nat)
    -> SpecParsed<SpecFunctionDefinition>
    decreases depth, 0int,
{
    if depth == 0 {
        Err(spec_error(ErrorKind::NestingTooDeep, pos))
    } else {
        match spec_parse_type_specifier(s, pos) {
            Ok((t, p0)) => {
                if p0 < s.len() && is_space(s[p0]) {
                    let q0 = spec_skip_ws(s, p0);
                    match spec_parse_identifier(s, q0) {
                        Ok((name, p1)) => {
                            let r = spec_skip_ws(s, p1);
                            if r < s.len() && s[r] == '(' {
                                let a = spec_skip_ws(s, r + 1);
                                match spec_parse_params_and_close(s, a, (depth - 1) as nat) {
                                    Ok((params, pp)) => {
                                        let b = spec_skip_ws(s, pp);
                                        match spec_parse_compound(s, b, (depth - 1) as nat) {
                                            Ok((body, pe)) => Ok(
                                                (
                                                    SpecFunctionDefinition {
                                                        return_type: t,
                                                        name,
                                                        parameters: params,
                                                        body,
                                                    },
                                                    pe,
                                                ),
                                            ),
                                            Err(e) => Err(e),
                                        }
                                    },
                                    Err(e) => Err(e),
                                }
                            } else {
                                Err(spec_fail(s, r, Expected::Tok('(')))
                            }
                        },
                        Err(e) => Err(e),
                    }
                } else {
                    Err(spec_fail(s, p0, Expected::Whitespace))
                }
            },
            Err(e) => Err(e),
        }
    }
}

/// A possibly empty parameter list followed by the closing parenthesis,
/// starting after the opening parenthesis and any whitespace.  Returns
/// the parameters and the position after `)`.
pub open spec fn spec_parse_params_and_close(s: Seq<char>, pos: int, depth: nat) -> SpecParsed<
    Seq<SpecFunctionParameter>,
>
    decreases depth, 0int,
{
    if depth == 0 {
        Err(spec_error(ErrorKind::NestingTooDeep, pos))
    } else if 0 <= pos < s.len() && s[pos] == ')' {
        Ok((Seq::empty(), pos + 1))
    } else {
        match spec_parse_parameter(s, pos) {
            Ok((pr, pb)) => {
                match spec_parse_parameter_list_rest(s, pb, (depth - 1) as nat, seq![pr]) {
                    Ok((params, pc)) => {
                        let rc = spec_skip_ws(s, pc);
                        if rc < s.len() && s[rc] == ')' {
                            Ok((params, rc + 1))
                        } else {
                            Err(spec_fail(s, rc, Expected::Tok(')')))
                        }
                    },
                    Err(e) => Err(e),
                }
            },
            Err(e) => Err(e),
        }
    }
}

/// Init declarator: an identifier with an optional `=` initializer
/// expression.  A single `=` introduces the initializer; `==` does not.
pub open spec fn spec_parse_init_declarator(s: Seq<char>, pos: int, depth: nat) -> SpecParsed<
    SpecInitDeclarator,
>
    decreases depth, 0int,
{
    if depth == 0 {
        Err(spec_error(ErrorKind::NestingTooDeep, pos))
    } else {
        match spec_parse_identifier(s, pos) {
            Ok((name, p)) => {
                let q = spec_skip_ws(s, p);
                if q < s.len() && s[q] == '=' && (q + 1 >= s.len() || s[q + 1] != '=') {
                    let w = spec_skip_ws(s, q + 1);
                    match spec_parse_expression(s, w, (depth - 1) as nat) {
                        Ok((e, p2)) => Ok(
                            (SpecInitDeclarator { name, initializer: Option::Some(e) }, p2),
                        ),
                        Err(e) => Err(e),
                    }
                } else {
                    Ok((SpecInitDeclarator { name, initializer: Option::None }, p))
                }
            },
            Err(e) => Err(e),
        }
    }
}

/// Global variable declaration: type specifier, mandatory whitespace,
/// one or more comma-separated init declarators, `;`.  Failures carry
/// the `GlobalDeclaration` context label.
pub open spec fn spec_parse_global_declaration(s: Seq<char>, pos: int, depth: nat) -> SpecParsed<
    SpecVariableDeclaration,
>
    decreases depth, 1int,
{
    match spec_parse_global_declaration_core(s, pos, depth) {
        Ok(r) => Ok(r),
        Err(e) => Err(spec_with_context(e, ParseContext::GlobalDeclaration)),
    }
}

/// The body of `spec_parse_global_declaration`, before the context label
/// is attached.
pub open spec fn spec_parse_global_declaration_core(s: Seq<char>, pos: int, depth: nat)
    -> SpecParsed<SpecVariableDeclaration>
    decreases depth, 0int,
{
    if depth == 0 {
        Err(spec_error(ErrorKind::NestingTooDeep, pos))
    } else {
        match spec_parse_type_specifier(s, pos) {
            Ok((t, p0)) => {
                if p0 < s.len() && is_space(s[p0]) {
                    let q0 = spec_skip_ws(s, p0);
                    match spec_parse_init_declarator(s, q0, (depth - 1) as nat) {
                        Ok((d0, p1)) => {
                            match spec_parse_init_declarator_list_rest(
                                s,
                                p1,
                                (depth - 1) as nat,
                                seq![d0],
                            ) {
                                Ok((ds, p2)) => Ok(
                                    (
                                        SpecVariableDeclaration {
                                            type_specifier: t,
                                            init_declarators: ds,
                                        },
                                        p2,
                                    ),
                                ),
                                Err(e) => Err(e),
                            }
                        },
                        Err(e) => Err(e),
                    }
                } else {
                    Err(spec_fail(s, p0, Expected::Whitespace))
                }
            },
            Err(e) => Err(e),
        }
    }
}

/// Further comma-separated init declarators, up to and including the
/// terminating semicolon.  Returns the declarators and the position
/// after `;`.
pub open spec fn spec_parse_init_declarator_list_rest(
    s: Seq<char>,
    pos: int,
    depth: nat,
    acc: Seq<SpecInitDeclarator>,
) -> SpecParsed<Seq<SpecInitDeclarator>>
    decreases depth, 0int,
{
    if depth == 0 {
        Err(spec_error(ErrorKind::NestingTooDeep, pos))
    } else {
        let p = spec_skip_ws(s, pos);
        if p < s.len() && s[p] == ',' {
            let q = spec_skip_ws(s, p + 1);
            match spec_parse_init_declarator(s, q, (depth - 1) as nat) {
                Ok((d, p2)) => spec_parse_init_declarator_list_rest(
                    s,
                    p2,
                    (depth - 1) as nat,
                    acc.push(d),
                ),
                Err(e) => Err(e),
            }
        } else if p < s.len() && s[p] == ';' {
            Ok((acc, p + 1))
        } else {
            Err(spec_fail(s, p, Expected::Tok(';')))
        }
    }
}

/// External declaration: a function definition, or failing that a global
/// variable declaration, tried in that fixed order.  The keywords
/// `struct` and `typedef` are recognized and rejected as unsupported
/// constructs.  When both alternatives fail, the failure that reached
/// the further offset is reported, so the error points at the first
/// unparsable character; at equal offsets the function-definition
/// failure wins.
pub open spec fn spec_parse_external_declaration(s: Seq<char>, pos: int, depth: nat) -> SpecParsed<
    SpecExternalDeclaration,
>
    decreases depth, 0int,
{
    if depth == 0 {
        Err(spec_error(ErrorKind::NestingTooDeep, pos))
    } else if kw_at(s, pos, kw_struct()) || kw_at(s, pos, kw_typedef()) {
        Err(spec_error(ErrorKind::UnsupportedConstruct, pos))
    } else {
        match spec_parse_function_definition(s, pos, (depth - 1) as nat) {
            Ok((f, p)) => Ok((SpecExternalDeclaration::FunctionDef(f), p)),
            Err(ef) => match spec_parse_global_declaration(s, pos, (depth - 1) as nat) {
                Ok((g, p)) => Ok((SpecExternalDeclaration::GlobalVar(g), p)),
                Err(eg) => Err(if eg.offset > ef.offset {
                    eg
                } else {
                    ef
                }),
            },
        }
    }
}

/// The external declarations of a program, from `pos` to the end of the
/// input.  `acc` holds the declarations parsed so far, in order.
pub open spec fn spec_parse_program_rest(
    s: Seq<char>,
    pos: int,
    depth: nat,
    acc: Seq<SpecExternalDeclaration>,
) -> Result<SpecProgram, SpecParseError>
    decreases depth, 0int,
{
    if pos >= s.len() {
        Ok(SpecProgram { external_declarations: acc })
    } else if depth == 0 {
        Err(spec_error(ErrorKind::NestingTooDeep, pos))
    } else {
        match spec_parse_external_declaration(s, pos, (depth - 1) as nat) {
            Ok((d, p)) => spec_parse_program_rest(s, spec_skip_ws(s, p), (depth - 1) as nat, acc.push(d)),
            Err(e) => Err(e),
        }
    }
}

/// A whole program: external declarations until the input is exhausted.
/// This is the contract of parsing from a string: either every character
/// is consumed and a `SpecProgram` results, or the parse fails with the
/// offset of the first unparsable character.
pub open spec fn spec_parse_program(s: Seq<char>) -> Result<SpecProgram, SpecParseError> {
    spec_parse_program_rest(s, spec_skip_ws(s, 0), RECURSION_LIMIT as nat, Seq::empty())
}

/// Further comma-separated call arguments after at least one has been
/// parsed.
pub open spec fn spec_parse_call_args_rest(
    s: Seq<char>,
    pos: int,
    depth: nat,
    name: Seq<char>,
    args: Seq<SpecExpression>,
) -> SpecParsed<SpecExpression>
    decreases depth, 0int,
{
    if depth == 0 {
        Err(spec_error(ErrorKind::NestingTooDeep, pos))
    } else {
        let p = spec_skip_ws(s, pos);
        if p < s.len() && s[p] == ',' {
            let q = spec_skip_ws(s, p + 1);
            match spec_parse_expression(s, q, (depth - 1) as nat) {
                Ok((e, p2)) => spec_parse_call_args_rest(s, p2, (depth - 1) as nat, name, args.push(e)),
                Err(e) => Err(e),
            }
        } else if p < s.len() && s[p] == ')' {
            Ok((SpecExpression::FunctionCall { name, arguments: args }, p + 1))
        } else {
            Err(spec_fail(s, p, Expected::Tok(')')))
        }
    }
}

} // verus!
