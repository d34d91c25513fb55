//! The executable parser.
//!
//! Each function mirrors one grammar rule and is proved to return
//! exactly what the corresponding specification function in `grammar`
//! describes: the same node and the same next position on success, the
//! same structured failure otherwise.  No function here panics.

use vstd::prelude::*;

use crate::ast::BinaryOperator;
use crate::ast::CompoundStatement;
use crate::ast::Expression;
use crate::ast::ExternalDeclaration;
use crate::ast::FunctionDefinition;
use crate::ast::FunctionParameter;
use crate::ast::InitDeclarator;
use crate::ast::Program;
use crate::ast::SpecExpression;
use crate::ast::Statement;
use crate::ast::TypeSpecifier;
use crate::ast::UnaryOperator;
use crate::ast::VariableDeclaration;
use crate::ast::dview_expressions;
use crate::ast::dview_external_declarations;
use crate::ast::dview_init_declarators;
use crate::ast::dview_parameters;
use crate::ast::dview_statements;
use crate::error::ErrorKind;
use crate::error::Expected;
use crate::error::ParseContext;
use crate::error::ParseError;
use crate::error::SpecParseError;
use crate::error::spec_error;
use crate::error::spec_fail;
use crate::error::spec_with_context;
use crate::grammar::RECURSION_LIMIT;
use crate::grammar::is_digit;
use crate::grammar::is_letter;
use crate::grammar::is_space;
use crate::grammar::kw_at;
use crate::grammar::kw_char;
use crate::grammar::kw_else;
use crate::grammar::kw_float;
use crate::grammar::kw_for;
use crate::grammar::kw_if;
use crate::grammar::kw_int;
use crate::grammar::kw_return;
use crate::grammar::kw_struct;
use crate::grammar::kw_typedef;
use crate::grammar::kw_void;
use crate::grammar::kw_while;
use crate::grammar::lemma_digits_value_mono;
use crate::grammar::lemma_digits_value_step;
use crate::grammar::lemma_scan_digits;
use crate::grammar::scan_digits;
use crate::grammar::scan_letters;
use crate::grammar::scan_to_quote;
use crate::grammar::spec_parse_constant;
use crate::grammar::spec_parse_identifier;
use crate::grammar::spec_parse_string_literal;
use crate::grammar::spec_parse_type_specifier;
use crate::grammar::spec_skip_ws;

verus! {

/// The outcome of an executable grammar rule: a node and the position of
/// the first unconsumed character, or a structured failure.
pub type ParseResult<T> = Result<(T, usize), ParseError>;

// ---------------------------------------------------------------------
// Failure construction.
// ---------------------------------------------------------------------

/// A failure of the given kind at the given offset, with no contexts.
fn error_at(kind: ErrorKind, pos: usize) -> (r: ParseError)
    ensures
        r.dview() == spec_error(kind, pos as int),
{
    ParseError { kind, offset: pos, contexts: Vec::new() }
}

/// A failure to find `exp` at `pos`.
fn fail_at(input: &str, n: usize, pos: usize, exp: Expected) -> (r: ParseError)
    requires
        n == input@.len(),
    ensures
        r.dview() == spec_fail(input@, pos as int, exp),
{
    let kind = if pos >= n {
        ErrorKind::IncompleteInput(exp)
    } else {
        ErrorKind::SyntaxError(exp)
    };
    ParseError { kind, offset: pos, contexts: Vec::new() }
}

/// `e` with the context label `c` pushed on top of its stack.
fn with_context(e: ParseError, c: ParseContext) -> (r: ParseError)
    ensures
        r.dview() == spec_with_context(e.dview(), c),
{
    let mut e = e;
    e.contexts.push(c);
    e
}

// ---------------------------------------------------------------------
// Character classes and scanners.
// ---------------------------------------------------------------------

/// Whether `c` is an ASCII letter.
fn x_letter(c: char) -> (r: bool)
    ensures
        r == is_letter(c),
{
    let u = c as u32;
    ('a' as u32 <= u && u <= 'z' as u32) || ('A' as u32 <= u && u <= 'Z' as u32)
}

/// Whether `c` is a decimal digit.
fn x_digit(c: char) -> (r: bool)
    ensures
        r == is_digit(c),
{
    let u = c as u32;
    '0' as u32 <= u && u <= '9' as u32
}

/// Whether `c` is insignificant whitespace.
fn x_space(c: char) -> (r: bool)
    ensures
        r == is_space(c),
{
    c == ' ' || c == '\t' || c == '\n' || c == '\r'
}

/// The end of the run of letters starting at `pos`.
fn x_scan_letters(input: &str, n: usize, pos: usize) -> (r: usize)
    requires
        n == input@.len(),
        pos <= n,
    ensures
        r as int == scan_letters(input@, pos as int),
        pos <= r <= n,
    decreases n - pos,
{
    if pos < n && x_letter(input.get_char(pos)) {
        x_scan_letters(input, n, pos + 1)
    } else {
        pos
    }
}

/// The end of the run of digits starting at `pos`.
fn x_scan_digits(input: &str, n: usize, pos: usize) -> (r: usize)
    requires
        n == input@.len(),
        pos <= n,
    ensures
        r as int == scan_digits(input@, pos as int),
        pos <= r <= n,
    decreases n - pos,
{
    if pos < n && x_digit(input.get_char(pos)) {
        x_scan_digits(input, n, pos + 1)
    } else {
        pos
    }
}

/// The first non-whitespace position at or after `pos`.
fn x_skip_ws(input: &str, n: usize, pos: usize) -> (r: usize)
    requires
        n == input@.len(),
        pos <= n,
    ensures
        r as int == spec_skip_ws(input@, pos as int),
        pos <= r <= n,
    decreases n - pos,
{
    if pos < n && x_space(input.get_char(pos)) {
        x_skip_ws(input, n, pos + 1)
    } else {
        pos
    }
}

/// The first double quote at or after `pos`, or the end of the input.
fn x_scan_to_quote(input: &str, n: usize, pos: usize) -> (r: usize)
    requires
        n == input@.len(),
        pos <= n,
    ensures
        r as int == scan_to_quote(input@, pos as int),
        pos <= r <= n,
    decreases n - pos,
{
    if pos < n && input.get_char(pos) != '"' {
        x_scan_to_quote(input, n, pos + 1)
    } else {
        pos
    }
}

// ---------------------------------------------------------------------
// Keywords.
// ---------------------------------------------------------------------

/// Whether the keyword `kw` stands at `pos` and ends at a word boundary.
fn x_kw_at(input: &str, n: usize, pos: usize, kw: &str, kn: usize) -> (r: bool)
    requires
        n == input@.len(),
        pos <= n,
        kn == kw@.len(),
    ensures
        r == kw_at(input@, pos as int, kw@),
{
    if n - pos < kn {
        return false;
    }
    let sub = input.substring_char(pos, pos + kn);
    let same = String::from_str(sub).eq(&String::from_str(kw));
    if !same {
        return false;
    }
    if pos + kn == n {
        return true;
    }
    !x_letter(input.get_char(pos + kn))
}

fn x_kw_void(input: &str, n: usize, pos: usize) -> (r: bool)
    requires
        n == input@.len(),
        pos <= n,
    ensures
        r == kw_at(input@, pos as int, kw_void()),
{
    proof {
        reveal_strlit("void");
        assert("void"@ =~= kw_void());
    }
    x_kw_at(input, n, pos, "void", 4)
}

fn x_kw_char(input: &str, n: usize, pos: usize) -> (r: bool)
    requires
        n == input@.len(),
        pos <= n,
    ensures
        r == kw_at(input@, pos as int, kw_char()),
{
    proof {
        reveal_strlit("char");
        assert("char"@ =~= kw_char());
    }
    x_kw_at(input, n, pos, "char", 4)
}

fn x_kw_int(input: &str, n: usize, pos: usize) -> (r: bool)
    requires
        n == input@.len(),
        pos <= n,
    ensures
        r == kw_at(input@, pos as int, kw_int()),
{
    proof {
        reveal_strlit("int");
        assert("int"@ =~= kw_int());
    }
    x_kw_at(input, n, pos, "int", 3)
}

fn x_kw_float(input: &str, n: usize, pos: usize) -> (r: bool)
    requires
        n == input@.len(),
        pos <= n,
    ensures
        r == kw_at(input@, pos as int, kw_float()),
{
    proof {
        reveal_strlit("float");
        assert("float"@ =~= kw_float());
    }
    x_kw_at(input, n, pos, "float", 5)
}

fn x_kw_return(input: &str, n: usize, pos: usize) -> (r: bool)
    requires
        n == input@.len(),
        pos <= n,
    ensures
        r == kw_at(input@, pos as int, kw_return()),
{
    proof {
        reveal_strlit("return");
        assert("return"@ =~= kw_return());
    }
    x_kw_at(input, n, pos, "return", 6)
}

fn x_kw_if(input: &str, n: usize, pos: usize) -> (r: bool)
    requires
        n == input@.len(),
        pos <= n,
    ensures
        r == kw_at(input@, pos as int, kw_if()),
{
    proof {
        reveal_strlit("if");
        assert("if"@ =~= kw_if());
    }
    x_kw_at(input, n, pos, "if", 2)
}

fn x_kw_else(input: &str, n: usize, pos: usize) -> (r: bool)
    requires
        n == input@.len(),
        pos <= n,
    ensures
        r == kw_at(input@, pos as int, kw_else()),
{
    proof {
        reveal_strlit("else");
        assert("else"@ =~= kw_else());
    }
    x_kw_at(input, n, pos, "else", 4)
}

fn x_kw_while(input: &str, n: usize, pos: usize) -> (r: bool)
    requires
        n == input@.len(),
        pos <= n,
    ensures
        r == kw_at(input@, pos as int, kw_while()),
{
    proof {
        reveal_strlit("while");
        assert("while"@ =~= kw_while());
    }
    x_kw_at(input, n, pos, "while", 5)
}

fn x_kw_for(input: &str, n: usize, pos: usize) -> (r: bool)
    requires
        n == input@.len(),
        pos <= n,
    ensures
        r == kw_at(input@, pos as int, kw_for()),
{
    proof {
        reveal_strlit("for");
        assert("for"@ =~= kw_for());
    }
    x_kw_at(input, n, pos, "for", 3)
}

fn x_kw_struct(input: &str, n: usize, pos: usize) -> (r: bool)
    requires
        n == input@.len(),
        pos <= n,
    ensures
        r == kw_at(input@, pos as int, kw_struct()),
{
    proof {
        reveal_strlit("struct");
        assert("struct"@ =~= kw_struct());
    }
    x_kw_at(input, n, pos, "struct", 6)
}

fn x_kw_typedef(input: &str, n: usize, pos: usize) -> (r: bool)
    requires
        n == input@.len(),
        pos <= n,
    ensures
        r == kw_at(input@, pos as int, kw_typedef()),
{
    proof {
        reveal_strlit("typedef");
        assert("typedef"@ =~= kw_typedef());
    }
    x_kw_at(input, n, pos, "typedef", 7)
}

// ---------------------------------------------------------------------
// Lexical atoms.
// ---------------------------------------------------------------------

/// Identifier at `pos`: one or more ASCII letters.
fn ident_at(input: &str, n: usize, pos: usize) -> (r: ParseResult<String>)
    requires
        n == input@.len(),
        pos <= n,
    ensures
        (match r {
            Ok(v) => spec_parse_identifier(input@, pos as int) == Ok::<_, SpecParseError>(
                (v.0@, v.1 as int),
            ) && v.1 <= n,
            Err(e) => spec_parse_identifier(input@, pos as int) == Err::<(Seq<char>, int), _>(
                e.dview(),
            ),
        }),
{
    if pos < n && x_letter(input.get_char(pos)) {
        let end = x_scan_letters(input, n, pos);
        let name = String::from_str(input.substring_char(pos, end));
        Ok((name, end))
    } else {
        Err(fail_at(input, n, pos, Expected::Letter))
    }
}

/// Type specifier at `pos`.
fn type_specifier_at(input: &str, n: usize, pos: usize) -> (r: ParseResult<TypeSpecifier>)
    requires
        n == input@.len(),
        pos <= n,
    ensures
        (match r {
            Ok(v) => spec_parse_type_specifier(input@, pos as int) == Ok::<_, SpecParseError>(
                (v.0, v.1 as int),
            ) && v.1 <= n,
            Err(e) => spec_parse_type_specifier(input@, pos as int) == Err::<
                (TypeSpecifier, int),
                _,
            >(e.dview()),
        }),
{
    if x_kw_void(input, n, pos) {
        Ok((TypeSpecifier::Void, pos + 4))
    } else if x_kw_char(input, n, pos) {
        Ok((TypeSpecifier::Char, pos + 4))
    } else if x_kw_int(input, n, pos) {
        Ok((TypeSpecifier::Int, pos + 3))
    } else if x_kw_float(input, n, pos) {
        Ok((TypeSpecifier::Float, pos + 5))
    } else {
        Err(fail_at(input, n, pos, Expected::TypeKeyword))
    }
}

/// Integer constant at `pos`: one or more decimal digits, with an
/// explicit failure when the literal exceeds the 32-bit signed range.
fn constant_at(input: &str, n: usize, pos: usize) -> (r: ParseResult<Expression>)
    requires
        n == input@.len(),
        pos <= n,
    ensures
        (match r {
            Ok(v) => spec_parse_constant(input@, pos as int) == Ok::<_, SpecParseError>(
                (v.0.dview(), v.1 as int),
            ) && v.1 <= n,
            Err(e) => spec_parse_constant(input@, pos as int) == Err::<(
                SpecExpression,
                int,
            ), _>(e.dview()),
        }),
{
    if pos < n && x_digit(input.get_char(pos)) {
        let end = x_scan_digits(input, n, pos);
        proof {
            lemma_scan_digits(input@, pos as int);
        }
        let mut acc: u64 = 0;
        let mut i: usize = pos;
        while i < end
            invariant
                pos <= i <= end <= n,
                n == input@.len(),
                end as int == scan_digits(input@, pos as int),
                forall|j: int| pos <= j < end ==> is_digit(input@[j]),
                acc as int == crate::grammar::digits_value(
                    input@.subrange(pos as int, i as int),
                ),
                acc <= 0x7fff_ffff,
            decreases end - i,
        {
            let c = input.get_char(i);
            let d: u32 = (c as u32) - ('0' as u32);
            let a2: u64 = acc * 10 + (d as u64);
            proof {
                lemma_digits_value_step(input@, pos as int, i as int);
            }
            if a2 > 0x7fff_ffff {
                proof {
                    lemma_digits_value_mono(input@, pos as int, (i + 1) as int, end as int);
                }
                return Err(error_at(ErrorKind::NumericOverflow, pos));
            }
            acc = a2;
            i = i + 1;
        }
        Ok((Expression::Constant(acc as i32), end))
    } else {
        Err(fail_at(input, n, pos, Expected::Digit))
    }
}

/// String literal at `pos`: a double quote, characters up to the next
/// double quote, and that closing quote.
fn string_literal_at(input: &str, n: usize, pos: usize) -> (r: ParseResult<Expression>)
    requires
        n == input@.len(),
        pos <= n,
    ensures
        (match r {
            Ok(v) => spec_parse_string_literal(input@, pos as int) == Ok::<_, SpecParseError>(
                (v.0.dview(), v.1 as int),
            ) && v.1 <= n,
            Err(e) => spec_parse_string_literal(input@, pos as int) == Err::<(
                SpecExpression,
                int,
            ), _>(e.dview()),
        }),
{
    if pos < n && input.get_char(pos) == '"' {
        let end = x_scan_to_quote(input, n, pos + 1);
        if end < n {
            let text = String::from_str(input.substring_char(pos + 1, end));
            Ok((Expression::StringLiteral(text), end + 1))
        } else {
            Err(fail_at(input, n, end, Expected::Tok('"')))
        }
    } else {
        Err(fail_at(input, n, pos, Expected::Tok('"')))
    }
}

// ---------------------------------------------------------------------
// Expression grammar.
// ---------------------------------------------------------------------

/// Expression entry point.
fn x_expression(input: &str, n: usize, pos: usize, depth: usize) -> (r: ParseResult<Expression>)
    requires
        n == input@.len(),
        pos <= n,
    ensures
        (match r {
            Ok(v) => crate::grammar::spec_parse_expression(input@, pos as int, depth as nat)
                == Ok::<_, SpecParseError>((v.0.dview(), v.1 as int)) && v.1 <= n,
            Err(e) => crate::grammar::spec_parse_expression(input@, pos as int, depth as nat)
                == Err::<(SpecExpression, int), _>(e.dview()),
        }),
    decreases depth, 1int,
{
    match x_or(input, n, pos, depth) {
        Ok(v) => Ok(v),
        Err(e) => Err(with_context(e, ParseContext::Expression)),
    }
}

/// Logical-or level.
fn x_or(input: &str, n: usize, pos: usize, depth: usize) -> (r: ParseResult<Expression>)
    requires
        n == input@.len(),
        pos <= n,
    ensures
        (match r {
            Ok(v) => crate::grammar::spec_parse_or(input@, pos as int, depth as nat) == Ok::<
                _,
                SpecParseError,
            >((v.0.dview(), v.1 as int)) && v.1 <= n,
            Err(e) => crate::grammar::spec_parse_or(input@, pos as int, depth as nat) == Err::<
                (SpecExpression, int),
                _,
            >(e.dview()),
        }),
    decreases depth, 0int,
{
    if depth == 0 {
        return Err(error_at(ErrorKind::NestingTooDeep, pos));
    }
    match x_and(input, n, pos, depth - 1) {
        Ok((left, p)) => x_or_rest(input, n, p, depth - 1, left),
        Err(e) => Err(e),
    }
}

/// Further `||` operands.
fn x_or_rest(input: &str, n: usize, pos: usize, depth: usize, left: Expression) -> (r: ParseResult<
    Expression,
>)
    requires
        n == input@.len(),
        pos <= n,
    ensures
        (match r {
            Ok(v) => crate::grammar::spec_parse_or_rest(
                input@,
                pos as int,
                depth as nat,
                left.dview(),
            ) == Ok::<_, SpecParseError>((v.0.dview(), v.1 as int)) && v.1 <= n,
            Err(e) => crate::grammar::spec_parse_or_rest(
                input@,
                pos as int,
                depth as nat,
                left.dview(),
            ) == Err::<(SpecExpression, int), _>(e.dview()),
        }),
    decreases depth, 0int,
{
    if depth == 0 {
        return Err(error_at(ErrorKind::NestingTooDeep, pos));
    }
    let p = x_skip_ws(input, n, pos);
    if p < n && p + 1 < n && input.get_char(p) == '|' && input.get_char(p + 1) == '|' {
        let q = x_skip_ws(input, n, p + 2);
        match x_and(input, n, q, depth - 1) {
            Ok((right, p2)) => x_or_rest(
                input,
                n,
                p2,
                depth - 1,
                Expression::BinaryOp {
                    left: Box::new(left),
                    operator: BinaryOperator::LogicalOr,
                    right: Box::new(right),
                },
            ),
            Err(e) => Err(e),
        }
    } else {
        Ok((left, pos))
    }
}

/// Logical-and level.
fn x_and(input: &str, n: usize, pos: usize, depth: usize) -> (r: ParseResult<Expression>)
    requires
        n == input@.len(),
        pos <= n,
    ensures
        (match r {
            Ok(v) => crate::grammar::spec_parse_and(input@, pos as int, depth as nat) == Ok::<
                _,
                SpecParseError,
            >((v.0.dview(), v.1 as int)) && v.1 <= n,
            Err(e) => crate::grammar::spec_parse_and(input@, pos as int, depth as nat) == Err::<
                (SpecExpression, int),
                _,
            >(e.dview()),
        }),
    decreases depth, 0int,
{
    if depth == 0 {
        return Err(error_at(ErrorKind::NestingTooDeep, pos));
    }
    match x_equality(input, n, pos, depth - 1) {
        Ok((left, p)) => x_and_rest(input, n, p, depth - 1, left),
        Err(e) => Err(e),
    }
}

/// Further `&&` operands.
fn x_and_rest(input: &str, n: usize, pos: usize, depth: usize, left: Expression) -> (r:
    ParseResult<Expression>)
    requires
        n == input@.len(),
        pos <= n,
    ensures
        (match r {
            Ok(v) => crate::grammar::spec_parse_and_rest(
                input@,
                pos as int,
                depth as nat,
                left.dview(),
            ) == Ok::<_, SpecParseError>((v.0.dview(), v.1 as int)) && v.1 <= n,
            Err(e) => crate::grammar::spec_parse_and_rest(
                input@,
                pos as int,
                depth as nat,
                left.dview(),
            ) == Err::<(SpecExpression, int), _>(e.dview()),
        }),
    decreases depth, 0int,
{
    if depth == 0 {
        return Err(error_at(ErrorKind::NestingTooDeep, pos));
    }
    let p = x_skip_ws(input, n, pos);
    if p < n && p + 1 < n && input.get_char(p) == '&' && input.get_char(p + 1) == '&' {
        let q = x_skip_ws(input, n, p + 2);
        match x_equality(input, n, q, depth - 1) {
            Ok((right, p2)) => x_and_rest(
                input,
                n,
                p2,
                depth - 1,
                Expression::BinaryOp {
                    left: Box::new(left),
                    operator: BinaryOperator::LogicalAnd,
                    right: Box::new(right),
                },
            ),
            Err(e) => Err(e),
        }
    } else {
        Ok((left, pos))
    }
}

/// Equality level.
fn x_equality(input: &str, n: usize, pos: usize, depth: usize) -> (r: ParseResult<Expression>)
    requires
        n == input@.len(),
        pos <= n,
    ensures
        (match r {
            Ok(v) => crate::grammar::spec_parse_equality(input@, pos as int, depth as nat) == Ok::<
                _,
                SpecParseError,
            >((v.0.dview(), v.1 as int)) && v.1 <= n,
            Err(e) => crate::grammar::spec_parse_equality(input@, pos as int, depth as nat)
                == Err::<(SpecExpression, int), _>(e.dview()),
        }),
    decreases depth, 0int,
{
    if depth == 0 {
        return Err(error_at(ErrorKind::NestingTooDeep, pos));
    }
    match x_additive(input, n, pos, depth - 1) {
        Ok((left, p)) => x_equality_rest(input, n, p, depth - 1, left),
        Err(e) => Err(e),
    }
}

/// Further `==` operands.
fn x_equality_rest(input: &str, n: usize, pos: usize, depth: usize, left: Expression) -> (r:
    ParseResult<Expression>)
    requires
        n == input@.len(),
        pos <= n,
    ensures
        (match r {
            Ok(v) => crate::grammar::spec_parse_equality_rest(
                input@,
                pos as int,
                depth as nat,
                left.dview(),
            ) == Ok::<_, SpecParseError>((v.0.dview(), v.1 as int)) && v.1 <= n,
            Err(e) => crate::grammar::spec_parse_equality_rest(
                input@,
                pos as int,
                depth as nat,
                left.dview(),
            ) == Err::<(SpecExpression, int), _>(e.dview()),
        }),
    decreases depth, 0int,
{
    if depth == 0 {
        return Err(error_at(ErrorKind::NestingTooDeep, pos));
    }
    let p = x_skip_ws(input, n, pos);
    if p < n && p + 1 < n && input.get_char(p) == '=' && input.get_char(p + 1) == '=' {
        let q = x_skip_ws(input, n, p + 2);
        match x_additive(input, n, q, depth - 1) {
            Ok((right, p2)) => x_equality_rest(
                input,
                n,
                p2,
                depth - 1,
                Expression::EqualityOp { left: Box::new(left), right: Box::new(right) },
            ),
            Err(e) => Err(e),
        }
    } else {
        Ok((left, pos))
    }
}

/// Additive level.
fn x_additive(input: &str, n: usize, pos: usize, depth: usize) -> (r: ParseResult<Expression>)
    requires
        n == input@.len(),
        pos <= n,
    ensures
        (match r {
            Ok(v) => crate::grammar::spec_parse_additive(input@, pos as int, depth as nat) == Ok::<
                _,
                SpecParseError,
            >((v.0.dview(), v.1 as int)) && v.1 <= n,
            Err(e) => crate::grammar::spec_parse_additive(input@, pos as int, depth as nat)
                == Err::<(SpecExpression, int), _>(e.dview()),
        }),
    decreases depth, 0int,
{
    if depth == 0 {
        return Err(error_at(ErrorKind::NestingTooDeep, pos));
    }
    match x_multiplicative(input, n, pos, depth - 1) {
        Ok((left, p)) => x_additive_rest(input, n, p, depth - 1, left),
        Err(e) => Err(e),
    }
}

/// The additive operator at `pos`, if any.
fn x_additive_op_at(input: &str, n: usize, pos: usize) -> (r: Option<BinaryOperator>)
    requires
        n == input@.len(),
    ensures
        r == crate::grammar::additive_op_at(input@, pos as int),
{
    if pos < n {
        let c = input.get_char(pos);
        if c == '+' {
            Option::Some(BinaryOperator::Add)
        } else if c == '-' {
            Option::Some(BinaryOperator::Subtract)
        } else {
            Option::None
        }
    } else {
        Option::None
    }
}

/// Further `+`/`-` operands.
fn x_additive_rest(input: &str, n: usize, pos: usize, depth: usize, left: Expression) -> (r:
    ParseResult<Expression>)
    requires
        n == input@.len(),
        pos <= n,
    ensures
        (match r {
            Ok(v) => crate::grammar::spec_parse_additive_rest(
                input@,
                pos as int,
                depth as nat,
                left.dview(),
            ) == Ok::<_, SpecParseError>((v.0.dview(), v.1 as int)) && v.1 <= n,
            Err(e) => crate::grammar::spec_parse_additive_rest(
                input@,
                pos as int,
                depth as nat,
                left.dview(),
            ) == Err::<(SpecExpression, int), _>(e.dview()),
        }),
    decreases depth, 0int,
{
    if depth == 0 {
        return Err(error_at(ErrorKind::NestingTooDeep, pos));
    }
    let p = x_skip_ws(input, n, pos);
    match x_additive_op_at(input, n, p) {
        Option::Some(op) => {
            let q = x_skip_ws(input, n, p + 1);
            match x_multiplicative(input, n, q, depth - 1) {
                Ok((right, p2)) => x_additive_rest(
                    input,
                    n,
                    p2,
                    depth - 1,
                    Expression::BinaryOp {
                        left: Box::new(left),
                        operator: op,
                        right: Box::new(right),
                    },
                ),
                Err(e) => Err(e),
            }
        },
        Option::None => Ok((left, pos)),
    }
}

/// Multiplicative level.
fn x_multiplicative(input: &str, n: usize, pos: usize, depth: usize) -> (r: ParseResult<
    Expression,
>)
    requires
        n == input@.len(),
        pos <= n,
    ensures
        (match r {
            Ok(v) => crate::grammar::spec_parse_multiplicative(input@, pos as int, depth as nat)
                == Ok::<_, SpecParseError>((v.0.dview(), v.1 as int)) && v.1 <= n,
            Err(e) => crate::grammar::spec_parse_multiplicative(input@, pos as int, depth as nat)
                == Err::<(SpecExpression, int), _>(e.dview()),
        }),
    decreases depth, 0int,
{
    if depth == 0 {
        return Err(error_at(ErrorKind::NestingTooDeep, pos));
    }
    match x_unary(input, n, pos, depth - 1) {
        Ok((left, p)) => x_multiplicative_rest(input, n, p, depth - 1, left),
        Err(e) => Err(e),
    }
}

/// The multiplicative operator at `pos`, if any.
fn x_multiplicative_op_at(input: &str, n: usize, pos: usize) -> (r: Option<BinaryOperator>)
    requires
        n == input@.len(),
    ensures
        r == crate::grammar::multiplicative_op_at(input@, pos as int),
{
    if pos < n {
        let c = input.get_char(pos);
        if c == '*' {
            Option::Some(BinaryOperator::Multiply)
        } else if c == '/' {
            Option::Some(BinaryOperator::Divide)
        } else if c == '%' {
            Option::Some(BinaryOperator::Modulo)
        } else {
            Option::None
        }
    } else {
        Option::None
    }
}

/// Further `*`/`/`/`%` operands.
fn x_multiplicative_rest(input: &str, n: usize, pos: usize, depth: usize, left: Expression) -> (r:
    ParseResult<Expression>)
    requires
        n == input@.len(),
        pos <= n,
    ensures
        (match r {
            Ok(v) => crate::grammar::spec_parse_multiplicative_rest(
                input@,
                pos as int,
                depth as nat,
                left.dview(),
            ) == Ok::<_, SpecParseError>((v.0.dview(), v.1 as int)) && v.1 <= n,
            Err(e) => crate::grammar::spec_parse_multiplicative_rest(
                input@,
                pos as int,
                depth as nat,
                left.dview(),
            ) == Err::<(SpecExpression, int), _>(e.dview()),
        }),
    decreases depth, 0int,
{
    if depth == 0 {
        return Err(error_at(ErrorKind::NestingTooDeep, pos));
    }
    let p = x_skip_ws(input, n, pos);
    match x_multiplicative_op_at(input, n, p) {
        Option::Some(op) => {
            let q = x_skip_ws(input, n, p + 1);
            match x_unary(input, n, q, depth - 1) {
                Ok((right, p2)) => x_multiplicative_rest(
                    input,
                    n,
                    p2,
                    depth - 1,
                    Expression::BinaryOp {
                        left: Box::new(left),
                        operator: op,
                        right: Box::new(right),
                    },
                ),
                Err(e) => Err(e),
            }
        },
        Option::None => Ok((left, pos)),
    }
}

/// Unary level: prefix `-` and `!`.
fn x_unary(input: &str, n: usize, pos: usize, depth: usize) -> (r: ParseResult<Expression>)
    requires
        n == input@.len(),
        pos <= n,
    ensures
        (match r {
            Ok(v) => crate::grammar::spec_parse_unary(input@, pos as int, depth as nat) == Ok::<
                _,
                SpecParseError,
            >((v.0.dview(), v.1 as int)) && v.1 <= n,
            Err(e) => crate::grammar::spec_parse_unary(input@, pos as int, depth as nat) == Err::<
                (SpecExpression, int),
                _,
            >(e.dview()),
        }),
    decreases depth, 0int,
{
    if depth == 0 {
        return Err(error_at(ErrorKind::NestingTooDeep, pos));
    }
    if pos < n && input.get_char(pos) == '-' {
        let q = x_skip_ws(input, n, pos + 1);
        match x_unary(input, n, q, depth - 1) {
            Ok((operand, p)) => Ok(
                (
                    Expression::UnaryOp {
                        operator: UnaryOperator::Negate,
                        operand: Box::new(operand),
                    },
                    p,
                ),
            ),
            Err(e) => Err(e),
        }
    } else if pos < n && input.get_char(pos) == '!' {
        let q = x_skip_ws(input, n, pos + 1);
        match x_unary(input, n, q, depth - 1) {
            Ok((operand, p)) => Ok(
                (
                    Expression::UnaryOp {
                        operator: UnaryOperator::LogicalNot,
                        operand: Box::new(operand),
                    },
                    p,
                ),
            ),
            Err(e) => Err(e),
        }
    } else {
        x_primary(input, n, pos, depth - 1)
    }
}

/// Primary level: constant, string literal, parenthesized expression,
/// function call, or identifier.
fn x_primary(input: &str, n: usize, pos: usize, depth: usize) -> (r: ParseResult<Expression>)
    requires
        n == input@.len(),
        pos <= n,
    ensures
        (match r {
            Ok(v) => crate::grammar::spec_parse_primary(input@, pos as int, depth as nat) == Ok::<
                _,
                SpecParseError,
            >((v.0.dview(), v.1 as int)) && v.1 <= n,
            Err(e) => crate::grammar::spec_parse_primary(input@, pos as int, depth as nat)
                == Err::<(SpecExpression, int), _>(e.dview()),
        }),
    decreases depth, 0int,
{
    if depth == 0 {
        return Err(error_at(ErrorKind::NestingTooDeep, pos));
    }
    if pos < n && x_digit(input.get_char(pos)) {
        constant_at(input, n, pos)
    } else if pos < n && input.get_char(pos) == '"' {
        string_literal_at(input, n, pos)
    } else if pos < n && input.get_char(pos) == '(' {
        let q = x_skip_ws(input, n, pos + 1);
        match x_expression(input, n, q, depth - 1) {
            Ok((e, p)) => {
                let r2 = x_skip_ws(input, n, p);
                if r2 < n && input.get_char(r2) == ')' {
                    Ok((e, r2 + 1))
                } else {
                    Err(fail_at(input, n, r2, Expected::Tok(')')))
                }
            },
            Err(e) => Err(e),
        }
    } else if pos < n && x_letter(input.get_char(pos)) {
        let end = x_scan_letters(input, n, pos);
        if end < n && input.get_char(end) == '(' {
            let name = String::from_str(input.substring_char(pos, end));
            let a = x_skip_ws(input, n, end + 1);
            x_call_args(input, n, a, depth - 1, name)
        } else {
            let name = String::from_str(input.substring_char(pos, end));
            Ok((Expression::Identifier(name), end))
        }
    } else {
        Err(fail_at(input, n, pos, Expected::Expression))
    }
}

/// The argument list of a call, after the opening parenthesis and any
/// whitespace.
fn x_call_args(input: &str, n: usize, pos: usize, depth: usize, name: String) -> (r: ParseResult<
    Expression,
>)
    requires
        n == input@.len(),
        pos <= n,
    ensures
        (match r {
            Ok(v) => crate::grammar::spec_parse_call_args(input@, pos as int, depth as nat, name@)
                == Ok::<_, SpecParseError>((v.0.dview(), v.1 as int)) && v.1 <= n,
            Err(e) => crate::grammar::spec_parse_call_args(input@, pos as int, depth as nat, name@)
                == Err::<(SpecExpression, int), _>(e.dview()),
        }),
    decreases depth, 0int,
{
    if depth == 0 {
        return Err(error_at(ErrorKind::NestingTooDeep, pos));
    }
    if pos < n && input.get_char(pos) == ')' {
        let args: Vec<Expression> = Vec::new();
        proof {
            assert(dview_expressions(args@) =~= Seq::<SpecExpression>::empty());
        }
        Ok((Expression::FunctionCall { name, arguments: args }, pos + 1))
    } else {
        match x_expression(input, n, pos, depth - 1) {
            Ok((e, p)) => {
                let mut args: Vec<Expression> = Vec::new();
                let ghost e0 = e.dview();
                args.push(e);
                proof {
                    crate::ast::lemma_dview_expressions_push(Seq::empty(), args@.last());
                    assert(args@ =~= Seq::empty().push(args@.last()));
                    assert(dview_expressions(Seq::<Expression>::empty())
                        =~= Seq::<SpecExpression>::empty());
                    assert(dview_expressions(args@) =~= seq![e0]);
                }
                x_call_args_rest(input, n, p, depth - 1, name, args)
            },
            Err(e) => Err(e),
        }
    }
}

/// Further comma-separated call arguments.
fn x_call_args_rest(
    input: &str,
    n: usize,
    pos: usize,
    depth: usize,
    name: String,
    args: Vec<Expression>,
) -> (r: ParseResult<Expression>)
    requires
        n == input@.len(),
        pos <= n,
    ensures
        (match r {
            Ok(v) => crate::grammar::spec_parse_call_args_rest(
                input@,
                pos as int,
                depth as nat,
                name@,
                dview_expressions(args@),
            ) == Ok::<_, SpecParseError>((v.0.dview(), v.1 as int)) && v.1 <= n,
            Err(e) => crate::grammar::spec_parse_call_args_rest(
                input@,
                pos as int,
                depth as nat,
                name@,
                dview_expressions(args@),
            ) == Err::<(SpecExpression, int), _>(e.dview()),
        }),
    decreases depth, 0int,
{
    if depth == 0 {
        return Err(error_at(ErrorKind::NestingTooDeep, pos));
    }
    let p = x_skip_ws(input, n, pos);
    if p < n && input.get_char(p) == ',' {
        let q = x_skip_ws(input, n, p + 1);
        match x_expression(input, n, q, depth - 1) {
            Ok((e, p2)) => {
                let mut args = args;
                let ghost a0 = args@;
                args.push(e);
                proof {
                    crate::ast::lemma_dview_expressions_push(a0, args@.last());
                    assert(args@ == a0.push(args@.last()));
                }
                x_call_args_rest(input, n, p2, depth - 1, name, args)
            },
            Err(e) => Err(e),
        }
    } else if p < n && input.get_char(p) == ')' {
        Ok((Expression::FunctionCall { name, arguments: args }, p + 1))
    } else {
        Err(fail_at(input, n, p, Expected::Tok(')')))
    }
}

// ---------------------------------------------------------------------
// Statement grammar.
// ---------------------------------------------------------------------

/// Statement entry point.
fn x_statement(input: &str, n: usize, pos: usize, depth: usize) -> (r: ParseResult<Statement>)
    requires
        n == input@.len(),
        pos <= n,
    ensures
        (match r {
            Ok(v) => crate::grammar::spec_parse_statement(input@, pos as int, depth as nat)
                == Ok::<_, SpecParseError>((v.0.dview(), v.1 as int)) && v.1 <= n,
            Err(e) => crate::grammar::spec_parse_statement(input@, pos as int, depth as nat)
                == Err::<(crate::ast::SpecStatement, int), _>(e.dview()),
        }),
    decreases depth, 1int,
{
    match x_statement_core(input, n, pos, depth) {
        Ok(v) => Ok(v),
        Err(e) => Err(with_context(e, ParseContext::Statement)),
    }
}

/// The body of `x_statement`, before the context label is attached.
fn x_statement_core(input: &str, n: usize, pos: usize, depth: usize) -> (r: ParseResult<Statement>)
    requires
        n == input@.len(),
        pos <= n,
    ensures
        (match r {
            Ok(v) => crate::grammar::spec_parse_statement_core(input@, pos as int, depth as nat)
                == Ok::<_, SpecParseError>((v.0.dview(), v.1 as int)) && v.1 <= n,
            Err(e) => crate::grammar::spec_parse_statement_core(input@, pos as int, depth as nat)
                == Err::<(crate::ast::SpecStatement, int), _>(e.dview()),
        }),
    decreases depth, 0int,
{
    if depth == 0 {
        return Err(error_at(ErrorKind::NestingTooDeep, pos));
    }
    if x_kw_return(input, n, pos) {
        x_return(input, n, pos, depth - 1)
    } else if x_kw_if(input, n, pos) {
        x_if(input, n, pos, depth - 1)
    } else if x_kw_while(input, n, pos) || x_kw_for(input, n, pos) {
        Err(error_at(ErrorKind::UnsupportedConstruct, pos))
    } else if pos < n && input.get_char(pos) == '{' {
        match x_compound(input, n, pos, depth - 1) {
            Ok((c, p)) => Ok((Statement::CompoundStmt(c), p)),
            Err(e) => Err(e),
        }
    } else {
        match x_expression(input, n, pos, depth - 1) {
            Ok((e, p)) => {
                let r2 = x_skip_ws(input, n, p);
                if r2 < n && input.get_char(r2) == ';' {
                    Ok((Statement::ExpressionStmt(e), r2 + 1))
                } else {
                    Err(fail_at(input, n, r2, Expected::Tok(';')))
                }
            },
            Err(e) => Err(e),
        }
    }
}

/// Return statement.
fn x_return(input: &str, n: usize, pos: usize, depth: usize) -> (r: ParseResult<Statement>)
    requires
        n == input@.len(),
        pos <= n,
    ensures
        (match r {
            Ok(v) => crate::grammar::spec_parse_return(input@, pos as int, depth as nat) == Ok::<
                _,
                SpecParseError,
            >((v.0.dview(), v.1 as int)) && v.1 <= n,
            Err(e) => crate::grammar::spec_parse_return(input@, pos as int, depth as nat) == Err::<
                (crate::ast::SpecStatement, int),
                _,
            >(e.dview()),
        }),
    decreases depth, 1int,
{
    match x_return_core(input, n, pos, depth) {
        Ok(v) => Ok(v),
        Err(e) => Err(with_context(e, ParseContext::ReturnStatement)),
    }
}

/// The body of `x_return`, before the context label is attached.
fn x_return_core(input: &str, n: usize, pos: usize, depth: usize) -> (r: ParseResult<Statement>)
    requires
        n == input@.len(),
        pos <= n,
    ensures
        (match r {
            Ok(v) => crate::grammar::spec_parse_return_core(input@, pos as int, depth as nat)
                == Ok::<_, SpecParseError>((v.0.dview(), v.1 as int)) && v.1 <= n,
            Err(e) => crate::grammar::spec_parse_return_core(input@, pos as int, depth as nat)
                == Err::<(crate::ast::SpecStatement, int), _>(e.dview()),
        }),
    decreases depth, 0int,
{
    if depth == 0 {
        return Err(error_at(ErrorKind::NestingTooDeep, pos));
    }
    if !x_kw_return(input, n, pos) {
        return Err(fail_at(input, n, pos, Expected::KeywordReturn));
    }
    let q = x_skip_ws(input, n, pos + 6);
    match x_expression(input, n, q, depth - 1) {
        Ok((e, p)) => {
            let r2 = x_skip_ws(input, n, p);
            if r2 < n && input.get_char(r2) == ';' {
                Ok((Statement::ReturnStmt(e), r2 + 1))
            } else {
                Err(fail_at(input, n, r2, Expected::Tok(';')))
            }
        },
        Err(e) => Err(e),
    }
}

/// Conditional statement.
fn x_if(input: &str, n: usize, pos: usize, depth: usize) -> (r: ParseResult<Statement>)
    requires
        n == input@.len(),
        pos <= n,
        kw_at(input@, pos as int, kw_if()),
    ensures
        (match r {
            Ok(v) => crate::grammar::spec_parse_if(input@, pos as int, depth as nat) == Ok::<
                _,
                SpecParseError,
            >((v.0.dview(), v.1 as int)) && v.1 <= n,
            Err(e) => crate::grammar::spec_parse_if(input@, pos as int, depth as nat) == Err::<
                (crate::ast::SpecStatement, int),
                _,
            >(e.dview()),
        }),
    decreases depth, 1int,
{
    match x_if_core(input, n, pos, depth) {
        Ok(v) => Ok(v),
        Err(e) => Err(with_context(e, ParseContext::IfStatement)),
    }
}

/// The body of `x_if`, before the context label is attached.
#[verifier::rlimit(100)]
#[verifier::spinoff_prover]
fn x_if_core(input: &str, n: usize, pos: usize, depth: usize) -> (r: ParseResult<Statement>)
    requires
        n == input@.len(),
        pos <= n,
        kw_at(input@, pos as int, kw_if()),
    ensures
        (match r {
            Ok(v) => crate::grammar::spec_parse_if_core(input@, pos as int, depth as nat) == Ok::<
                _,
                SpecParseError,
            >((v.0.dview(), v.1 as int)) && v.1 <= n,
            Err(e) => crate::grammar::spec_parse_if_core(input@, pos as int, depth as nat)
                == Err::<(crate::ast::SpecStatement, int), _>(e.dview()),
        }),
    decreases depth, 0int,
{
    if depth == 0 {
        return Err(error_at(ErrorKind::NestingTooDeep, pos));
    }
    let p1 = x_skip_ws(input, n, pos + 2);
    if p1 >= n || input.get_char(p1) != '(' {
        return Err(fail_at(input, n, p1, Expected::Tok('(')));
    }
    let q = x_skip_ws(input, n, p1 + 1);
    let parsed_cond = x_expression(input, n, q, depth - 1);
    let (cond, p2) = match parsed_cond {
        Ok(v) => v,
        Err(e) => {
            return Err(e);
        },
    };
    let r2 = x_skip_ws(input, n, p2);
    if r2 >= n || input.get_char(r2) != ')' {
        return Err(fail_at(input, n, r2, Expected::Tok(')')));
    }
    let b = x_skip_ws(input, n, r2 + 1);
    let parsed_body = x_statement(input, n, b, depth - 1);
    let (body, p3) = match parsed_body {
        Ok(v) => v,
        Err(e) => {
            return Err(e);
        },
    };
    let e1 = x_skip_ws(input, n, p3);
    if x_kw_else(input, n, e1) {
        let e2 = x_skip_ws(input, n, e1 + 4);
        match x_statement(input, n, e2, depth - 1) {
            Ok((els, p4)) => Ok(
                (
                    Statement::IfThenStmt {
                        condition: Box::new(cond),
                        body: Box::new(body),
                        else_body: Option::Some(Box::new(els)),
                    },
                    p4,
                ),
            ),
            Err(e) => Err(e),
        }
    } else {
        Ok(
            (
                Statement::IfThenStmt {
                    condition: Box::new(cond),
                    body: Box::new(body),
                    else_body: Option::None,
                },
                p3,
            ),
        )
    }
}

/// Compound statement.
fn x_compound(input: &str, n: usize, pos: usize, depth: usize) -> (r: ParseResult<
    CompoundStatement,
>)
    requires
        n == input@.len(),
        pos <= n,
    ensures
        (match r {
            Ok(v) => crate::grammar::spec_parse_compound(input@, pos as int, depth as nat) == Ok::<
                _,
                SpecParseError,
            >((v.0.dview(), v.1 as int)) && v.1 <= n,
            Err(e) => crate::grammar::spec_parse_compound(input@, pos as int, depth as nat)
                == Err::<(crate::ast::SpecCompoundStatement, int), _>(e.dview()),
        }),
    decreases depth, 1int,
{
    match x_compound_core(input, n, pos, depth) {
        Ok(v) => Ok(v),
        Err(e) => Err(with_context(e, ParseContext::CompoundStatement)),
    }
}

/// The body of `x_compound`, before the context label is attached.
fn x_compound_core(input: &str, n: usize, pos: usize, depth: usize) -> (r: ParseResult<
    CompoundStatement,
>)
    requires
        n == input@.len(),
        pos <= n,
    ensures
        (match r {
            Ok(v) => crate::grammar::spec_parse_compound_core(input@, pos as int, depth as nat)
                == Ok::<_, SpecParseError>((v.0.dview(), v.1 as int)) && v.1 <= n,
            Err(e) => crate::grammar::spec_parse_compound_core(input@, pos as int, depth as nat)
                == Err::<(crate::ast::SpecCompoundStatement, int), _>(e.dview()),
        }),
    decreases depth, 0int,
{
    if depth == 0 {
        return Err(error_at(ErrorKind::NestingTooDeep, pos));
    }
    if pos < n && input.get_char(pos) == '{' {
        let start = x_skip_ws(input, n, pos + 1);
        let acc: Vec<Statement> = Vec::new();
        proof {
            assert(dview_statements(acc@) =~= Seq::<crate::ast::SpecStatement>::empty());
        }
        x_statement_list(input, n, start, depth - 1, acc)
    } else {
        Err(fail_at(input, n, pos, Expected::Tok('{')))
    }
}

/// The statements of a compound statement, up to and including the
/// closing brace.
fn x_statement_list(input: &str, n: usize, pos: usize, depth: usize, acc: Vec<Statement>) -> (r:
    ParseResult<CompoundStatement>)
    requires
        n == input@.len(),
        pos <= n,
    ensures
        (match r {
            Ok(v) => crate::grammar::spec_parse_statement_list(
                input@,
                pos as int,
                depth as nat,
                dview_statements(acc@),
            ) == Ok::<_, SpecParseError>((v.0.dview(), v.1 as int)) && v.1 <= n,
            Err(e) => crate::grammar::spec_parse_statement_list(
                input@,
                pos as int,
                depth as nat,
                dview_statements(acc@),
            ) == Err::<(crate::ast::SpecCompoundStatement, int), _>(e.dview()),
        }),
    decreases depth, 0int,
{
    if depth == 0 {
        return Err(error_at(ErrorKind::NestingTooDeep, pos));
    }
    if pos >= n {
        Err(fail_at(input, n, pos, Expected::Tok('}')))
    } else if input.get_char(pos) == '}' {
        Ok((CompoundStatement { statements: acc }, pos + 1))
    } else {
        match x_statement(input, n, pos, depth - 1) {
            Ok((st, p)) => {
                let mut acc = acc;
                let ghost a0 = acc@;
                acc.push(st);
                proof {
                    crate::ast::lemma_dview_statements_push(a0, acc@.last());
                    assert(acc@ == a0.push(acc@.last()));
                }
                let next = x_skip_ws(input, n, p);
                x_statement_list(input, n, next, depth - 1, acc)
            },
            Err(e) => Err(e),
        }
    }
}

// ---------------------------------------------------------------------
// Declarations and the program assembler.
// ---------------------------------------------------------------------

/// Parameter: type specifier, mandatory whitespace, identifier.
fn x_parameter(input: &str, n: usize, pos: usize) -> (r: ParseResult<FunctionParameter>)
    requires
        n == input@.len(),
        pos <= n,
    ensures
        (match r {
            Ok(v) => crate::grammar::spec_parse_parameter(input@, pos as int) == Ok::<
                _,
                SpecParseError,
            >((v.0.dview(), v.1 as int)) && v.1 <= n,
            Err(e) => crate::grammar::spec_parse_parameter(input@, pos as int) == Err::<
                (crate::ast::SpecFunctionParameter, int),
                _,
            >(e.dview()),
        }),
{
    match x_parameter_core(input, n, pos) {
        Ok(v) => Ok(v),
        Err(e) => Err(with_context(e, ParseContext::Parameter)),
    }
}

/// The body of `x_parameter`, before the context label is attached.
fn x_parameter_core(input: &str, n: usize, pos: usize) -> (r: ParseResult<FunctionParameter>)
    requires
        n == input@.len(),
        pos <= n,
    ensures
        (match r {
            Ok(v) => crate::grammar::spec_parse_parameter_core(input@, pos as int) == Ok::<
                _,
                SpecParseError,
            >((v.0.dview(), v.1 as int)) && v.1 <= n,
            Err(e) => crate::grammar::spec_parse_parameter_core(input@, pos as int) == Err::<
                (crate::ast::SpecFunctionParameter, int),
                _,
            >(e.dview()),
        }),
{
    match type_specifier_at(input, n, pos) {
        Ok((t, p)) => {
            if p < n && x_space(input.get_char(p)) {
                let q = x_skip_ws(input, n, p);
                match ident_at(input, n, q) {
                    Ok((name, p2)) => Ok((FunctionParameter { type_specifier: t, name }, p2)),
                    Err(e) => Err(e),
                }
            } else {
                Err(fail_at(input, n, p, Expected::Whitespace))
            }
        },
        Err(e) => Err(e),
    }
}

/// Further comma-separated parameters.
fn x_parameter_list_rest(
    input: &str,
    n: usize,
    pos: usize,
    depth: usize,
    acc: Vec<FunctionParameter>,
) -> (r: ParseResult<Vec<FunctionParameter>>)
    requires
        n == input@.len(),
        pos <= n,
    ensures
        (match r {
            Ok(v) => crate::grammar::spec_parse_parameter_list_rest(
                input@,
                pos as int,
                depth as nat,
                dview_parameters(acc@),
            ) == Ok::<_, SpecParseError>((dview_parameters(v.0@), v.1 as int)) && v.1 <= n,
            Err(e) => crate::grammar::spec_parse_parameter_list_rest(
                input@,
                pos as int,
                depth as nat,
                dview_parameters(acc@),
            ) == Err::<(Seq<crate::ast::SpecFunctionParameter>, int), _>(e.dview()),
        }),
    decreases depth, 0int,
{
    if depth == 0 {
        return Err(error_at(ErrorKind::NestingTooDeep, pos));
    }
    let p = x_skip_ws(input, n, pos);
    if p < n && input.get_char(p) == ',' {
        let q = x_skip_ws(input, n, p + 1);
        match x_parameter(input, n, q) {
            Ok((pr, p2)) => {
                let mut acc = acc;
                let ghost a0 = acc@;
                acc.push(pr);
                proof {
                    crate::ast::lemma_dview_parameters_push(a0, acc@.last());
                    assert(acc@ == a0.push(acc@.last()));
                }
                x_parameter_list_rest(input, n, p2, depth - 1, acc)
            },
            Err(e) => Err(e),
        }
    } else {
        Ok((acc, pos))
    }
}

/// A possibly empty parameter list followed by the closing parenthesis.
fn x_params_and_close(input: &str, n: usize, pos: usize, depth: usize) -> (r: ParseResult<
    Vec<FunctionParameter>,
>)
    requires
        n == input@.len(),
        pos <= n,
    ensures
        (match r {
            Ok(v) => crate::grammar::spec_parse_params_and_close(input@, pos as int, depth as nat)
                == Ok::<_, SpecParseError>((dview_parameters(v.0@), v.1 as int)) && v.1 <= n,
            Err(e) => crate::grammar::spec_parse_params_and_close(input@, pos as int, depth as nat)
                == Err::<(Seq<crate::ast::SpecFunctionParameter>, int), _>(e.dview()),
        }),
    decreases depth, 0int,
{
    if depth == 0 {
        return Err(error_at(ErrorKind::NestingTooDeep, pos));
    }
    if pos < n && input.get_char(pos) == ')' {
        let acc: Vec<FunctionParameter> = Vec::new();
        proof {
            assert(dview_parameters(acc@) =~= Seq::<crate::ast::SpecFunctionParameter>::empty());
        }
        Ok((acc, pos + 1))
    } else {
        match x_parameter(input, n, pos) {
            Ok((pr, pb)) => {
                let mut acc: Vec<FunctionParameter> = Vec::new();
                let ghost pv = pr.dview();
                acc.push(pr);
                proof {
                    crate::ast::lemma_dview_parameters_push(Seq::empty(), acc@.last());
                    assert(acc@ =~= Seq::empty().push(acc@.last()));
                    assert(dview_parameters(Seq::<FunctionParameter>::empty()) =~= Seq::<
                        crate::ast::SpecFunctionParameter,
                    >::empty());
                    assert(dview_parameters(acc@) =~= seq![pv]);
                }
                match x_parameter_list_rest(input, n, pb, depth - 1, acc) {
                    Ok((params, pc)) => {
                        let rc = x_skip_ws(input, n, pc);
                        if rc < n && input.get_char(rc) == ')' {
                            Ok((params, rc + 1))
                        } else {
                            Err(fail_at(input, n, rc, Expected::Tok(')')))
                        }
                    },
                    Err(e) => Err(e),
                }
            },
            Err(e) => Err(e),
        }
    }
}

/// Function definition.
fn x_function_definition(input: &str, n: usize, pos: usize, depth: usize) -> (r: ParseResult<
    FunctionDefinition,
>)
    requires
        n == input@.len(),
        pos <= n,
    ensures
        (match r {
            Ok(v) => crate::grammar::spec_parse_function_definition(
                input@,
                pos as int,
                depth as nat,
            ) == Ok::<_, SpecParseError>((v.0.dview(), v.1 as int)) && v.1 <= n,
            Err(e) => crate::grammar::spec_parse_function_definition(
                input@,
                pos as int,
                depth as nat,
            ) == Err::<(crate::ast::SpecFunctionDefinition, int), _>(e.dview()),
        }),
    decreases depth, 1int,
{
    match x_function_definition_core(input, n, pos, depth) {
        Ok(v) => Ok(v),
        Err(e) => Err(with_context(e, ParseContext::FunctionDefinition)),
    }
}

/// The body of `x_function_definition`, before the context label is
/// attached.
fn x_function_definition_core(input: &str, n: usize, pos: usize, depth: usize) -> (r: ParseResult<
    FunctionDefinition,
>)
    requires
        n == input@.len(),
        pos <= n,
    ensures
        (match r {
            Ok(v) => crate::grammar::spec_parse_function_definition_core(
                input@,
                pos as int,
                depth as nat,
            ) == Ok::<_, SpecParseError>((v.0.dview(), v.1 as int)) && v.1 <= n,
            Err(e) => crate::grammar::spec_parse_function_definition_core(
                input@,
                pos as int,
                depth as nat,
            ) == Err::<(crate::ast::SpecFunctionDefinition, int), _>(e.dview()),
        }),
    decreases depth, 0int,
{
    if depth == 0 {
        return Err(error_at(ErrorKind::NestingTooDeep, pos));
    }
    match type_specifier_at(input, n, pos) {
        Ok((t, p0)) => {
            if p0 < n && x_space(input.get_char(p0)) {
                let q0 = x_skip_ws(input, n, p0);
                match ident_at(input, n, q0) {
                    Ok((name, p1)) => {
                        let r2 = x_skip_ws(input, n, p1);
                        if r2 < n && input.get_char(r2) == '(' {
                            let a = x_skip_ws(input, n, r2 + 1);
                            match x_params_and_close(input, n, a, depth - 1) {
                                Ok((params, pp)) => {
                                    let b = x_skip_ws(input, n, pp);
                                    match x_compound(input, n, b, depth - 1) {
                                        Ok((body, pe)) => Ok(
                                            (
                                                FunctionDefinition {
                                                    return_type: t,
                                                    name,
                                                    parameters: params,
                                                    body,
                                                },
                                                pe,
                                            ),
                                        ),
                                        Err(e) => Err(e),
                                    }
                                },
                                Err(e) => Err(e),
                            }
                        } else {
                            Err(fail_at(input, n, r2, Expected::Tok('(')))
                        }
                    },
                    Err(e) => Err(e),
                }
            } else {
                Err(fail_at(input, n, p0, Expected::Whitespace))
            }
        },
        Err(e) => Err(e),
    }
}

/// Init declarator.
fn x_init_declarator(input: &str, n: usize, pos: usize, depth: usize) -> (r: ParseResult<
    InitDeclarator,
>)
    requires
        n == input@.len(),
        pos <= n,
    ensures
        (match r {
            Ok(v) => crate::grammar::spec_parse_init_declarator(input@, pos as int, depth as nat)
                == Ok::<_, SpecParseError>((v.0.dview(), v.1 as int)) && v.1 <= n,
            Err(e) => crate::grammar::spec_parse_init_declarator(input@, pos as int, depth as nat)
                == Err::<(crate::ast::SpecInitDeclarator, int), _>(e.dview()),
        }),
    decreases depth, 0int,
{
    if depth == 0 {
        return Err(error_at(ErrorKind::NestingTooDeep, pos));
    }
    match ident_at(input, n, pos) {
        Ok((name, p)) => {
            let q = x_skip_ws(input, n, p);
            if q < n && input.get_char(q) == '=' && (q + 1 >= n || input.get_char(q + 1) != '=') {
                let w = x_skip_ws(input, n, q + 1);
                match x_expression(input, n, w, depth - 1) {
                    Ok((e, p2)) => Ok(
                        (InitDeclarator { name, initializer: Option::Some(e) }, p2),
                    ),
                    Err(e) => Err(e),
                }
            } else {
                Ok((InitDeclarator { name, initializer: Option::None }, p))
            }
        },
        Err(e) => Err(e),
    }
}

/// Further comma-separated init declarators, up to and including the
/// terminating semicolon.
fn x_init_declarator_list_rest(
    input: &str,
    n: usize,
    pos: usize,
    depth: usize,
    acc: Vec<InitDeclarator>,
) -> (r: ParseResult<Vec<InitDeclarator>>)
    requires
        n == input@.len(),
        pos <= n,
    ensures
        (match r {
            Ok(v) => crate::grammar::spec_parse_init_declarator_list_rest(
                input@,
                pos as int,
                depth as nat,
                dview_init_declarators(acc@),
            ) == Ok::<_, SpecParseError>((dview_init_declarators(v.0@), v.1 as int)) && v.1 <= n,
            Err(e) => crate::grammar::spec_parse_init_declarator_list_rest(
                input@,
                pos as int,
                depth as nat,
                dview_init_declarators(acc@),
            ) == Err::<(Seq<crate::ast::SpecInitDeclarator>, int), _>(e.dview()),
        }),
    decreases depth, 0int,
{
    if depth == 0 {
        return Err(error_at(ErrorKind::NestingTooDeep, pos));
    }
    let p = x_skip_ws(input, n, pos);
    if p < n && input.get_char(p) == ',' {
        let q = x_skip_ws(input, n, p + 1);
        match x_init_declarator(input, n, q, depth - 1) {
            Ok((d, p2)) => {
                let mut acc = acc;
                let ghost a0 = acc@;
                acc.push(d);
                proof {
                    crate::ast::lemma_dview_init_declarators_push(a0, acc@.last());
                    assert(acc@ == a0.push(acc@.last()));
                }
                x_init_declarator_list_rest(input, n, p2, depth - 1, acc)
            },
            Err(e) => Err(e),
        }
    } else if p < n && input.get_char(p) == ';' {
        Ok((acc, p + 1))
    } else {
        Err(fail_at(input, n, p, Expected::Tok(';')))
    }
}

/// Global variable declaration.
fn x_global_declaration(input: &str, n: usize, pos: usize, depth: usize) -> (r: ParseResult<
    VariableDeclaration,
>)
    requires
        n == input@.len(),
        pos <= n,
    ensures
        (match r {
            Ok(v) => crate::grammar::spec_parse_global_declaration(
                input@,
                pos as int,
                depth as nat,
            ) == Ok::<_, SpecParseError>((v.0.dview(), v.1 as int)) && v.1 <= n,
            Err(e) => crate::grammar::spec_parse_global_declaration(
                input@,
                pos as int,
                depth as nat,
            ) == Err::<(crate::ast::SpecVariableDeclaration, int), _>(e.dview()),
        }),
    decreases depth, 1int,
{
    match x_global_declaration_core(input, n, pos, depth) {
        Ok(v) => Ok(v),
        Err(e) => Err(with_context(e, ParseContext::GlobalDeclaration)),
    }
}

/// The body of `x_global_declaration`, before the context label is
/// attached.
fn x_global_declaration_core(input: &str, n: usize, pos: usize, depth: usize) -> (r: ParseResult<
    VariableDeclaration,
>)
    requires
        n == input@.len(),
        pos <= n,
    ensures
        (match r {
            Ok(v) => crate::grammar::spec_parse_global_declaration_core(
                input@,
                pos as int,
                depth as nat,
            ) == Ok::<_, SpecParseError>((v.0.dview(), v.1 as int)) && v.1 <= n,
            Err(e) => crate::grammar::spec_parse_global_declaration_core(
                input@,
                pos as int,
                depth as nat,
            ) == Err::<(crate::ast::SpecVariableDeclaration, int), _>(e.dview()),
        }),
    decreases depth, 0int,
{
    if depth == 0 {
        return Err(error_at(ErrorKind::NestingTooDeep, pos));
    }
    match type_specifier_at(input, n, pos) {
        Ok((t, p0)) => {
            if p0 < n && x_space(input.get_char(p0)) {
                let q0 = x_skip_ws(input, n, p0);
                match x_init_declarator(input, n, q0, depth - 1) {
                    Ok((d0, p1)) => {
                        let mut acc: Vec<InitDeclarator> = Vec::new();
                        let ghost dv = d0.dview();
                        acc.push(d0);
                        proof {
                            crate::ast::lemma_dview_init_declarators_push(
                                Seq::empty(),
                                acc@.last(),
                            );
                            assert(acc@ =~= Seq::empty().push(acc@.last()));
                            assert(dview_init_declarators(Seq::<InitDeclarator>::empty()) =~= Seq::<
                                crate::ast::SpecInitDeclarator,
                            >::empty());
                            assert(dview_init_declarators(acc@) =~= seq![dv]);
                        }
                        match x_init_declarator_list_rest(input, n, p1, depth - 1, acc) {
                            Ok((ds, p2)) => Ok(
                                (
                                    VariableDeclaration {
                                        type_specifier: t,
                                        init_declarators: ds,
                                    },
                                    p2,
                                ),
                            ),
                            Err(e) => Err(e),
                        }
                    },
                    Err(e) => Err(e),
                }
            } else {
                Err(fail_at(input, n, p0, Expected::Whitespace))
            }
        },
        Err(e) => Err(e),
    }
}

/// External declaration: a function definition, else a global variable
/// declaration, tried in that fixed order; on a double failure the
/// error that reached further wins.
fn x_external_declaration(input: &str, n: usize, pos: usize, depth: usize) -> (r: ParseResult<
    ExternalDeclaration,
>)
    requires
        n == input@.len(),
        pos <= n,
    ensures
        (match r {
            Ok(v) => crate::grammar::spec_parse_external_declaration(
                input@,
                pos as int,
                depth as nat,
            ) == Ok::<_, SpecParseError>((v.0.dview(), v.1 as int)) && v.1 <= n,
            Err(e) => crate::grammar::spec_parse_external_declaration(
                input@,
                pos as int,
                depth as nat,
            ) == Err::<(crate::ast::SpecExternalDeclaration, int), _>(e.dview()),
        }),
    decreases depth, 0int,
{
    if depth == 0 {
        return Err(error_at(ErrorKind::NestingTooDeep, pos));
    }
    if x_kw_struct(input, n, pos) || x_kw_typedef(input, n, pos) {
        return Err(error_at(ErrorKind::UnsupportedConstruct, pos));
    }
    match x_function_definition(input, n, pos, depth - 1) {
        Ok((f, p)) => Ok((ExternalDeclaration::FunctionDef(f), p)),
        Err(ef) => match x_global_declaration(input, n, pos, depth - 1) {
            Ok((g, p)) => Ok((ExternalDeclaration::GlobalVar(g), p)),
            Err(eg) => Err(
                if eg.offset > ef.offset {
                    eg
                } else {
                    ef
                },
            ),
        },
    }
}

/// The external declarations of a program, to the end of the input.
fn x_program_rest(input: &str, n: usize, pos: usize, depth: usize, acc: Vec<ExternalDeclaration>)
    -> (r: Result<Program, ParseError>)
    requires
        n == input@.len(),
        pos <= n,
    ensures
        (match r {
            Ok(p) => crate::grammar::spec_parse_program_rest(
                input@,
                pos as int,
                depth as nat,
                dview_external_declarations(acc@),
            ) == Ok::<_, SpecParseError>(p.dview()),
            Err(e) => crate::grammar::spec_parse_program_rest(
                input@,
                pos as int,
                depth as nat,
                dview_external_declarations(acc@),
            ) == Err::<crate::ast::SpecProgram, _>(e.dview()),
        }),
    decreases depth, 0int,
{
    if pos >= n {
        return Ok(Program { external_declarations: acc });
    }
    if depth == 0 {
        return Err(error_at(ErrorKind::NestingTooDeep, pos));
    }
    match x_external_declaration(input, n, pos, depth - 1) {
        Ok((d, p)) => {
            let mut acc = acc;
            let ghost a0 = acc@;
            acc.push(d);
            proof {
                crate::ast::lemma_dview_external_declarations_push(a0, acc@.last());
                assert(acc@ == a0.push(acc@.last()));
            }
            let next = x_skip_ws(input, n, p);
            x_program_rest(input, n, next, depth - 1, acc)
        },
        Err(e) => Err(e),
    }
}

// ---------------------------------------------------------------------
// The public parsing interface.  Each function states exactly what it
// returns: the node and next position (or the failure) that the grammar
// in `grammar` assigns to its input.
// ---------------------------------------------------------------------

/// Parse an identifier: one or more ASCII letters, consumed greedily.
pub fn parse_identifier(input: &str, pos: usize) -> (r: ParseResult<String>)
    requires
        pos <= input@.len(),
    ensures
        (match r {
            Ok(v) => spec_parse_identifier(input@, pos as int) == Ok::<_, SpecParseError>(
                (v.0@, v.1 as int),
            ),
            Err(e) => spec_parse_identifier(input@, pos as int) == Err::<(Seq<char>, int), _>(
                e.dview(),
            ),
        }),
{
    let n = input.unicode_len();
    ident_at(input, n, pos)
}

/// Parse a type specifier: `void`, `char`, `int` or `float`, ending at
/// a word boundary.
pub fn parse_type_specifier(input: &str, pos: usize) -> (r: ParseResult<TypeSpecifier>)
    requires
        pos <= input@.len(),
    ensures
        (match r {
            Ok(v) => spec_parse_type_specifier(input@, pos as int) == Ok::<_, SpecParseError>(
                (v.0, v.1 as int),
            ),
            Err(e) => spec_parse_type_specifier(input@, pos as int) == Err::<
                (TypeSpecifier, int),
                _,
            >(e.dview()),
        }),
{
    let n = input.unicode_len();
    type_specifier_at(input, n, pos)
}

/// Parse an integer constant into an `Expression::Constant`, failing
/// with `ErrorKind::NumericOverflow` on a literal beyond the 32-bit
/// signed range.
pub fn parse_constant(input: &str, pos: usize) -> (r: ParseResult<Expression>)
    requires
        pos <= input@.len(),
    ensures
        (match r {
            Ok(v) => spec_parse_constant(input@, pos as int) == Ok::<_, SpecParseError>(
                (v.0.dview(), v.1 as int),
            ),
            Err(e) => spec_parse_constant(input@, pos as int) == Err::<(SpecExpression, int), _>(
                e.dview(),
            ),
        }),
{
    let n = input.unicode_len();
    constant_at(input, n, pos)
}

/// Parse a parameter: a type specifier, mandatory whitespace, and an
/// identifier.
pub fn parse_parameter(input: &str, pos: usize) -> (r: ParseResult<FunctionParameter>)
    requires
        pos <= input@.len(),
    ensures
        (match r {
            Ok(v) => crate::grammar::spec_parse_parameter(input@, pos as int) == Ok::<
                _,
                SpecParseError,
            >((v.0.dview(), v.1 as int)),
            Err(e) => crate::grammar::spec_parse_parameter(input@, pos as int) == Err::<
                (crate::ast::SpecFunctionParameter, int),
                _,
            >(e.dview()),
        }),
{
    let n = input.unicode_len();
    x_parameter(input, n, pos)
}

/// Parse a binary-operator expression: the full expression grammar with
/// precedence and left associativity, under the configured recursion
/// limit.
pub fn parse_binary_op(input: &str, pos: usize) -> (r: ParseResult<Expression>)
    requires
        pos <= input@.len(),
    ensures
        (match r {
            Ok(v) => crate::grammar::spec_parse_expression(
                input@,
                pos as int,
                RECURSION_LIMIT as nat,
            ) == Ok::<_, SpecParseError>((v.0.dview(), v.1 as int)),
            Err(e) => crate::grammar::spec_parse_expression(
                input@,
                pos as int,
                RECURSION_LIMIT as nat,
            ) == Err::<(SpecExpression, int), _>(e.dview()),
        }),
{
    let n = input.unicode_len();
    x_expression(input, n, pos, RECURSION_LIMIT)
}

/// Parse a statement, under the configured recursion limit.
pub fn parse_statement(input: &str, pos: usize) -> (r: ParseResult<Statement>)
    requires
        pos <= input@.len(),
    ensures
        (match r {
            Ok(v) => crate::grammar::spec_parse_statement(
                input@,
                pos as int,
                RECURSION_LIMIT as nat,
            ) == Ok::<_, SpecParseError>((v.0.dview(), v.1 as int)),
            Err(e) => crate::grammar::spec_parse_statement(
                input@,
                pos as int,
                RECURSION_LIMIT as nat,
            ) == Err::<(crate::ast::SpecStatement, int), _>(e.dview()),
        }),
{
    let n = input.unicode_len();
    x_statement(input, n, pos, RECURSION_LIMIT)
}

/// Parse a return statement, under the configured recursion limit.
pub fn parse_return_statement(input: &str, pos: usize) -> (r: ParseResult<Statement>)
    requires
        pos <= input@.len(),
    ensures
        (match r {
            Ok(v) => crate::grammar::spec_parse_return(input@, pos as int, RECURSION_LIMIT as nat)
                == Ok::<_, SpecParseError>((v.0.dview(), v.1 as int)),
            Err(e) => crate::grammar::spec_parse_return(input@, pos as int, RECURSION_LIMIT as nat)
                == Err::<(crate::ast::SpecStatement, int), _>(e.dview()),
        }),
{
    let n = input.unicode_len();
    x_return(input, n, pos, RECURSION_LIMIT)
}

/// Parse a compound statement, under the configured recursion limit.
pub fn parse_compound_statement(input: &str, pos: usize) -> (r: ParseResult<CompoundStatement>)
    requires
        pos <= input@.len(),
    ensures
        (match r {
            Ok(v) => crate::grammar::spec_parse_compound(
                input@,
                pos as int,
                RECURSION_LIMIT as nat,
            ) == Ok::<_, SpecParseError>((v.0.dview(), v.1 as int)),
            Err(e) => crate::grammar::spec_parse_compound(
                input@,
                pos as int,
                RECURSION_LIMIT as nat,
            ) == Err::<(crate::ast::SpecCompoundStatement, int), _>(e.dview()),
        }),
{
    let n = input.unicode_len();
    x_compound(input, n, pos, RECURSION_LIMIT)
}

/// Parse a function definition, under the configured recursion limit.
pub fn parse_function_definition(input: &str, pos: usize) -> (r: ParseResult<FunctionDefinition>)
    requires
        pos <= input@.len(),
    ensures
        (match r {
            Ok(v) => crate::grammar::spec_parse_function_definition(
                input@,
                pos as int,
                RECURSION_LIMIT as nat,
            ) == Ok::<_, SpecParseError>((v.0.dview(), v.1 as int)),
            Err(e) => crate::grammar::spec_parse_function_definition(
                input@,
                pos as int,
                RECURSION_LIMIT as nat,
            ) == Err::<(crate::ast::SpecFunctionDefinition, int), _>(e.dview()),
        }),
{
    let n = input.unicode_len();
    x_function_definition(input, n, pos, RECURSION_LIMIT)
}

/// Parse a global variable declaration, under the configured recursion
/// limit.
pub fn parse_global_variable_declaration(input: &str, pos: usize) -> (r: ParseResult<
    VariableDeclaration,
>)
    requires
        pos <= input@.len(),
    ensures
        (match r {
            Ok(v) => crate::grammar::spec_parse_global_declaration(
                input@,
                pos as int,
                RECURSION_LIMIT as nat,
            ) == Ok::<_, SpecParseError>((v.0.dview(), v.1 as int)),
            Err(e) => crate::grammar::spec_parse_global_declaration(
                input@,
                pos as int,
                RECURSION_LIMIT as nat,
            ) == Err::<(crate::ast::SpecVariableDeclaration, int), _>(e.dview()),
        }),
{
    let n = input.unicode_len();
    x_global_declaration(input, n, pos, RECURSION_LIMIT)
}

/// Parse a whole program: external declarations until the input is
/// exhausted.  On failure the error carries the offset of the first
/// unparsable character, the unmet expectation, and the active grammar
/// rules.
pub fn parse_program(input: &str) -> (r: Result<Program, ParseError>)
    ensures
        (match r {
            Ok(p) => crate::grammar::spec_parse_program(input@) == Ok::<_, SpecParseError>(
                p.dview(),
            ),
            Err(e) => crate::grammar::spec_parse_program(input@) == Err::<
                crate::ast::SpecProgram,
                _,
            >(e.dview()),
        }),
{
    let n = input.unicode_len();
    let start = x_skip_ws(input, n, 0);
    let acc: Vec<ExternalDeclaration> = Vec::new();
    proof {
        assert(dview_external_declarations(acc@) =~= Seq::<
            crate::ast::SpecExternalDeclaration,
        >::empty());
    }
    x_program_rest(input, n, start, RECURSION_LIMIT, acc)
}

} // verus!
