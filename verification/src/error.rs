//! Structured parse failures.
//!
//! A failure carries the offset of the first unparsable character, the
//! kind of failure, and a stack of context labels naming the grammar
//! rules that were active, innermost first.

use vstd::prelude::*;

verus! {

/// Grammar rules that label diagnostic context frames.
#[derive(Clone, Copy, Debug, PartialEq, Eq, Structural)]
pub enum ParseContext {
    Expression,
    Statement,
    ReturnStatement,
    IfStatement,
    CompoundStatement,
    Parameter,
    FunctionDefinition,
    GlobalDeclaration,
}

/// The specific token or construct that a failing rule was looking for.
#[derive(Clone, Copy, Debug, PartialEq, Eq, Structural)]
pub enum Expected {
    /// An ASCII letter, at the start of an identifier.
    Letter,
    /// A decimal digit, at the start of an integer constant.
    Digit,
    /// One of the type keywords `void`, `char`, `int`, `float`.
    TypeKeyword,
    /// At least one whitespace character, as a mandatory separator.
    Whitespace,
    /// Some primary expression.
    Expression,
    /// The keyword `return`.
    KeywordReturn,
    /// The given punctuation character.
    Tok(char),
}

/// The kinds of parse failure.
#[derive(Clone, Copy, Debug, PartialEq, Eq, Structural)]
pub enum ErrorKind {
    /// An expected token or construct was absent at the offset.
    SyntaxError(Expected),
    /// Input ended while a construct was still open; the expectation that
    /// was unmet when the input ran out is recorded.
    IncompleteInput(Expected),
    /// A recognized construct that the grammar deliberately does not
    /// support yet, such as a loop keyword or a struct declaration.
    UnsupportedConstruct,
    /// An integer literal exceeds the 32-bit signed range.
    NumericOverflow,
    /// Input nested more deeply than the configured recursion limit.
    NestingTooDeep,
}

/// Model of a `ParseError`.
pub struct SpecParseError {
    pub kind: ErrorKind,
    pub offset: int,
    pub contexts: Seq<ParseContext>,
}

/// A structured parse failure: what went wrong, where, and inside which
/// grammar rules.  `contexts[0]` is the innermost rule that was active.
#[derive(Debug, PartialEq, Eq)]
pub struct ParseError {
    pub kind: ErrorKind,
    pub offset: usize,
    pub contexts: Vec<ParseContext>,
}

impl ParseError {
    /// The mathematical model of this error.
    pub open spec fn dview(self) -> SpecParseError {
        SpecParseError {
            kind: self.kind,
            offset: self.offset as int,
            contexts: self.contexts@,
        }
    }
}

/// A failure of the given kind at the given offset, with no contexts yet.
pub open spec fn spec_error(kind: ErrorKind, offset: int) -> SpecParseError {
    SpecParseError { kind, offset, contexts: Seq::empty() }
}

/// A failure to find `exp` at `offset` in `s`: a syntax error inside the
/// input, an incomplete-input error where the input ended too early.
pub open spec fn spec_fail(s: Seq<char>, offset: int, exp: Expected) -> SpecParseError {
    if offset >= s.len() {
        spec_error(ErrorKind::IncompleteInput(exp), offset)
    } else {
        spec_error(ErrorKind::SyntaxError(exp), offset)
    }
}

/// `e` with the context label `c` pushed on top of its stack.
pub open spec fn spec_with_context(e: SpecParseError, c: ParseContext) -> SpecParseError {
    SpecParseError { kind: e.kind, offset: e.offset, contexts: e.contexts.push(c) }
}

} // verus!
