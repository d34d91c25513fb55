//! Laws of the grammar: properties that hold of every input, stated and
//! proved once and for all over the specification functions that the
//! executable parser is proved to implement.

use vstd::prelude::*;

use crate::ast::BinaryOperator;
use crate::ast::SpecExpression;
use crate::ast::TypeSpecifier;
use crate::error::ErrorKind;
use crate::error::ParseContext;
use crate::error::SpecParseError;
use crate::error::spec_error;
use crate::error::spec_with_context;
use crate::grammar::additive_op_at;
use crate::grammar::is_letter;
use crate::grammar::kw_at;
use crate::grammar::kw_float;
use crate::grammar::kw_int;
use crate::grammar::lemma_scan_letters_stops;
use crate::grammar::lemma_skip_ws_stops;
use crate::grammar::multiplicative_op_at;
use crate::grammar::spec_parse_additive;
use crate::grammar::spec_parse_additive_rest;
use crate::grammar::spec_parse_and;
use crate::grammar::spec_parse_and_rest;
use crate::grammar::spec_parse_equality;
use crate::grammar::spec_parse_equality_rest;
use crate::grammar::spec_parse_expression;
use crate::grammar::spec_parse_identifier;
use crate::grammar::spec_parse_multiplicative;
use crate::grammar::spec_parse_multiplicative_rest;
use crate::grammar::spec_parse_or;
use crate::grammar::spec_parse_or_rest;
use crate::grammar::spec_parse_primary;
use crate::grammar::spec_parse_program;
use crate::grammar::spec_parse_type_specifier;
use crate::grammar::spec_parse_unary;
use crate::grammar::spec_skip_ws;

verus! {

/// Law: for every nonempty string composed only of ASCII letters, the
/// identifier rule consumes the entire string and reports no remaining
/// input.  (The identifier rule requires at least one letter, so the
/// empty string is rejected rather than consumed.)
pub proof fn lemma_identifier_consumes_all_letters(s: Seq<char>)
    requires
        s.len() > 0,
        forall|i: int| 0 <= i < s.len() ==> is_letter(s[i]),
    ensures
        spec_parse_identifier(s, 0) == Ok::<_, SpecParseError>((s, s.len() as int)),
{
    lemma_scan_letters_stops(s, 0, s.len() as int);
    assert(s.subrange(0, s.len() as int) =~= s);
}

/// Law: the keyword `int` is matched by the type-specifier rule exactly
/// when it ends at a word boundary; `integer` does not parse as `Int`
/// with leftover `eger`.
pub proof fn lemma_type_specifier_int_word_boundary(s: Seq<char>, pos: int)
    requires
        0 <= pos,
        pos + 3 <= s.len(),
        s.subrange(pos, pos + 3) == kw_int(),
    ensures
        (spec_parse_type_specifier(s, pos) == Ok::<_, SpecParseError>(
            (TypeSpecifier::Int, pos + 3),
        )) <==> (pos + 3 == s.len() || !is_letter(s[pos + 3])),
{
    assert(s.subrange(pos, pos + 3)[0] == s[pos]);
    assert(s[pos] == 'i');
    if pos + 4 <= s.len() {
        assert(s.subrange(pos, pos + 4)[0] == s[pos]);
    }
    if pos + 5 <= s.len() {
        assert(s.subrange(pos, pos + 5)[0] == s[pos]);
    }
    assert(!kw_at(s, pos, crate::grammar::kw_void()));
    assert(!kw_at(s, pos, crate::grammar::kw_char()));
    assert(!kw_at(s, pos, kw_float()));
    if pos + 3 == s.len() || !is_letter(s[pos + 3]) {
        assert(kw_at(s, pos, kw_int()));
    } else {
        assert(!kw_at(s, pos, kw_int()));
    }
}

/// Law: the keyword `float` is matched by the type-specifier rule
/// exactly when it ends at a word boundary.
pub proof fn lemma_type_specifier_float_word_boundary(s: Seq<char>, pos: int)
    requires
        0 <= pos,
        pos + 5 <= s.len(),
        s.subrange(pos, pos + 5) == kw_float(),
    ensures
        (spec_parse_type_specifier(s, pos) == Ok::<_, SpecParseError>(
            (TypeSpecifier::Float, pos + 5),
        )) <==> (pos + 5 == s.len() || !is_letter(s[pos + 5])),
{
    assert(s.subrange(pos, pos + 5)[0] == s[pos]);
    assert(s[pos] == 'f');
    if pos + 4 <= s.len() {
        assert(s.subrange(pos, pos + 4)[0] == s[pos]);
    }
    if pos + 3 <= s.len() {
        assert(s.subrange(pos, pos + 3)[0] == s[pos]);
        assert(s.subrange(pos, pos + 3)[1] == s[pos + 1]);
        assert(s.subrange(pos, pos + 5)[1] == s[pos + 1]);
        assert(s[pos + 1] == 'l');
    }
    assert(!kw_at(s, pos, crate::grammar::kw_void()));
    assert(!kw_at(s, pos, crate::grammar::kw_char()));
    assert(!kw_at(s, pos, kw_int()));
    if pos + 5 == s.len() || !is_letter(s[pos + 5]) {
        assert(kw_at(s, pos, kw_float()));
    } else {
        assert(!kw_at(s, pos, kw_float()));
    }
}

/// The binary operator spelled by a single operator character.
pub open spec fn pair_operator(op: char) -> BinaryOperator {
    if op == '+' {
        BinaryOperator::Add
    } else if op == '-' {
        BinaryOperator::Subtract
    } else if op == '*' {
        BinaryOperator::Multiply
    } else if op == '/' {
        BinaryOperator::Divide
    } else {
        BinaryOperator::Modulo
    }
}

/// A run of letters ending at a non-letter that is not an opening
/// parenthesis parses, at the unary level, to the identifier it spells.
proof fn lemma_unary_identifier(s: Seq<char>, pos: int, end: int, depth: nat)
    requires
        0 <= pos < end <= s.len(),
        forall|j: int| pos <= j < end ==> is_letter(s[j]),
        end == s.len() || (!is_letter(s[end]) && s[end] != '('),
        depth >= 2,
    ensures
        spec_parse_unary(s, pos, depth) == Ok::<_, SpecParseError>(
            (SpecExpression::Identifier(s.subrange(pos, end)), end),
        ),
{
    lemma_scan_letters_stops(s, pos, end);
    assert(is_letter(s[pos]));
    assert(spec_parse_primary(s, pos, (depth - 1) as nat) == Ok::<_, SpecParseError>(
        (SpecExpression::Identifier(s.subrange(pos, end)), end),
    ));
}

/// At the end of the input every binary-rest rule returns its left
/// operand unchanged.
proof fn lemma_rests_at_end(s: Seq<char>, pos: int, depth: nat, left: SpecExpression)
    requires
        depth >= 1,
        0 <= pos <= s.len(),
        spec_skip_ws(s, pos) == s.len(),
    ensures
        spec_parse_or_rest(s, pos, depth, left) == Ok::<_, SpecParseError>((left, pos)),
        spec_parse_and_rest(s, pos, depth, left) == Ok::<_, SpecParseError>((left, pos)),
        spec_parse_equality_rest(s, pos, depth, left) == Ok::<_, SpecParseError>((left, pos)),
        spec_parse_additive_rest(s, pos, depth, left) == Ok::<_, SpecParseError>((left, pos)),
        spec_parse_multiplicative_rest(s, pos, depth, left) == Ok::<_, SpecParseError>(
            (left, pos),
        ),
{
}

/// The layout of the input `a <op> b`: where each piece stands and where
/// whitespace skipping lands.
proof fn lemma_pair_shape(a: Seq<char>, op: char, b: Seq<char>)
    requires
        a.len() > 0,
        b.len() > 0,
        forall|i: int| 0 <= i < a.len() ==> is_letter(a[i]),
        forall|i: int| 0 <= i < b.len() ==> is_letter(b[i]),
        op == '+' || op == '-' || op == '*' || op == '/' || op == '%',
    ensures
        (a + seq![' ', op, ' '] + b).len() == a.len() + 3 + b.len(),
        (a + seq![' ', op, ' '] + b)[a.len() as int + 1] == op,
        spec_skip_ws(a + seq![' ', op, ' '] + b, a.len() as int) == a.len() + 1,
        spec_skip_ws(a + seq![' ', op, ' '] + b, (a.len() + 2) as int) == a.len() + 3,
        spec_skip_ws(a + seq![' ', op, ' '] + b, (a.len() + 3 + b.len()) as int) == a.len() + 3
            + b.len(),
{
    let s = a + seq![' ', op, ' '] + b;
    let al = a.len() as int;
    let n = s.len() as int;
    assert(s[al] == ' ');
    assert(s[al + 1] == op);
    assert(s[al + 2] == ' ');
    assert(s[al + 3] == b[0]);
    lemma_skip_ws_stops(s, al, al + 1);
    lemma_skip_ws_stops(s, al + 2, al + 3);
}

/// In `a <op> b` the run of letters `a` parses, at the unary level, to
/// the identifier `a`.
proof fn lemma_pair_operand_left(a: Seq<char>, op: char, b: Seq<char>, depth: nat)
    requires
        a.len() > 0,
        b.len() > 0,
        forall|i: int| 0 <= i < a.len() ==> is_letter(a[i]),
        forall|i: int| 0 <= i < b.len() ==> is_letter(b[i]),
        op == '+' || op == '-' || op == '*' || op == '/' || op == '%',
        depth >= 2,
    ensures
        spec_parse_unary(a + seq![' ', op, ' '] + b, 0, depth) == Ok::<_, SpecParseError>(
            (SpecExpression::Identifier(a), a.len() as int),
        ),
{
    let s = a + seq![' ', op, ' '] + b;
    let al = a.len() as int;
    assert(forall|i: int| 0 <= i < al ==> s[i] == a[i]);
    assert(s[al] == ' ');
    lemma_unary_identifier(s, 0, al, depth);
    assert(s.subrange(0, al) =~= a);
}

/// In `a <op> b` the run of letters `b` parses, at the unary level, to
/// the identifier `b`, ending at the end of the input.
proof fn lemma_pair_operand_right(a: Seq<char>, op: char, b: Seq<char>, depth: nat)
    requires
        a.len() > 0,
        b.len() > 0,
        forall|i: int| 0 <= i < a.len() ==> is_letter(a[i]),
        forall|i: int| 0 <= i < b.len() ==> is_letter(b[i]),
        op == '+' || op == '-' || op == '*' || op == '/' || op == '%',
        depth >= 2,
    ensures
        spec_parse_unary(a + seq![' ', op, ' '] + b, (a.len() + 3) as int, depth) == Ok::<
            _,
            SpecParseError,
        >((SpecExpression::Identifier(b), (a.len() + 3 + b.len()) as int)),
{
    let s = a + seq![' ', op, ' '] + b;
    let al = a.len() as int;
    let n = s.len() as int;
    assert(forall|j: int| al + 3 <= j < n ==> s[j] == b[j - (al + 3)]);
    lemma_unary_identifier(s, al + 3, n, depth);
    assert(s.subrange(al + 3, n) =~= b);
}

/// For a multiplicative operator, the additive level of `a <op> b`
/// yields the `BinaryOp` node and consumes the whole input.
#[verifier::spinoff_prover]
proof fn lemma_pair_mult_ops(a: Seq<char>, op: char, b: Seq<char>, depth: nat)
    requires
        a.len() > 0,
        b.len() > 0,
        forall|i: int| 0 <= i < a.len() ==> is_letter(a[i]),
        forall|i: int| 0 <= i < b.len() ==> is_letter(b[i]),
        op == '*' || op == '/' || op == '%',
        depth >= 6,
    ensures
        spec_parse_additive(a + seq![' ', op, ' '] + b, 0, depth) == Ok::<_, SpecParseError>(
            (
                SpecExpression::BinaryOp {
                    left: Box::new(SpecExpression::Identifier(a)),
                    operator: pair_operator(op),
                    right: Box::new(SpecExpression::Identifier(b)),
                },
                (a.len() + 3 + b.len()) as int,
            ),
        ),
{
    let s = a + seq![' ', op, ' '] + b;
    let al = a.len() as int;
    let n = s.len() as int;
    let ida = SpecExpression::Identifier(a);
    let idb = SpecExpression::Identifier(b);
    let node = SpecExpression::BinaryOp {
        left: Box::new(ida),
        operator: pair_operator(op),
        right: Box::new(idb),
    };
    lemma_pair_shape(a, op, b);
    lemma_pair_operand_left(a, op, b, (depth - 2) as nat);
    lemma_pair_operand_right(a, op, b, (depth - 3) as nat);
    assert(multiplicative_op_at(s, al + 1) == Option::Some(pair_operator(op)));
    lemma_rests_at_end(s, n, (depth - 3) as nat, node);
    assert(spec_parse_multiplicative_rest(s, al, (depth - 2) as nat, ida) == Ok::<
        _,
        SpecParseError,
    >((node, n)));
    assert(spec_parse_multiplicative(s, 0, (depth - 1) as nat) == Ok::<_, SpecParseError>(
        (node, n),
    ));
    lemma_rests_at_end(s, n, (depth - 1) as nat, node);
}

/// For an additive operator, the additive level of `a <op> b` yields
/// the `BinaryOp` node and consumes the whole input.
#[verifier::spinoff_prover]
proof fn lemma_pair_add_ops(a: Seq<char>, op: char, b: Seq<char>, depth: nat)
    requires
        a.len() > 0,
        b.len() > 0,
        forall|i: int| 0 <= i < a.len() ==> is_letter(a[i]),
        forall|i: int| 0 <= i < b.len() ==> is_letter(b[i]),
        op == '+' || op == '-',
        depth >= 6,
    ensures
        spec_parse_additive(a + seq![' ', op, ' '] + b, 0, depth) == Ok::<_, SpecParseError>(
            (
                SpecExpression::BinaryOp {
                    left: Box::new(SpecExpression::Identifier(a)),
                    operator: pair_operator(op),
                    right: Box::new(SpecExpression::Identifier(b)),
                },
                (a.len() + 3 + b.len()) as int,
            ),
        ),
{
    let s = a + seq![' ', op, ' '] + b;
    let al = a.len() as int;
    let n = s.len() as int;
    let ida = SpecExpression::Identifier(a);
    let idb = SpecExpression::Identifier(b);
    let node = SpecExpression::BinaryOp {
        left: Box::new(ida),
        operator: pair_operator(op),
        right: Box::new(idb),
    };
    lemma_pair_shape(a, op, b);
    lemma_pair_operand_left(a, op, b, (depth - 2) as nat);
    assert(multiplicative_op_at(s, al + 1) == Option::<BinaryOperator>::None);
    assert(spec_parse_multiplicative_rest(s, al, (depth - 2) as nat, ida) == Ok::<
        _,
        SpecParseError,
    >((ida, al)));
    assert(spec_parse_multiplicative(s, 0, (depth - 1) as nat) == Ok::<_, SpecParseError>(
        (ida, al),
    ));
    assert(additive_op_at(s, al + 1) == Option::Some(pair_operator(op)));
    lemma_pair_operand_right(a, op, b, (depth - 3) as nat);
    lemma_rests_at_end(s, n, (depth - 3) as nat, idb);
    assert(spec_parse_multiplicative(s, al + 3, (depth - 2) as nat) == Ok::<_, SpecParseError>(
        (idb, n),
    ));
    lemma_rests_at_end(s, n, (depth - 2) as nat, node);
    assert(spec_parse_additive_rest(s, al, (depth - 1) as nat, ida) == Ok::<_, SpecParseError>(
        (node, n),
    ));
}

/// Law: parsing `a <op> b`, for identifiers `a` and `b` and any of the
/// five binary operator characters, yields the `BinaryOp` node carrying
/// that operator with the two identifiers as leaves, and consumes the
/// whole input.  `depth` is any recursion allowance that admits one
/// binary expression.
#[verifier::spinoff_prover]
pub proof fn lemma_binary_op_pair(a: Seq<char>, op: char, b: Seq<char>, depth: nat)
    requires
        a.len() > 0,
        b.len() > 0,
        forall|i: int| 0 <= i < a.len() ==> is_letter(a[i]),
        forall|i: int| 0 <= i < b.len() ==> is_letter(b[i]),
        op == '+' || op == '-' || op == '*' || op == '/' || op == '%',
        depth >= 9,
    ensures
        spec_parse_expression(a + seq![' ', op, ' '] + b, 0, depth) == Ok::<_, SpecParseError>(
            (
                SpecExpression::BinaryOp {
                    left: Box::new(SpecExpression::Identifier(a)),
                    operator: pair_operator(op),
                    right: Box::new(SpecExpression::Identifier(b)),
                },
                (a.len() + 3 + b.len()) as int,
            ),
        ),
{
    let s = a + seq![' ', op, ' '] + b;
    let n = s.len() as int;
    let node = SpecExpression::BinaryOp {
        left: Box::new(SpecExpression::Identifier(a)),
        operator: pair_operator(op),
        right: Box::new(SpecExpression::Identifier(b)),
    };
    lemma_pair_shape(a, op, b);
    if op == '*' || op == '/' || op == '%' {
        lemma_pair_mult_ops(a, op, b, (depth - 3) as nat);
    } else {
        lemma_pair_add_ops(a, op, b, (depth - 3) as nat);
    }
    lemma_rests_at_end(s, n, (depth - 3) as nat, node);
    assert(spec_parse_equality(s, 0, (depth - 2) as nat) == Ok::<_, SpecParseError>((node, n)));
    lemma_rests_at_end(s, n, (depth - 2) as nat, node);
    assert(spec_parse_and(s, 0, (depth - 1) as nat) == Ok::<_, SpecParseError>((node, n)));
    lemma_rests_at_end(s, n, (depth - 1) as nat, node);
    assert(spec_parse_or(s, 0, depth) == Ok::<_, SpecParseError>((node, n)));
}

/// `e` is a left-nested chain of additive operators rooted at `base`.
pub open spec fn additive_chain_rooted(e: SpecExpression, base: SpecExpression) -> bool
    decreases e,
{
    e == base || (match e {
        SpecExpression::BinaryOp { left, operator, .. } => (operator == BinaryOperator::Add
            || operator == BinaryOperator::Subtract) && additive_chain_rooted(*left, base),
        _ => false,
    })
}

/// `e` is a left-nested chain of multiplicative operators rooted at
/// `base`.
pub open spec fn multiplicative_chain_rooted(e: SpecExpression, base: SpecExpression) -> bool
    decreases e,
{
    e == base || (match e {
        SpecExpression::BinaryOp { left, operator, .. } => (operator
            == BinaryOperator::Multiply || operator == BinaryOperator::Divide || operator
            == BinaryOperator::Modulo) && multiplicative_chain_rooted(*left, base),
        _ => false,
    })
}

/// Being additive-chain-rooted is transitive.
proof fn lemma_additive_chain_trans(e: SpecExpression, mid: SpecExpression, base: SpecExpression)
    requires
        additive_chain_rooted(e, mid),
        additive_chain_rooted(mid, base),
    ensures
        additive_chain_rooted(e, base),
    decreases e,
{
    if e != mid {
        match e {
            SpecExpression::BinaryOp { left, .. } => {
                lemma_additive_chain_trans(*left, mid, base);
            },
            _ => {},
        }
    }
}

/// Being multiplicative-chain-rooted is transitive.
proof fn lemma_multiplicative_chain_trans(
    e: SpecExpression,
    mid: SpecExpression,
    base: SpecExpression,
)
    requires
        multiplicative_chain_rooted(e, mid),
        multiplicative_chain_rooted(mid, base),
    ensures
        multiplicative_chain_rooted(e, base),
    decreases e,
{
    if e != mid {
        match e {
            SpecExpression::BinaryOp { left, .. } => {
                lemma_multiplicative_chain_trans(*left, mid, base);
            },
            _ => {},
        }
    }
}

/// Law: chains of the same precedence are left-associated.  Whatever
/// further `+`/`-` operands the additive level consumes after a left
/// operand, the node it returns is a left-nested chain of additive
/// operators rooted at that operand — for every input, position and
/// recursion allowance.
pub proof fn lemma_additive_chains_left_associate(
    s: Seq<char>,
    pos: int,
    depth: nat,
    left: SpecExpression,
)
    ensures
        (match spec_parse_additive_rest(s, pos, depth, left) {
            Ok(v) => additive_chain_rooted(v.0, left),
            Err(e) => true,
        }),
    decreases depth,
{
    if depth != 0 {
        let p = spec_skip_ws(s, pos);
        match additive_op_at(s, p) {
            Option::Some(op) => {
                let q = spec_skip_ws(s, p + 1);
                match spec_parse_multiplicative(s, q, (depth - 1) as nat) {
                    Ok((right, p2)) => {
                        let node = SpecExpression::BinaryOp {
                            left: Box::new(left),
                            operator: op,
                            right: Box::new(right),
                        };
                        assert(additive_chain_rooted(left, left));
                        assert(additive_chain_rooted(node, left));
                        lemma_additive_chains_left_associate(s, p2, (depth - 1) as nat, node);
                        match spec_parse_additive_rest(s, p2, (depth - 1) as nat, node) {
                            Ok(v) => {
                                lemma_additive_chain_trans(v.0, node, left);
                            },
                            Err(e) => {},
                        }
                    },
                    Err(e) => {},
                }
            },
            Option::None => {},
        }
    }
}

/// Law: as `lemma_additive_chains_left_associate`, for the
/// multiplicative level.
pub proof fn lemma_multiplicative_chains_left_associate(
    s: Seq<char>,
    pos: int,
    depth: nat,
    left: SpecExpression,
)
    ensures
        (match spec_parse_multiplicative_rest(s, pos, depth, left) {
            Ok(v) => multiplicative_chain_rooted(v.0, left),
            Err(e) => true,
        }),
    decreases depth,
{
    if depth != 0 {
        let p = spec_skip_ws(s, pos);
        match multiplicative_op_at(s, p) {
            Option::Some(op) => {
                let q = spec_skip_ws(s, p + 1);
                match spec_parse_unary(s, q, (depth - 1) as nat) {
                    Ok((right, p2)) => {
                        let node = SpecExpression::BinaryOp {
                            left: Box::new(left),
                            operator: op,
                            right: Box::new(right),
                        };
                        assert(multiplicative_chain_rooted(left, left));
                        assert(multiplicative_chain_rooted(node, left));
                        lemma_multiplicative_chains_left_associate(
                            s,
                            p2,
                            (depth - 1) as nat,
                            node,
                        );
                        match spec_parse_multiplicative_rest(s, p2, (depth - 1) as nat, node) {
                            Ok(v) => {
                                lemma_multiplicative_chain_trans(v.0, node, left);
                            },
                            Err(e) => {},
                        }
                    },
                    Err(e) => {},
                }
            },
            Option::None => {},
        }
    }
}

/// Law: failure shape is idempotent.  Parsing is a pure function of the
/// input, so parsing the same input twice yields the same outcome — in
/// particular the identical error offset, kind and expectation.
pub proof fn lemma_parse_deterministic(s1: Seq<char>, s2: Seq<char>)
    requires
        s1 == s2,
    ensures
        spec_parse_program(s1) == spec_parse_program(s2),
{
}

/// Law: with its recursion allowance exhausted, the expression rule
/// fails with the distinct nesting failure, for every input and
/// position — never a crash and never a wrong node.
pub proof fn lemma_exhausted_depth_fails_distinctly(s: Seq<char>, pos: int)
    ensures
        spec_parse_expression(s, pos, 0) == Err::<(SpecExpression, int), _>(
            spec_with_context(
                spec_error(ErrorKind::NestingTooDeep, pos),
                ParseContext::Expression,
            ),
        ),
{
    assert(spec_parse_or(s, pos, 0) == Err::<(SpecExpression, int), SpecParseError>(
        spec_error(ErrorKind::NestingTooDeep, pos),
    ));
}

/// An allowance too small to reach through the precedence levels fails
/// with the nesting failure, whatever the input holds.
proof fn lemma_shallow_allowance_fails(s: Seq<char>, pos: int, depth: nat)
    requires
        depth <= 6,
    ensures
        (match spec_parse_or(s, pos, depth) {
            Ok(v) => false,
            Err(e) => e.kind == ErrorKind::NestingTooDeep,
        }),
{
}

/// When the expression inside a parenthesis fails with the nesting
/// failure, so does the whole expression tower above the parenthesis.
#[verifier::spinoff_prover]
proof fn lemma_paren_descent(s: Seq<char>, pos: int, depth: nat)
    requires
        0 <= pos < s.len(),
        s[pos] == '(',
        depth >= 7,
        (match spec_parse_expression(s, spec_skip_ws(s, pos + 1), (depth - 7) as nat) {
            Ok(v) => false,
            Err(e) => e.kind == ErrorKind::NestingTooDeep,
        }),
    ensures
        (match spec_parse_or(s, pos, depth) {
            Ok(v) => false,
            Err(e) => e.kind == ErrorKind::NestingTooDeep,
        }),
{
    assert(match spec_parse_primary(s, pos, (depth - 6) as nat) {
        Ok(v) => false,
        Err(e) => e.kind == ErrorKind::NestingTooDeep,
    });
    assert(match spec_parse_unary(s, pos, (depth - 5) as nat) {
        Ok(v) => false,
        Err(e) => e.kind == ErrorKind::NestingTooDeep,
    });
    assert(match spec_parse_multiplicative(s, pos, (depth - 4) as nat) {
        Ok(v) => false,
        Err(e) => e.kind == ErrorKind::NestingTooDeep,
    });
    assert(match spec_parse_additive(s, pos, (depth - 3) as nat) {
        Ok(v) => false,
        Err(e) => e.kind == ErrorKind::NestingTooDeep,
    });
    assert(match spec_parse_equality(s, pos, (depth - 2) as nat) {
        Ok(v) => false,
        Err(e) => e.kind == ErrorKind::NestingTooDeep,
    });
    assert(match spec_parse_and(s, pos, (depth - 1) as nat) {
        Ok(v) => false,
        Err(e) => e.kind == ErrorKind::NestingTooDeep,
    });
}

/// Law: an expression nested more deeply than the recursion allowance
/// admits fails with the distinct nesting failure.  An input that opens
/// `k` parentheses in a row exhausts any allowance of at most
/// `6 + 7 * k` — in particular, nesting beyond `RECURSION_LIMIT`
/// opening parentheses always exceeds the configured limit.
#[verifier::spinoff_prover]
pub proof fn lemma_nesting_beyond_allowance_fails(s: Seq<char>, pos: int, k: nat, depth: nat)
    requires
        0 <= pos,
        pos + k <= s.len(),
        forall|i: int| 0 <= i < k ==> #[trigger] s[pos + i] == '(',
        depth <= 6 + 7 * k,
    ensures
        (match spec_parse_expression(s, pos, depth) {
            Ok(v) => false,
            Err(e) => e.kind == ErrorKind::NestingTooDeep,
        }),
    decreases k,
{
    if depth <= 6 {
        lemma_shallow_allowance_fails(s, pos, depth);
    } else {
        assert(k >= 1);
        assert(s[pos + 0] == '(');
        crate::grammar::lemma_skip_ws_bounds(s, pos + 1);
        let q = spec_skip_ws(s, pos + 1);
        if k >= 2 {
            assert(s[pos + 1] == '(');
            lemma_skip_ws_stops(s, pos + 1, pos + 1);
            assert(q == pos + 1);
            assert forall|i: int| 0 <= i < k - 1 implies #[trigger] s[q + i] == '(' by {
                assert(s[pos + (i + 1)] == '(');
            }
        }
        lemma_nesting_beyond_allowance_fails(s, q, (k - 1) as nat, (depth - 7) as nat);
        lemma_paren_descent(s, pos, depth);
    }
}

} // verus!
