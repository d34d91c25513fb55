use cparse::error::ErrorKind;
use cparse::error::Expected;
use cparse::error::ParseContext;
use cparse::parser::parse_binary_op;
use cparse::parser::parse_compound_statement;
use cparse::parser::parse_constant;
use cparse::parser::parse_function_definition;
use cparse::parser::parse_program;
use cparse::parser::parse_statement;

#[test]
fn syntax_error_at_offset_of_missing_paren() {
    // The closing parenthesis should stand where the `{` does, at
    // offset 14.
    let err = parse_function_definition("int bad(int a {", 0).unwrap_err();
    assert_eq!(err.kind, ErrorKind::SyntaxError(Expected::Tok(')')));
    assert_eq!(err.offset, 14);
    assert_eq!(err.contexts, vec![ParseContext::FunctionDefinition]);
}

#[test]
fn error_context_stack_names_the_active_rules() {
    // The expression is missing inside the return statement: the
    // failure lists the active rules, innermost first.
    let err = parse_function_definition("int f() { return + ; }", 0).unwrap_err();
    assert_eq!(err.kind, ErrorKind::SyntaxError(Expected::Expression));
    assert_eq!(err.offset, 17);
    assert_eq!(
        err.contexts,
        vec![
            ParseContext::Expression,
            ParseContext::ReturnStatement,
            ParseContext::Statement,
            ParseContext::CompoundStatement,
            ParseContext::FunctionDefinition,
        ]
    );
}

#[test]
fn failure_shape_is_idempotent() {
    let first = parse_program("int bad(int a {").unwrap_err();
    let second = parse_program("int bad(int a {").unwrap_err();
    assert_eq!(first.offset, second.offset);
    assert_eq!(first.kind, second.kind);
    assert_eq!(first.contexts, second.contexts);
}

#[test]
fn numeric_overflow_is_explicit() {
    // One past the 32-bit signed maximum.
    let err = parse_constant("2147483648", 0).unwrap_err();
    assert_eq!(err.kind, ErrorKind::NumericOverflow);
    assert_eq!(err.offset, 0);
    // Far beyond the range.
    let err = parse_constant("99999999999999999999", 0).unwrap_err();
    assert_eq!(err.kind, ErrorKind::NumericOverflow);
}

#[test]
fn incomplete_input_on_unterminated_compound() {
    let err = parse_compound_statement("{ return a; ", 0).unwrap_err();
    assert_eq!(err.kind, ErrorKind::IncompleteInput(Expected::Tok('}')));
    assert_eq!(err.offset, 12);
    assert_eq!(err.contexts, vec![ParseContext::CompoundStatement]);
}

#[test]
fn incomplete_input_on_unterminated_program() {
    let err = parse_program("int f() { return 5;").unwrap_err();
    assert!(matches!(err.kind, ErrorKind::IncompleteInput(_)));
    assert_eq!(err.offset, 19);
}

#[test]
fn unterminated_string_literal_is_incomplete() {
    let err = parse_binary_op("\"abc", 0).unwrap_err();
    assert_eq!(err.kind, ErrorKind::IncompleteInput(Expected::Tok('"')));
    assert_eq!(err.offset, 4);
}

#[test]
fn loop_keywords_are_unsupported_constructs() {
    let err = parse_statement("while (a) { }", 0).unwrap_err();
    assert_eq!(err.kind, ErrorKind::UnsupportedConstruct);
    assert_eq!(err.offset, 0);
    assert_eq!(err.contexts, vec![ParseContext::Statement]);
    let err = parse_statement("for (a) { }", 0).unwrap_err();
    assert_eq!(err.kind, ErrorKind::UnsupportedConstruct);
}

#[test]
fn struct_and_typedef_are_unsupported_constructs() {
    let err = parse_program("struct point { int x; };").unwrap_err();
    assert_eq!(err.kind, ErrorKind::UnsupportedConstruct);
    assert_eq!(err.offset, 0);
    let err = parse_program("typedef int word;").unwrap_err();
    assert_eq!(err.kind, ErrorKind::UnsupportedConstruct);
}

#[test]
fn nesting_beyond_the_limit_fails_distinctly() {
    let mut deep = String::new();
    let mut i: usize = 0;
    while i < 3000 {
        deep.push('(');
        i += 1;
    }
    deep.push('x');
    let err = parse_binary_op(&deep, 0).unwrap_err();
    assert_eq!(err.kind, ErrorKind::NestingTooDeep);
}

#[test]
fn moderate_nesting_is_fine() {
    let src = "((((((((((x))))))))))";
    let (e, next) = parse_binary_op(src, 0).unwrap();
    assert_eq!(e, cparse::ast::Expression::Identifier("x".to_string()));
    assert_eq!(next, src.len());
}

#[test]
fn expected_expression_where_no_primary_matches() {
    let err = parse_binary_op("+", 0).unwrap_err();
    assert_eq!(err.kind, ErrorKind::SyntaxError(Expected::Expression));
    assert_eq!(err.offset, 0);
    assert_eq!(err.contexts, vec![ParseContext::Expression]);
}

#[test]
fn trailing_garbage_fails_the_program() {
    let err = parse_program("int f() { return 5; } @").unwrap_err();
    assert_eq!(err.offset, 22);
}

#[test]
fn return_keyword_is_required_by_the_return_rule() {
    let err = cparse::parser::parse_return_statement("x;", 0).unwrap_err();
    assert_eq!(err.kind, ErrorKind::SyntaxError(Expected::KeywordReturn));
    assert_eq!(err.offset, 0);
}

#[test]
fn parameter_separator_whitespace_is_mandatory() {
    let err = cparse::parser::parse_parameter("int@", 0).unwrap_err();
    assert_eq!(err.kind, ErrorKind::SyntaxError(Expected::Whitespace));
    assert_eq!(err.offset, 3);
    assert_eq!(err.contexts, vec![ParseContext::Parameter]);
}
