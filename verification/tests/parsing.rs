use cparse::ast::BinaryOperator;
use cparse::ast::CompoundStatement;
use cparse::ast::Expression;
use cparse::ast::ExternalDeclaration;
use cparse::ast::FunctionDefinition;
use cparse::ast::FunctionParameter;
use cparse::ast::Statement;
use cparse::ast::TypeSpecifier;
use cparse::ast::UnaryOperator;
use cparse::parser::parse_binary_op;
use cparse::parser::parse_compound_statement;
use cparse::parser::parse_constant;
use cparse::parser::parse_function_definition;
use cparse::parser::parse_global_variable_declaration;
use cparse::parser::parse_identifier;
use cparse::parser::parse_parameter;
use cparse::parser::parse_program;
use cparse::parser::parse_return_statement;
use cparse::parser::parse_statement;
use cparse::parser::parse_type_specifier;

fn ident(name: &str) -> Expression {
    Expression::Identifier(name.to_string())
}

fn binop(left: Expression, op: BinaryOperator, right: Expression) -> Expression {
    Expression::BinaryOp { left: Box::new(left), operator: op, right: Box::new(right) }
}

#[test]
fn identifier_consumes_all_letters() {
    let (name, next) = parse_identifier("abc", 0).unwrap();
    assert_eq!(name, "abc");
    assert_eq!(next, 3);
    let (name, next) = parse_identifier("HelloWorld", 0).unwrap();
    assert_eq!(name, "HelloWorld");
    assert_eq!(next, 10);
}

#[test]
fn identifier_stops_at_non_letter() {
    let (name, next) = parse_identifier("ab3", 0).unwrap();
    assert_eq!(name, "ab");
    assert_eq!(next, 2);
    assert!(parse_identifier("3x", 0).is_err());
    assert!(parse_identifier("", 0).is_err());
}

#[test]
fn type_specifier_matches_keywords() {
    assert_eq!(parse_type_specifier("int x", 0).unwrap(), (TypeSpecifier::Int, 3));
    assert_eq!(parse_type_specifier("float y", 0).unwrap(), (TypeSpecifier::Float, 5));
    assert_eq!(parse_type_specifier("void f", 0).unwrap(), (TypeSpecifier::Void, 4));
    assert_eq!(parse_type_specifier("char c", 0).unwrap(), (TypeSpecifier::Char, 4));
}

#[test]
fn type_specifier_is_word_boundary_aware() {
    // "integer" must not parse as `int` with leftover "eger".
    assert!(parse_type_specifier("integer", 0).is_err());
    assert!(parse_type_specifier("floaty", 0).is_err());
    // At the very end of the input the keyword still matches.
    assert_eq!(parse_type_specifier("int", 0).unwrap(), (TypeSpecifier::Int, 3));
    // A non-letter ends the word.
    assert_eq!(parse_type_specifier("int(", 0).unwrap(), (TypeSpecifier::Int, 3));
}

#[test]
fn constant_parses_decimal_digits() {
    assert_eq!(parse_constant("5", 0).unwrap(), (Expression::Constant(5), 1));
    assert_eq!(parse_constant("12x", 0).unwrap(), (Expression::Constant(12), 2));
    assert_eq!(
        parse_constant("2147483647", 0).unwrap(),
        (Expression::Constant(2147483647), 10)
    );
}

#[test]
fn parameter_needs_mandatory_whitespace() {
    let (p, next) = parse_parameter("int a", 0).unwrap();
    assert_eq!(p, FunctionParameter { type_specifier: TypeSpecifier::Int, name: "a".to_string() });
    assert_eq!(next, 5);
    assert!(parse_parameter("inta", 0).is_err());
}

#[test]
fn binary_op_pairs_for_every_operator() {
    let cases: Vec<(&str, BinaryOperator)> = vec![
        ("a + b", BinaryOperator::Add),
        ("a - b", BinaryOperator::Subtract),
        ("a * b", BinaryOperator::Multiply),
        ("a / b", BinaryOperator::Divide),
        ("a % b", BinaryOperator::Modulo),
    ];
    for (src, op) in cases {
        let (e, next) = parse_binary_op(src, 0).unwrap();
        assert_eq!(e, binop(ident("a"), op, ident("b")));
        assert_eq!(next, src.len());
    }
}

#[test]
fn chains_are_left_associated() {
    let (e, next) = parse_binary_op("a + b - c", 0).unwrap();
    assert_eq!(
        e,
        binop(binop(ident("a"), BinaryOperator::Add, ident("b")), BinaryOperator::Subtract, ident("c"))
    );
    assert_eq!(next, 9);
}

#[test]
fn multiplication_binds_tighter_than_addition() {
    let (e, _) = parse_binary_op("a + b * c", 0).unwrap();
    assert_eq!(
        e,
        binop(ident("a"), BinaryOperator::Add, binop(ident("b"), BinaryOperator::Multiply, ident("c")))
    );
}

#[test]
fn parentheses_override_precedence() {
    let (e, _) = parse_binary_op("(a + b) * c", 0).unwrap();
    assert_eq!(
        e,
        binop(binop(ident("a"), BinaryOperator::Add, ident("b")), BinaryOperator::Multiply, ident("c"))
    );
}

#[test]
fn logical_and_equality_operators_parse() {
    let (e, _) = parse_binary_op("a && b", 0).unwrap();
    assert_eq!(e, binop(ident("a"), BinaryOperator::LogicalAnd, ident("b")));
    let (e, _) = parse_binary_op("a || b", 0).unwrap();
    assert_eq!(e, binop(ident("a"), BinaryOperator::LogicalOr, ident("b")));
    let (e, _) = parse_binary_op("a == b", 0).unwrap();
    assert_eq!(
        e,
        Expression::EqualityOp { left: Box::new(ident("a")), right: Box::new(ident("b")) }
    );
}

#[test]
fn unary_operators_parse() {
    let (e, _) = parse_binary_op("-a", 0).unwrap();
    assert_eq!(
        e,
        Expression::UnaryOp { operator: UnaryOperator::Negate, operand: Box::new(ident("a")) }
    );
    let (e, _) = parse_binary_op("!a", 0).unwrap();
    assert_eq!(
        e,
        Expression::UnaryOp { operator: UnaryOperator::LogicalNot, operand: Box::new(ident("a")) }
    );
}

#[test]
fn function_calls_parse_with_and_without_arguments() {
    let (e, next) = parse_binary_op("f()", 0).unwrap();
    assert_eq!(e, Expression::FunctionCall { name: "f".to_string(), arguments: vec![] });
    assert_eq!(next, 3);
    let (e, _) = parse_binary_op("g(a, b + c)", 0).unwrap();
    assert_eq!(
        e,
        Expression::FunctionCall {
            name: "g".to_string(),
            arguments: vec![ident("a"), binop(ident("b"), BinaryOperator::Add, ident("c"))],
        }
    );
}

#[test]
fn string_literals_parse() {
    let (e, next) = parse_binary_op("\"hi\"", 0).unwrap();
    assert_eq!(e, Expression::StringLiteral("hi".to_string()));
    assert_eq!(next, 4);
}

#[test]
fn return_statement_takes_full_expression_grammar() {
    let (st, next) = parse_return_statement("return a + b * c;", 0).unwrap();
    assert_eq!(
        st,
        Statement::ReturnStmt(binop(
            ident("a"),
            BinaryOperator::Add,
            binop(ident("b"), BinaryOperator::Multiply, ident("c"))
        ))
    );
    assert_eq!(next, 17);
}

#[test]
fn compound_statement_preserves_statement_order() {
    let (c, next) = parse_compound_statement("{ a; b; }", 0).unwrap();
    assert_eq!(
        c,
        CompoundStatement {
            statements: vec![
                Statement::ExpressionStmt(ident("a")),
                Statement::ExpressionStmt(ident("b")),
            ]
        }
    );
    assert_eq!(next, 9);
}

#[test]
fn empty_compound_statement_is_valid() {
    let (c, next) = parse_compound_statement("{ }", 0).unwrap();
    assert_eq!(c, CompoundStatement { statements: vec![] });
    assert_eq!(next, 3);
}

#[test]
fn if_then_else_parses() {
    let (st, _) = parse_statement("if (a == b) { return a; } else { return b; }", 0).unwrap();
    match st {
        Statement::IfThenStmt { condition, body, else_body } => {
            assert_eq!(
                *condition,
                Expression::EqualityOp { left: Box::new(ident("a")), right: Box::new(ident("b")) }
            );
            assert_eq!(
                *body,
                Statement::CompoundStmt(CompoundStatement {
                    statements: vec![Statement::ReturnStmt(ident("a"))]
                })
            );
            assert_eq!(
                *else_body.unwrap(),
                Statement::CompoundStmt(CompoundStatement {
                    statements: vec![Statement::ReturnStmt(ident("b"))]
                })
            );
        }
        other => panic!("expected an if statement, got {:?}", other),
    }
}

#[test]
fn if_without_else_parses() {
    let (st, next) = parse_statement("if (a) b;", 0).unwrap();
    match st {
        Statement::IfThenStmt { condition, body, else_body } => {
            assert_eq!(*condition, ident("a"));
            assert_eq!(*body, Statement::ExpressionStmt(ident("b")));
            assert!(else_body.is_none());
        }
        other => panic!("expected an if statement, got {:?}", other),
    }
    assert_eq!(next, 9);
}

#[test]
fn function_definition_scenario_add() {
    let src = "int add(int a, int b) { return a + b; }";
    let (f, next) = parse_function_definition(src, 0).unwrap();
    let expected = FunctionDefinition {
        return_type: TypeSpecifier::Int,
        name: "add".to_string(),
        parameters: vec![
            FunctionParameter { type_specifier: TypeSpecifier::Int, name: "a".to_string() },
            FunctionParameter { type_specifier: TypeSpecifier::Int, name: "b".to_string() },
        ],
        body: CompoundStatement {
            statements: vec![Statement::ReturnStmt(binop(
                ident("a"),
                BinaryOperator::Add,
                ident("b"),
            ))],
        },
    };
    assert_eq!(f, expected);
    assert_eq!(next, src.len());
}

#[test]
fn function_definition_scenario_zero_parameters() {
    let src = "int f() { return 5; }";
    let (f, next) = parse_function_definition(src, 0).unwrap();
    assert_eq!(f.return_type, TypeSpecifier::Int);
    assert_eq!(f.name, "f");
    assert!(f.parameters.is_empty());
    assert_eq!(
        f.body,
        CompoundStatement { statements: vec![Statement::ReturnStmt(Expression::Constant(5))] }
    );
    assert_eq!(next, src.len());
}

#[test]
fn function_definition_scenario_modulo() {
    // The modulo operator is wired into the grammar: this parses like
    // the addition scenario, with the operator `Modulo`.
    let src = "int g(int a, int b) { return a % b; }";
    let (f, _) = parse_function_definition(src, 0).unwrap();
    assert_eq!(f.name, "g");
    assert_eq!(
        f.body,
        CompoundStatement {
            statements: vec![Statement::ReturnStmt(binop(
                ident("a"),
                BinaryOperator::Modulo,
                ident("b"),
            ))],
        }
    );
}

#[test]
fn global_variable_declaration_parses() {
    let (d, next) = parse_global_variable_declaration("int x = 5, y;", 0).unwrap();
    assert_eq!(d.type_specifier, TypeSpecifier::Int);
    assert_eq!(d.init_declarators.len(), 2);
    assert_eq!(d.init_declarators[0].name, "x");
    assert_eq!(d.init_declarators[0].initializer, Some(Expression::Constant(5)));
    assert_eq!(d.init_declarators[1].name, "y");
    assert_eq!(d.init_declarators[1].initializer, None);
    assert_eq!(next, 13);
}

#[test]
fn program_concatenates_external_declarations() {
    let src = "int x;\nint f() { return x; }\n";
    let p = parse_program(src).unwrap();
    assert_eq!(p.external_declarations.len(), 2);
    match &p.external_declarations[0] {
        ExternalDeclaration::GlobalVar(d) => {
            assert_eq!(d.init_declarators[0].name, "x");
        }
        other => panic!("expected a global variable, got {:?}", other),
    }
    match &p.external_declarations[1] {
        ExternalDeclaration::FunctionDef(f) => {
            assert_eq!(f.name, "f");
        }
        other => panic!("expected a function, got {:?}", other),
    }
}

#[test]
fn empty_program_is_valid() {
    let p = parse_program("   \n  ").unwrap();
    assert!(p.external_declarations.is_empty());
    let p = parse_program("").unwrap();
    assert!(p.external_declarations.is_empty());
}
