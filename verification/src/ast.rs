//! The abstract syntax tree produced by the parser, together with its
//! mathematical model.
//!
//! Each executable node type has a `dview` function mapping it to a
//! spec-level twin in which `Vec` becomes `Seq` and `String` becomes
//! `Seq<char>`.  Contracts of the parser speak about these models.

use vstd::prelude::*;

verus! {

/// Type specifiers define the type of a variable or the return type of a
/// function.
#[derive(Clone, Copy, Debug, PartialEq, Eq, Structural)]
pub enum TypeSpecifier {
    Void,
    Char,
    Int,
    Float,
}

/// Binary operators.  Every variant is produced by the expression grammar:
/// equality is represented separately by `Expression::EqualityOp`.
#[derive(Clone, Copy, Debug, PartialEq, Eq, Structural)]
pub enum BinaryOperator {
    Add,
    Subtract,
    Multiply,
    Divide,
    Modulo,
    LogicalAnd,
    LogicalOr,
}

/// Prefix unary operators.
#[derive(Clone, Copy, Debug, PartialEq, Eq, Structural)]
pub enum UnaryOperator {
    Negate,
    LogicalNot,
}

/// Model of an `Expression`.
pub enum SpecExpression {
    Identifier(Seq<char>),
    Constant(i32),
    StringLiteral(Seq<char>),
    FunctionCall { name: Seq<char>, arguments: Seq<SpecExpression> },
    BinaryOp { left: Box<SpecExpression>, operator: BinaryOperator, right: Box<SpecExpression> },
    UnaryOp { operator: UnaryOperator, operand: Box<SpecExpression> },
    EqualityOp { left: Box<SpecExpression>, right: Box<SpecExpression> },
}

/// Model of a `Statement`.
pub enum SpecStatement {
    ExpressionStmt(SpecExpression),
    CompoundStmt(SpecCompoundStatement),
    ReturnStmt(SpecExpression),
    IfThenStmt {
        condition: Box<SpecExpression>,
        body: Box<SpecStatement>,
        else_body: Option<Box<SpecStatement>>,
    },
}

/// Model of a `CompoundStatement`.
pub struct SpecCompoundStatement {
    pub statements: Seq<SpecStatement>,
}

/// Model of a `FunctionParameter`.
pub struct SpecFunctionParameter {
    pub type_specifier: TypeSpecifier,
    pub name: Seq<char>,
}

/// Model of a `FunctionDefinition`.
pub struct SpecFunctionDefinition {
    pub return_type: TypeSpecifier,
    pub name: Seq<char>,
    pub parameters: Seq<SpecFunctionParameter>,
    pub body: SpecCompoundStatement,
}

/// Model of an `InitDeclarator`.
pub struct SpecInitDeclarator {
    pub name: Seq<char>,
    pub initializer: Option<SpecExpression>,
}

/// Model of a `VariableDeclaration`.
pub struct SpecVariableDeclaration {
    pub type_specifier: TypeSpecifier,
    pub init_declarators: Seq<SpecInitDeclarator>,
}

/// Model of an `ExternalDeclaration`.
pub enum SpecExternalDeclaration {
    FunctionDef(SpecFunctionDefinition),
    GlobalVar(SpecVariableDeclaration),
}

/// Model of a `Program`.
pub struct SpecProgram {
    pub external_declarations: Seq<SpecExternalDeclaration>,
}

/// An expression: recursive, tree shaped, with exclusively owned
/// subexpressions.
#[derive(Debug, PartialEq, Eq)]
pub enum Expression {
    Identifier(String),
    Constant(i32),
    StringLiteral(String),
    FunctionCall { name: String, arguments: Vec<Expression> },
    BinaryOp { left: Box<Expression>, operator: BinaryOperator, right: Box<Expression> },
    UnaryOp { operator: UnaryOperator, operand: Box<Expression> },
    EqualityOp { left: Box<Expression>, right: Box<Expression> },
}

/// A statement.
#[derive(Debug, PartialEq, Eq)]
pub enum Statement {
    ExpressionStmt(Expression),
    CompoundStmt(CompoundStatement),
    ReturnStmt(Expression),
    IfThenStmt {
        condition: Box<Expression>,
        body: Box<Statement>,
        else_body: Option<Box<Statement>>,
    },
}

/// A sequence of statements enclosed in braces.  Order is significant and
/// preserved exactly as written.
#[derive(Debug, PartialEq, Eq)]
pub struct CompoundStatement {
    pub statements: Vec<Statement>,
}

/// A parameter of a function: a type and a name.  Order within the
/// parameter list is significant.
#[derive(Debug, PartialEq, Eq)]
pub struct FunctionParameter {
    pub type_specifier: TypeSpecifier,
    pub name: String,
}

/// A function definition: return type, name, parameters, and a body.
#[derive(Debug, PartialEq, Eq)]
pub struct FunctionDefinition {
    pub return_type: TypeSpecifier,
    pub name: String,
    pub parameters: Vec<FunctionParameter>,
    pub body: CompoundStatement,
}

/// A variable name with an optional initializer expression.
#[derive(Debug, PartialEq, Eq)]
pub struct InitDeclarator {
    pub name: String,
    pub initializer: Option<Expression>,
}

/// A declaration of one or more variables of a common type.
#[derive(Debug, PartialEq, Eq)]
pub struct VariableDeclaration {
    pub type_specifier: TypeSpecifier,
    pub init_declarators: Vec<InitDeclarator>,
}

/// A top-level construct: a function definition or a global variable
/// declaration.
#[derive(Debug, PartialEq, Eq)]
pub enum ExternalDeclaration {
    FunctionDef(FunctionDefinition),
    GlobalVar(VariableDeclaration),
}

/// A whole program: the ordered sequence of its external declarations.
#[derive(Debug, PartialEq, Eq)]
pub struct Program {
    pub external_declarations: Vec<ExternalDeclaration>,
}

impl Expression {
    /// The mathematical model of this expression.
    pub open spec fn dview(self) -> SpecExpression
        decreases self,
    {
        match self {
            Expression::Identifier(name) => SpecExpression::Identifier(name@),
            Expression::Constant(value) => SpecExpression::Constant(value),
            Expression::StringLiteral(text) => SpecExpression::StringLiteral(text@),
            Expression::FunctionCall { name, arguments } => SpecExpression::FunctionCall {
                name: name@,
                arguments: dview_expressions(arguments@),
            },
            Expression::BinaryOp { left, operator, right } => SpecExpression::BinaryOp {
                left: Box::new(left.dview()),
                operator,
                right: Box::new(right.dview()),
            },
            Expression::UnaryOp { operator, operand } => SpecExpression::UnaryOp {
                operator,
                operand: Box::new(operand.dview()),
            },
            Expression::EqualityOp { left, right } => SpecExpression::EqualityOp {
                left: Box::new(left.dview()),
                right: Box::new(right.dview()),
            },
        }
    }
}

/// The models of a sequence of expressions, in order.
pub open spec fn dview_expressions(s: Seq<Expression>) -> Seq<SpecExpression>
    decreases s,
{
    if s.len() == 0 {
        Seq::empty()
    } else {
        dview_expressions(s.drop_last()).push(s.last().dview())
    }
}

impl Statement {
    /// The mathematical model of this statement.
    pub open spec fn dview(self) -> SpecStatement
        decreases self,
    {
        match self {
            Statement::ExpressionStmt(e) => SpecStatement::ExpressionStmt(e.dview()),
            Statement::CompoundStmt(c) => SpecStatement::CompoundStmt(
                SpecCompoundStatement { statements: dview_statements(c.statements@) },
            ),
            Statement::ReturnStmt(e) => SpecStatement::ReturnStmt(e.dview()),
            Statement::IfThenStmt { condition, body, else_body } => SpecStatement::IfThenStmt {
                condition: Box::new(condition.dview()),
                body: Box::new(body.dview()),
                else_body: match else_body {
                    Option::Some(s) => Option::Some(Box::new(s.dview())),
                    Option::None => Option::None,
                },
            },
        }
    }
}

/// The models of a sequence of statements, in order.
pub open spec fn dview_statements(s: Seq<Statement>) -> Seq<SpecStatement>
    decreases s,
{
    if s.len() == 0 {
        Seq::empty()
    } else {
        dview_statements(s.drop_last()).push(s.last().dview())
    }
}

impl CompoundStatement {
    /// The mathematical model of this compound statement.
    pub open spec fn dview(self) -> SpecCompoundStatement {
        SpecCompoundStatement { statements: dview_statements(self.statements@) }
    }
}

impl FunctionParameter {
    /// The mathematical model of this parameter.
    pub open spec fn dview(self) -> SpecFunctionParameter {
        SpecFunctionParameter { type_specifier: self.type_specifier, name: self.name@ }
    }
}

/// The models of a sequence of parameters, in order.
pub open spec fn dview_parameters(s: Seq<FunctionParameter>) -> Seq<SpecFunctionParameter> {
    s.map(|i: int, p: FunctionParameter| p.dview())
}

impl FunctionDefinition {
    /// The mathematical model of this function definition.
    pub open spec fn dview(self) -> SpecFunctionDefinition {
        SpecFunctionDefinition {
            return_type: self.return_type,
            name: self.name@,
            parameters: dview_parameters(self.parameters@),
            body: self.body.dview(),
        }
    }
}

impl InitDeclarator {
    /// The mathematical model of this init declarator.
    pub open spec fn dview(self) -> SpecInitDeclarator {
        SpecInitDeclarator {
            name: self.name@,
            initializer: match self.initializer {
                Option::Some(e) => Option::Some(e.dview()),
                Option::None => Option::None,
            },
        }
    }
}

/// The models of a sequence of init declarators, in order.
pub open spec fn dview_init_declarators(s: Seq<InitDeclarator>) -> Seq<SpecInitDeclarator> {
    s.map(|i: int, d: InitDeclarator| d.dview())
}

impl VariableDeclaration {
    /// The mathematical model of this variable declaration.
    pub open spec fn dview(self) -> SpecVariableDeclaration {
        SpecVariableDeclaration {
            type_specifier: self.type_specifier,
            init_declarators: dview_init_declarators(self.init_declarators@),
        }
    }
}

impl ExternalDeclaration {
    /// The mathematical model of this external declaration.
    pub open spec fn dview(self) -> SpecExternalDeclaration {
        match self {
            ExternalDeclaration::FunctionDef(f) => SpecExternalDeclaration::FunctionDef(f.dview()),
            ExternalDeclaration::GlobalVar(v) => SpecExternalDeclaration::GlobalVar(v.dview()),
        }
    }
}

/// The models of a sequence of external declarations, in order.
pub open spec fn dview_external_declarations(
    s: Seq<ExternalDeclaration>,
) -> Seq<SpecExternalDeclaration> {
    s.map(|i: int, d: ExternalDeclaration| d.dview())
}

/// Appending an expression appends its model.
pub proof fn lemma_dview_expressions_push(s: Seq<Expression>, e: Expression)
    ensures
        dview_expressions(s.push(e)) == dview_expressions(s).push(e.dview()),
{
    assert(s.push(e).drop_last() =~= s);
    assert(s.push(e).last() == e);
}

/// Appending a statement appends its model.
pub proof fn lemma_dview_statements_push(s: Seq<Statement>, st: Statement)
    ensures
        dview_statements(s.push(st)) == dview_statements(s).push(st.dview()),
{
    assert(s.push(st).drop_last() =~= s);
    assert(s.push(st).last() == st);
}

/// Appending a parameter appends its model.
pub proof fn lemma_dview_parameters_push(s: Seq<FunctionParameter>, p: FunctionParameter)
    ensures
        dview_parameters(s.push(p)) == dview_parameters(s).push(p.dview()),
{
    assert(dview_parameters(s.push(p)) =~= dview_parameters(s).push(p.dview()));
}

/// Appending an init declarator appends its model.
pub proof fn lemma_dview_init_declarators_push(s: Seq<InitDeclarator>, d: InitDeclarator)
    ensures
        dview_init_declarators(s.push(d)) == dview_init_declarators(s).push(d.dview()),
{
    assert(dview_init_declarators(s.push(d)) =~= dview_init_declarators(s).push(d.dview()));
}

/// Appending an external declaration appends its model.
pub proof fn lemma_dview_external_declarations_push(
    s: Seq<ExternalDeclaration>,
    d: ExternalDeclaration,
)
    ensures
        dview_external_declarations(s.push(d)) == dview_external_declarations(s).push(d.dview()),
{
    assert(dview_external_declarations(s.push(d)) =~= dview_external_declarations(s).push(
        d.dview(),
    ));
}

impl Program {
    /// The mathematical model of this program.
    pub open spec fn dview(self) -> SpecProgram {
        SpecProgram {
            external_declarations: dview_external_declarations(self.external_declarations@),
        }
    }
}

} // verus!
