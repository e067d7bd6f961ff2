//! The surface syntax tree the lowering step consumes.
//!
//! These types describe an already-parsed program: declarations,
//! statements and expressions as the grammar shapes them, before they are
//! lowered to the flat [`crate::ir`] form the evaluator runs.
//! Floating-point literals are outside this runtime's value model and
//! have no representation here.

use vstd::prelude::*;

verus! {

/// One top-level item of a parsed program.
#[derive(Debug, PartialEq)]
pub enum Token {
    Function(FunctionDecl),
    Variable(VariableDecl),
    Statement(Statement),
    Expression(ExpressionDecl),
    Type(Type),
    Struct(StructDecl),
}

/// A parsed struct declaration.
#[derive(Debug, PartialEq)]
pub struct StructDecl {
    pub name: String,
    pub fields: Vec<FieldDecl>,
}

/// A parsed struct field.
#[derive(Debug, PartialEq)]
pub struct FieldDecl {
    pub type_info: Type,
    pub name: String,
}

/// A parsed function declaration.
#[derive(Debug, PartialEq)]
pub struct FunctionDecl {
    pub return_type: Type,
    pub name: String,
    pub parameters: Vec<Parameter>,
    pub body: Vec<Token>,
}

/// A parsed parameter; the grammar allows unnamed parameters.
#[derive(Debug, PartialEq)]
pub struct Parameter {
    pub type_info: Type,
    pub name: Option<String>,
}

/// A parsed variable declaration.
#[derive(Debug, PartialEq)]
pub struct VariableDecl {
    pub type_info: Type,
    pub name: String,
    pub initializer: Option<ExpressionDecl>,
}

/// A parsed type: a named type under any number of array dimensions.
#[derive(Debug, PartialEq)]
pub enum Type {
    Array(Box<Type>),
    Struct(String),
}

/// A parsed statement.
#[derive(Debug, PartialEq)]
pub enum Statement {
    Compound(Vec<Statement>),
    If(IfStatement),
    While(WhileStatement),
    For(ForStatement),
    DoWhile(DoWhileStatement),
    Switch(SwitchStatement),
    Return(Option<ExpressionDecl>),
    Break,
    Continue,
    Expression(ExpressionDecl),
    Declaration(VariableDecl),
}

#[derive(Debug, PartialEq)]
pub struct IfStatement {
    pub condition: ExpressionDecl,
    pub then_branch: Box<Statement>,
    pub else_branch: Option<Box<Statement>>,
}

#[derive(Debug, PartialEq)]
pub struct WhileStatement {
    pub condition: ExpressionDecl,
    pub body: Box<Statement>,
}

#[derive(Debug, PartialEq)]
pub struct ForStatement {
    pub initializer: Box<Statement>,
    pub condition: Option<ExpressionDecl>,
    pub increment: Option<ExpressionDecl>,
    pub body: Box<Statement>,
}

#[derive(Debug, PartialEq)]
pub struct DoWhileStatement {
    pub body: Box<Statement>,
    pub condition: ExpressionDecl,
}

#[derive(Debug, PartialEq)]
pub struct SwitchStatement {
    pub expression: ExpressionDecl,
    pub cases: Vec<CaseStatement>,
    pub default: Option<Vec<Statement>>,
}

#[derive(Debug, PartialEq)]
pub struct CaseStatement {
    pub value: ExpressionDecl,
    pub statements: Vec<Statement>,
}

/// A parsed expression.
#[derive(Debug, PartialEq)]
pub enum ExpressionDecl {
    Literal(Literal),
    Identifier(String),
    BinaryOp(BinaryOperator, Box<ExpressionDecl>, Box<ExpressionDecl>),
    UnaryOp(UnaryOperator, Box<ExpressionDecl>),
    Call(Box<ExpressionDecl>, Vec<ExpressionDecl>),
    Cast(Type, Box<ExpressionDecl>),
    ArrayAccess(Box<ExpressionDecl>, Box<ExpressionDecl>),
    MemberAccess(Box<ExpressionDecl>, String),
    Assignment(Box<ExpressionDecl>, Box<ExpressionDecl>),
    Conditional(Box<ExpressionDecl>, Box<ExpressionDecl>, Box<ExpressionDecl>),
    ArrayLiteral(Vec<ExpressionDecl>),
    Struct(String, Vec<FieldDecl>),
}

/// A parsed literal.
#[derive(Debug, PartialEq)]
pub enum Literal {
    Integer(i64),
    String(String),
    Char(char),
}

/// A parsed binary operator.
#[derive(Debug, Clone, Copy, PartialEq, Eq, Structural)]
pub enum BinaryOperator {
    Add,
    Subtract,
    Multiply,
    Divide,
    Modulo,
    Equal,
    NotEqual,
    Less,
    LessEqual,
    Greater,
    GreaterEqual,
    And,
    Or,
}

/// A parsed unary operator.  Only negation and logical not have a
/// lowering; the others are rejected.
#[derive(Debug, Clone, Copy, PartialEq, Eq, Structural)]
pub enum UnaryOperator {
    Negate,
    Not,
    BitwiseNot,
    PreIncrement,
    PreDecrement,
    PostIncrement,
    PostDecrement,
}

} // verus!
