//! The lowered program representation the evaluator consumes.
//!
//! A program is an ordered sequence of [`Action`]s.  Expressions carry the
//! twelve binary arithmetic/comparison/logical operators plus the structural
//! operators (array access, member access, assignment, ternary conditional,
//! comma, return, break, continue, and plain expression statements).  The
//! representation is read-only to the evaluator; function bodies are shared
//! behind `Rc` so that calling a function never copies its body.

use std::rc::Rc;
use vstd::prelude::*;

verus! {

/// A binary or structural operator of the language.
#[derive(Debug, Clone, Copy, PartialEq, Eq, Structural)]
pub enum Operator {
    Add,
    Subtract,
    Multiply,
    Divide,
    Modulo,
    Equal,
    NotEqual,
    Less,
    LessEqual,
    Greater,
    GreaterEqual,
    And,
    Or,
    ArrayAccess,
    MemberAccess,
    Assignment,
    Conditional,
    Comma,
    Return,
    Break,
    Continue,
    Expression,
}

/// An already-typed literal.  Floating-point literals are outside this
/// runtime's value model and have no representation here.
#[derive(Debug, PartialEq)]
pub enum Literal {
    Integer(i64),
    String(String),
    Character(char),
    Boolean(bool),
}

/// Descriptive type metadata: a type name and how many array dimensions
/// wrap it.  The evaluator never enforces it.
#[derive(Debug, PartialEq)]
pub struct Typing {
    pub name: String,
    pub array_dimensions: usize,
}

/// A named, typed slot: a function parameter or a declared record field.
#[derive(Debug, PartialEq)]
pub struct Item {
    pub name: String,
    pub typing: Typing,
}

/// The payload of a variable declaration.
#[derive(Debug, PartialEq)]
pub enum VariableData {
    Literal(Literal),
    StructInstance(String, Vec<(String, VariableData)>),
    Array(Vec<VariableData>),
    Expression(Box<Expression>),
    Null,
}

/// A binary operation over two sub-expressions.
#[derive(Debug, PartialEq)]
pub struct Operation {
    pub operator: Operator,
    pub left: Box<Expression>,
    pub right: Box<Expression>,
}

/// A call-shaped expression: resolved at run time against, in order, user
/// functions, built-in functions, record types and built-in types.
#[derive(Debug, PartialEq)]
pub struct FunctionCall {
    pub name: String,
    pub args: Vec<Expression>,
}

/// An expression tree.
#[derive(Debug, PartialEq)]
pub enum Expression {
    Literal(Literal),
    Operation(Operation),
    Variable(String),
    FunctionCall(FunctionCall),
}

/// A variable declaration.
#[derive(Debug, PartialEq)]
pub struct Variable {
    pub name: String,
    pub data: VariableData,
}

/// A function declaration: name, ordered parameters, body.
#[derive(Debug, PartialEq)]
pub struct Function {
    pub name: String,
    pub params: Vec<Item>,
    pub body: Rc<Vec<Action>>,
}

/// A record type declaration: name and ordered fields.
#[derive(Debug, PartialEq)]
pub struct Struct {
    pub name: String,
    pub fields: Vec<Item>,
}

/// A conditional construct.  With `repeats` false it is a plain
/// if/else; with `repeats` true it is a loop that re-evaluates the
/// condition after each pass over `then_actions` (the three surface loop
/// forms all lower to this shape, and `else_actions` is then empty).
#[derive(Debug, PartialEq)]
pub struct Conditional {
    pub condition: Expression,
    pub then_actions: Vec<Action>,
    pub else_actions: Vec<Action>,
    pub repeats: bool,
}

/// One step of a program or of a function body.
#[derive(Debug, PartialEq)]
pub enum Action {
    Function(Function),
    Variable(Variable),
    Struct(Struct),
    Operation(Operation),
    Conditional(Conditional),
    Expression(Expression),
}

} // verus!
