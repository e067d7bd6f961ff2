//! Lowering parsed surface programs and running the result.

use charlang::builtins::{get_std_functions, get_std_lib};
use charlang::error::Error;
use charlang::lowering::{IR, LowerError};
use charlang::program::Program;
use charlang::tokens::{
    BinaryOperator, CaseStatement, ExpressionDecl, FieldDecl, ForStatement, FunctionDecl,
    IfStatement, Literal, Parameter, Statement, StructDecl, SwitchStatement, Token, Type,
    UnaryOperator, VariableDecl, WhileStatement,
};
use charlang::value::ExternalValue;

fn ident(name: &str) -> ExpressionDecl {
    ExpressionDecl::Identifier(name.to_string())
}

fn num(n: i64) -> ExpressionDecl {
    ExpressionDecl::Literal(Literal::Integer(n))
}

fn bin(op: BinaryOperator, l: ExpressionDecl, r: ExpressionDecl) -> ExpressionDecl {
    ExpressionDecl::BinaryOp(op, Box::new(l), Box::new(r))
}

fn assign(name: &str, e: ExpressionDecl) -> Statement {
    Statement::Expression(ExpressionDecl::Assignment(Box::new(ident(name)), Box::new(e)))
}

fn decl_int(name: &str, e: ExpressionDecl) -> Statement {
    Statement::Declaration(VariableDecl {
        type_info: Type::Struct("int".to_string()),
        name: name.to_string(),
        initializer: Some(e),
    })
}

fn run_tokens(tokens: Vec<Token>) -> (Program, Result<charlang::value::Value, Error>) {
    let ir = IR::from_tokens(tokens).unwrap();
    let mut program = Program::new();
    program.include_std_library(get_std_lib(), get_std_functions());
    let r = program.run(&ir.actions);
    (program, r)
}

#[test]
fn lowered_for_loop_with_break_runs_body_twice() {
    // int n = 0; for (int i = 0; i < 3; i = i + 1) { n = n + 1; if (i == 1) break; }
    let body = Statement::Compound(vec![
        assign("n", bin(BinaryOperator::Add, ident("n"), num(1))),
        Statement::If(IfStatement {
            condition: bin(BinaryOperator::Equal, ident("i"), num(1)),
            then_branch: Box::new(Statement::Break),
            else_branch: None,
        }),
    ]);
    let tokens = vec![
        Token::Statement(decl_int("n", num(0))),
        Token::Statement(Statement::For(ForStatement {
            initializer: Box::new(decl_int("i", num(0))),
            condition: Some(bin(BinaryOperator::Less, ident("i"), num(3))),
            increment: Some(ExpressionDecl::Assignment(
                Box::new(ident("i")),
                Box::new(bin(BinaryOperator::Add, ident("i"), num(1))),
            )),
            body: Box::new(body),
        })),
    ];
    let (program, r) = run_tokens(tokens);
    r.unwrap();
    let n = program.get_variable(&"n".to_string()).unwrap();
    assert_eq!(n.get_value(), ExternalValue::Integer(2));
}

#[test]
fn lowered_while_loop_sums() {
    // int n = 0; int i = 0; while (i < 4) { n = n + i; i = i + 1; }
    let tokens = vec![
        Token::Statement(decl_int("n", num(0))),
        Token::Statement(decl_int("i", num(0))),
        Token::Statement(Statement::While(WhileStatement {
            condition: bin(BinaryOperator::Less, ident("i"), num(4)),
            body: Box::new(Statement::Compound(vec![
                assign("n", bin(BinaryOperator::Add, ident("n"), ident("i"))),
                assign("i", bin(BinaryOperator::Add, ident("i"), num(1))),
            ])),
        })),
    ];
    let (program, r) = run_tokens(tokens);
    r.unwrap();
    let n = program.get_variable(&"n".to_string()).unwrap();
    assert_eq!(n.get_value(), ExternalValue::Integer(6));
}

#[test]
fn lowered_do_while_runs_at_least_once() {
    // int n = 0; do { n = n + 1; } while (false);
    let tokens = vec![
        Token::Statement(decl_int("n", num(0))),
        Token::Statement(Statement::DoWhile(charlang::tokens::DoWhileStatement {
            body: Box::new(assign("n", bin(BinaryOperator::Add, ident("n"), num(1)))),
            condition: bin(BinaryOperator::Less, ident("n"), num(0)),
        })),
    ];
    let (program, r) = run_tokens(tokens);
    r.unwrap();
    let n = program.get_variable(&"n".to_string()).unwrap();
    assert_eq!(n.get_value(), ExternalValue::Integer(1));
}

#[test]
fn lowered_switch_picks_matching_case_and_default() {
    // switch (x) { case 1: n = 10; break; case 2: n = 20; break; default: n = 99; }
    fn switch_on(x: i64) -> Vec<Token> {
        vec![
            Token::Statement(decl_int("n", num(0))),
            Token::Statement(decl_int("x", num(x))),
            Token::Statement(Statement::Switch(SwitchStatement {
                expression: ident("x"),
                cases: vec![
                    CaseStatement {
                        value: num(1),
                        statements: vec![assign("n", num(10)), Statement::Break],
                    },
                    CaseStatement {
                        value: num(2),
                        statements: vec![assign("n", num(20)), Statement::Break],
                    },
                ],
                default: Some(vec![assign("n", num(99))]),
            })),
        ]
    }
    for (x, expected) in [(1, 10), (2, 20), (7, 99)] {
        let (program, r) = run_tokens(switch_on(x));
        r.unwrap();
        let n = program.get_variable(&"n".to_string()).unwrap();
        assert_eq!(n.get_value(), ExternalValue::Integer(expected), "scrutinee {}", x);
    }
}

#[test]
fn lowered_unary_operators() {
    // int a = -5; declared through the unary lowering 0 - 5.
    let tokens = vec![
        Token::Statement(decl_int(
            "a",
            ExpressionDecl::UnaryOp(UnaryOperator::Negate, Box::new(num(5))),
        )),
    ];
    let (program, r) = run_tokens(tokens);
    r.unwrap();
    let a = program.get_variable(&"a".to_string()).unwrap();
    assert_eq!(a.get_value(), ExternalValue::Integer(-5));

    let tokens = vec![Token::Expression(ExpressionDecl::UnaryOp(
        UnaryOperator::Not,
        Box::new(ExpressionDecl::Literal(Literal::Integer(0))),
    ))];
    // !0 lowers to 0 == false, a type error at run time: int compared to bool.
    let (_, r) = run_tokens(tokens);
    assert_eq!(r, Err(Error::InvalidArgument));
}

#[test]
fn lowered_function_and_struct_declarations() {
    // struct Point { int x; }  Point p() { return Point(5); }  p()
    let tokens = vec![
        Token::Struct(StructDecl {
            name: "Point".to_string(),
            fields: vec![FieldDecl {
                type_info: Type::Struct("int".to_string()),
                name: "x".to_string(),
            }],
        }),
        Token::Function(FunctionDecl {
            return_type: Type::Struct("Point".to_string()),
            name: "p".to_string(),
            parameters: vec![],
            body: vec![Token::Statement(Statement::Return(Some(ExpressionDecl::Call(
                Box::new(ident("Point")),
                vec![num(5)],
            ))))],
        }),
        Token::Expression(ExpressionDecl::Call(Box::new(ident("p")), vec![])),
    ];
    let (_, r) = run_tokens(tokens);
    let v = r.unwrap();
    assert_eq!(v.get_name(), "Point");
    assert_eq!(v.get_value(), ExternalValue::Array(vec![ExternalValue::Integer(5)]));
}

#[test]
fn lowering_rejects_unsupported_shapes() {
    // A bare type token.
    assert_eq!(
        IR::from_tokens(vec![Token::Type(Type::Struct("int".to_string()))]),
        Err(LowerError::TypeToken)
    );
    // An unnamed parameter.
    let f = Token::Function(FunctionDecl {
        return_type: Type::Struct("int".to_string()),
        name: "f".to_string(),
        parameters: vec![Parameter { type_info: Type::Struct("int".to_string()), name: None }],
        body: vec![],
    });
    assert_eq!(IR::from_tokens(vec![f]), Err(LowerError::UnnamedParameter));
    // An unsupported unary operator.
    let t = Token::Expression(ExpressionDecl::UnaryOp(
        UnaryOperator::BitwiseNot,
        Box::new(num(1)),
    ));
    assert_eq!(IR::from_tokens(vec![t]), Err(LowerError::UnsupportedUnary));
    // A call through something other than a name.
    let t = Token::Expression(ExpressionDecl::Call(Box::new(num(1)), vec![]));
    assert_eq!(IR::from_tokens(vec![t]), Err(LowerError::CallTarget));
    // A struct declaration in expression position.
    let t = Token::Expression(ExpressionDecl::Struct("S".to_string(), vec![]));
    assert_eq!(IR::from_tokens(vec![t]), Err(LowerError::StructExpression));
}

#[test]
fn check_reports_whether_a_program_lowers() {
    let good = vec![Token::Statement(decl_int("n", num(0)))];
    assert_eq!(charlang::check(good), None);
    let bad = vec![
        Token::Statement(decl_int("n", num(0))),
        Token::Type(Type::Struct("int".to_string())),
    ];
    assert_eq!(charlang::check(bad), Some(LowerError::TypeToken));
}

#[test]
fn lowered_array_literal_is_comma_chain() {
    // A bare array literal [7, 8] lowers to a comma chain yielding 7.
    let t = Token::Expression(ExpressionDecl::ArrayLiteral(vec![num(7), num(8)]));
    let (_, r) = run_tokens(vec![t]);
    assert_eq!(r.unwrap().get_value(), ExternalValue::Integer(7));
}

#[test]
fn lowered_struct_fields_carry_typing() {
    let tokens = vec![Token::Struct(StructDecl {
        name: "Grid".to_string(),
        fields: vec![FieldDecl {
            type_info: Type::Array(Box::new(Type::Array(Box::new(Type::Struct(
                "int".to_string(),
            ))))),
            name: "cells".to_string(),
        }],
    })];
    let ir = IR::from_tokens(tokens).unwrap();
    match &ir.actions[0] {
        charlang::ir::Action::Struct(sd) => {
            assert_eq!(sd.name, "Grid");
            assert_eq!(sd.fields[0].name, "cells");
            assert_eq!(sd.fields[0].typing.name, "int");
            assert_eq!(sd.fields[0].typing.array_dimensions, 2);
        },
        other => panic!("expected a struct declaration, got {:?}", other),
    }
}
