//! End-to-end runs of lowered programs through the evaluator.

use charlang::builtins::{get_std_functions, get_std_lib};
use charlang::error::Error;
use charlang::ir::{
    Action, Conditional, Expression, Function, FunctionCall, Item, Literal, Operation, Operator,
    Struct, Typing, Variable, VariableData,
};
use charlang::program::Program;
use charlang::value::{ExternalValue, Primitive, Value};
use std::rc::Rc;

fn lit(n: i64) -> Expression {
    Expression::Literal(Literal::Integer(n))
}

fn var(name: &str) -> Expression {
    Expression::Variable(name.to_string())
}

fn binop(op: Operator, l: Expression, r: Expression) -> Expression {
    Expression::Operation(Operation { operator: op, left: Box::new(l), right: Box::new(r) })
}

fn call(name: &str, args: Vec<Expression>) -> Expression {
    Expression::FunctionCall(FunctionCall { name: name.to_string(), args })
}

fn stmt(op: Operator, l: Expression, r: Expression) -> Action {
    Action::Operation(Operation { operator: op, left: Box::new(l), right: Box::new(r) })
}

fn int_item(name: &str) -> Item {
    Item {
        name: name.to_string(),
        typing: Typing { name: "int".to_string(), array_dimensions: 0 },
    }
}

fn decl_var(name: &str, e: Expression) -> Action {
    Action::Variable(Variable {
        name: name.to_string(),
        data: VariableData::Expression(Box::new(e)),
    })
}

fn new_program() -> Program {
    let mut program = Program::new();
    program.include_std_library(get_std_lib(), get_std_functions());
    program
}

#[test]
fn point_record_scenario() {
    // struct Point { int x; }  Point p() { return Point(5); }  p()
    let actions = vec![
        Action::Struct(Struct { name: "Point".to_string(), fields: vec![int_item("x")] }),
        Action::Function(Function {
            name: "p".to_string(),
            params: vec![],
            body: Rc::new(vec![stmt(Operator::Return, call("Point", vec![lit(5)]), lit(0))]),
        }),
        Action::Expression(call("p", vec![])),
    ];
    let result = charlang::run(&actions).unwrap();
    assert_eq!(result.get_name(), "Point");
    match &result {
        Value::Struct(rec) => {
            assert_eq!(rec.name, "Point");
            assert_eq!(rec.fields.len(), 1);
            assert_eq!(rec.fields[0].name, "x");
            assert_eq!(rec.fields[0].value.get_value(), ExternalValue::Integer(5));
        },
        other => panic!("expected a record, got {:?}", other),
    }
    assert_eq!(
        result.get_value(),
        ExternalValue::Array(vec![ExternalValue::Integer(5)])
    );
}

#[test]
fn for_loop_with_break_runs_body_twice() {
    // for (int i = 0; i < 3; i = i + 1) { if (i == 1) break; }
    // lowered: the declaration, then a repeating conditional whose body is
    // the surface body followed by the increment; a counter observes how
    // often the body runs.
    let body_count = stmt(
        Operator::Assignment,
        var("n"),
        binop(Operator::Add, var("n"), lit(1)),
    );
    let body_break = Action::Conditional(Conditional {
        condition: binop(Operator::Equal, var("i"), lit(1)),
        then_actions: vec![stmt(Operator::Break, lit(0), lit(0))],
        else_actions: vec![],
        repeats: false,
    });
    let increment = stmt(
        Operator::Assignment,
        var("i"),
        binop(Operator::Add, var("i"), lit(1)),
    );
    let actions = vec![
        decl_var("n", lit(0)),
        decl_var("i", lit(0)),
        Action::Conditional(Conditional {
            condition: binop(Operator::Less, var("i"), lit(3)),
            then_actions: vec![body_count, body_break, increment],
            else_actions: vec![],
            repeats: true,
        }),
    ];
    let mut program = new_program();
    program.run(&actions).unwrap();
    let n = program.get_variable(&"n".to_string()).unwrap();
    assert_eq!(n.get_value(), ExternalValue::Integer(2));
    let i = program.get_variable(&"i".to_string()).unwrap();
    assert_eq!(i.get_value(), ExternalValue::Integer(1));
}

#[test]
fn while_loop_computes_sum() {
    // n = 0; i = 0; while (i < 5) { n = n + i; i = i + 1; }
    let actions = vec![
        decl_var("n", lit(0)),
        decl_var("i", lit(0)),
        Action::Conditional(Conditional {
            condition: binop(Operator::Less, var("i"), lit(5)),
            then_actions: vec![
                stmt(Operator::Assignment, var("n"), binop(Operator::Add, var("n"), var("i"))),
                stmt(Operator::Assignment, var("i"), binop(Operator::Add, var("i"), lit(1))),
            ],
            else_actions: vec![],
            repeats: true,
        }),
    ];
    let mut program = new_program();
    program.run(&actions).unwrap();
    let n = program.get_variable(&"n".to_string()).unwrap();
    assert_eq!(n.get_value(), ExternalValue::Integer(10));
}

#[test]
fn continue_skips_rest_of_iteration() {
    // count only odd i in 0..5: if (i % 2 == 0) { i = i + 1; continue; }
    let actions = vec![
        decl_var("n", lit(0)),
        decl_var("i", lit(0)),
        Action::Conditional(Conditional {
            condition: binop(Operator::Less, var("i"), lit(5)),
            then_actions: vec![
                Action::Conditional(Conditional {
                    condition: binop(
                        Operator::Equal,
                        binop(Operator::Modulo, var("i"), lit(2)),
                        lit(0),
                    ),
                    then_actions: vec![
                        stmt(
                            Operator::Assignment,
                            var("i"),
                            binop(Operator::Add, var("i"), lit(1)),
                        ),
                        stmt(Operator::Continue, lit(0), lit(0)),
                    ],
                    else_actions: vec![],
                    repeats: false,
                }),
                stmt(Operator::Assignment, var("n"), binop(Operator::Add, var("n"), lit(1))),
                stmt(Operator::Assignment, var("i"), binop(Operator::Add, var("i"), lit(1))),
            ],
            else_actions: vec![],
            repeats: true,
        }),
    ];
    let mut program = new_program();
    program.run(&actions).unwrap();
    let n = program.get_variable(&"n".to_string()).unwrap();
    assert_eq!(n.get_value(), ExternalValue::Integer(2));
}

#[test]
fn to_string_of_int() {
    // toString(42) yields a string primitive with external form "42".
    let actions = vec![Action::Expression(call("toString", vec![lit(42)]))];
    let result = charlang::run(&actions).unwrap();
    assert_eq!(result.get_name(), "string");
    assert_eq!(result.get_value(), ExternalValue::Text("42".to_string()));
}

#[test]
fn to_string_of_record_and_string() {
    let actions = vec![
        Action::Struct(Struct { name: "Point".to_string(), fields: vec![int_item("x")] }),
        Action::Expression(call("toString", vec![call("Point", vec![lit(5)])])),
    ];
    let result = charlang::run(&actions).unwrap();
    assert_eq!(result.get_value(), ExternalValue::Text("[5]".to_string()));

    let actions = vec![Action::Expression(call(
        "toString",
        vec![Expression::Literal(Literal::String("hi".to_string()))],
    ))];
    let result = charlang::run(&actions).unwrap();
    assert_eq!(result.get_value(), ExternalValue::Text("\"hi\"".to_string()));
}

#[test]
fn undeclared_call_is_undefined_name() {
    let actions = vec![Action::Expression(call("foo", vec![]))];
    assert_eq!(charlang::run(&actions), Err(Error::UndefinedName("foo".to_string())));
}

#[test]
fn duplicate_definitions_are_rejected() {
    let mut program = new_program();
    let f = Function {
        name: "f".to_string(),
        params: vec![],
        body: Rc::new(vec![stmt(Operator::Return, lit(1), lit(0))]),
    };
    program.run(&vec![Action::Function(f)]).unwrap();
    let f_again = Function {
        name: "f".to_string(),
        params: vec![int_item("x")],
        body: Rc::new(vec![]),
    };
    assert_eq!(
        program.run(&vec![Action::Function(f_again)]),
        Err(Error::DuplicateDefinition("f".to_string()))
    );
    // The original declaration stays usable.
    let result = program.run(&vec![Action::Expression(call("f", vec![]))]).unwrap();
    assert_eq!(result.get_value(), ExternalValue::Integer(1));

    let s = Struct { name: "S".to_string(), fields: vec![int_item("x")] };
    program.run(&vec![Action::Struct(s)]).unwrap();
    let s_again = Struct { name: "S".to_string(), fields: vec![] };
    assert_eq!(
        program.run(&vec![Action::Struct(s_again)]),
        Err(Error::DuplicateDefinition("S".to_string()))
    );
    // A record type may not shadow a registered built-in type.
    let clash = Struct { name: "int".to_string(), fields: vec![] };
    assert_eq!(
        program.run(&vec![Action::Struct(clash)]),
        Err(Error::DuplicateDefinition("int".to_string()))
    );
}

#[test]
fn call_arity_is_checked() {
    let actions = vec![
        Action::Struct(Struct { name: "Point".to_string(), fields: vec![int_item("x")] }),
        Action::Expression(call("Point", vec![lit(1), lit(2)])),
    ];
    assert_eq!(charlang::run(&actions), Err(Error::ArityMismatch("Point".to_string())));

    let actions = vec![Action::Expression(call("toString", vec![]))];
    assert_eq!(charlang::run(&actions), Err(Error::ArityMismatch("toString".to_string())));

    let actions = vec![
        Action::Function(Function {
            name: "g".to_string(),
            params: vec![int_item("x")],
            body: Rc::new(vec![stmt(Operator::Return, var("x"), lit(0))]),
        }),
        Action::Expression(call("g", vec![])),
    ];
    assert_eq!(charlang::run(&actions), Err(Error::ArityMismatch("g".to_string())));
}

#[test]
fn builtin_type_constructor_arity() {
    let actions = vec![Action::Expression(call("int", vec![]))];
    assert_eq!(charlang::run(&actions), Err(Error::MissingArgument));
    let actions = vec![Action::Expression(call("int", vec![lit(1), lit(2)]))];
    assert_eq!(charlang::run(&actions), Err(Error::TooManyArguments));
    let actions = vec![Action::Expression(call("int", vec![lit(9)]))];
    assert_eq!(charlang::run(&actions).unwrap().get_value(), ExternalValue::Integer(9));
    let bad = vec![Action::Expression(call(
        "int",
        vec![Expression::Literal(Literal::String("x".to_string()))],
    ))];
    assert_eq!(charlang::run(&bad), Err(Error::InvalidArgument));
}

#[test]
fn non_boolean_condition_is_type_mismatch() {
    let actions = vec![Action::Conditional(Conditional {
        condition: lit(1),
        then_actions: vec![],
        else_actions: vec![],
        repeats: false,
    })];
    assert_eq!(charlang::run(&actions), Err(Error::TypeMismatch));
}

#[test]
fn logical_connectives_require_booleans() {
    let t = Expression::Literal(Literal::Boolean(true));
    let f = Expression::Literal(Literal::Boolean(false));
    let actions = vec![Action::Expression(binop(Operator::And, t, f))];
    let result = charlang::run(&actions).unwrap();
    assert_eq!(result.get_value(), ExternalValue::Boolean(false));

    let t = Expression::Literal(Literal::Boolean(true));
    let f = Expression::Literal(Literal::Boolean(false));
    let actions = vec![Action::Expression(binop(Operator::Or, f, t))];
    let result = charlang::run(&actions).unwrap();
    assert_eq!(result.get_value(), ExternalValue::Boolean(true));

    let t = Expression::Literal(Literal::Boolean(true));
    let actions = vec![Action::Expression(binop(Operator::And, t, lit(1)))];
    assert_eq!(charlang::run(&actions), Err(Error::TypeMismatch));
}

#[test]
fn callee_cannot_change_callers_bindings() {
    // x = 1; f() { x = 2; return x; }; calling f yields 2 but leaves the
    // caller's x untouched.
    let actions = vec![
        decl_var("x", lit(1)),
        Action::Function(Function {
            name: "f".to_string(),
            params: vec![],
            body: Rc::new(vec![
                stmt(Operator::Assignment, var("x"), lit(2)),
                stmt(Operator::Return, var("x"), lit(0)),
            ]),
        }),
        decl_var("y", call("f", vec![])),
    ];
    let mut program = new_program();
    program.run(&actions).unwrap();
    let y = program.get_variable(&"y".to_string()).unwrap();
    assert_eq!(y.get_value(), ExternalValue::Integer(2));
    let x = program.get_variable(&"x".to_string()).unwrap();
    assert_eq!(x.get_value(), ExternalValue::Integer(1));
}

#[test]
fn callee_sees_copy_of_callers_bindings() {
    let actions = vec![
        decl_var("x", lit(7)),
        Action::Function(Function {
            name: "f".to_string(),
            params: vec![],
            body: Rc::new(vec![stmt(Operator::Return, var("x"), lit(0))]),
        }),
        Action::Expression(call("f", vec![])),
    ];
    let result = charlang::run(&actions).unwrap();
    assert_eq!(result.get_value(), ExternalValue::Integer(7));
}

#[test]
fn unknown_variable_reads_as_unit() {
    let actions = vec![Action::Expression(var("nowhere"))];
    let result = charlang::run(&actions).unwrap();
    assert_eq!(result.get_value(), ExternalValue::Null);
}

#[test]
fn comma_yields_left_and_return_short_circuits() {
    let actions = vec![Action::Expression(binop(Operator::Comma, lit(1), lit(2)))];
    assert_eq!(charlang::run(&actions).unwrap().get_value(), ExternalValue::Integer(1));

    // Statements after a return never run.
    let actions = vec![
        Action::Function(Function {
            name: "f".to_string(),
            params: vec![],
            body: Rc::new(vec![
                stmt(Operator::Return, lit(3), lit(0)),
                stmt(Operator::Assignment, var("x"), lit(9)),
            ]),
        }),
        decl_var("r", call("f", vec![])),
    ];
    let mut program = new_program();
    program.run(&actions).unwrap();
    let r = program.get_variable(&"r".to_string()).unwrap();
    assert_eq!(r.get_value(), ExternalValue::Integer(3));
    assert!(program.get_variable(&"x".to_string()).is_none());
}

#[test]
fn unsupported_operators_report_the_operator() {
    let actions = vec![Action::Expression(binop(Operator::ArrayAccess, lit(1), lit(0)))];
    assert_eq!(
        charlang::run(&actions),
        Err(Error::UnsupportedOperation(Operator::ArrayAccess))
    );
    let actions = vec![stmt(Operator::Break, lit(0), lit(0))];
    assert_eq!(
        charlang::run(&actions),
        Err(Error::UnsupportedOperation(Operator::Break))
    );
}

#[test]
fn runaway_recursion_exhausts_the_budget() {
    // f() { return f(); } — unbounded recursion ends as OutOfFuel rather
    // than overrunning the stack.
    let actions = vec![
        Action::Function(Function {
            name: "f".to_string(),
            params: vec![],
            body: Rc::new(vec![stmt(Operator::Return, call("f", vec![]), lit(0))]),
        }),
        Action::Expression(call("f", vec![])),
    ];
    let mut program = new_program();
    assert_eq!(program.run_with_fuel(&actions, 300), Err(Error::OutOfFuel));
}

#[test]
fn endless_loop_exhausts_the_budget() {
    // while (true) {} cannot finish; the budget turns it into an error.
    let actions = vec![Action::Conditional(Conditional {
        condition: Expression::Literal(Literal::Boolean(true)),
        then_actions: vec![],
        else_actions: vec![],
        repeats: true,
    })];
    let mut program = new_program();
    assert_eq!(program.run_with_fuel(&actions, 1000), Err(Error::OutOfFuel));
}

#[test]
fn builtin_constructors_copy_same_type_values() {
    for (name, arg, expected) in [
        ("bool", Expression::Literal(Literal::Boolean(true)), ExternalValue::Boolean(true)),
        ("char", Expression::Literal(Literal::Character('q')), ExternalValue::Text("q".to_string())),
        (
            "string",
            Expression::Literal(Literal::String("hi".to_string())),
            ExternalValue::Text("hi".to_string()),
        ),
    ] {
        let actions = vec![Action::Expression(call(name, vec![arg]))];
        let v = charlang::run(&actions).unwrap();
        assert_eq!(v.get_name(), name);
        assert_eq!(v.get_value(), expected);
    }
    // A value of another type is not accepted.
    let actions = vec![Action::Expression(call(
        "bool",
        vec![Expression::Literal(Literal::Character('t'))],
    ))];
    assert_eq!(charlang::run(&actions), Err(Error::InvalidArgument));
}

#[test]
fn empty_program_yields_unit() {
    let actions: Vec<Action> = vec![];
    let result = charlang::run(&actions).unwrap();
    assert!(result.equals(&Value::Null));
    assert_eq!(result.get_value(), ExternalValue::Null);
}

#[test]
fn struct_instance_data_filters_unknown_fields() {
    let actions = vec![
        Action::Struct(Struct { name: "Point".to_string(), fields: vec![int_item("x")] }),
        Action::Variable(Variable {
            name: "q".to_string(),
            data: VariableData::StructInstance(
                "Point".to_string(),
                vec![
                    ("y".to_string(), VariableData::Literal(Literal::Integer(9))),
                    ("x".to_string(), VariableData::Literal(Literal::Integer(1))),
                ],
            ),
        }),
    ];
    let mut program = new_program();
    program.run(&actions).unwrap();
    let q = program.get_variable(&"q".to_string()).unwrap();
    assert_eq!(q.get_name(), "Point");
    assert_eq!(q.get_value(), ExternalValue::Array(vec![ExternalValue::Integer(1)]));
}

#[test]
fn array_data_evaluates_elementwise() {
    let actions = vec![Action::Variable(Variable {
        name: "a".to_string(),
        data: VariableData::Array(vec![
            VariableData::Literal(Literal::Integer(1)),
            VariableData::Literal(Literal::Boolean(true)),
        ]),
    })];
    let mut program = new_program();
    program.run(&actions).unwrap();
    let a = program.get_variable(&"a".to_string()).unwrap();
    assert_eq!(a.get_name(), "Array");
    assert_eq!(
        a.get_value(),
        ExternalValue::Array(vec![
            ExternalValue::Integer(1),
            ExternalValue::Boolean(true),
        ])
    );
}

#[test]
fn value_equality_is_by_type_name_and_representation() {
    let a = Value::StdStruct(Primitive::Char(charlang::value::Char { value: 'a' }));
    let s = Value::StdStruct(Primitive::Str(charlang::value::StringType {
        value: "a".to_string(),
    }));
    // Same external representation, different type names.
    assert_eq!(a.get_value(), s.get_value());
    assert!(!a.equals(&s));
    assert!(a.equals(&Value::StdStruct(Primitive::Char(charlang::value::Char { value: 'a' }))));
    assert!(Value::Null.equals(&Value::Null));
    assert!(!Value::Null.equals(&a));
}

#[test]
fn lookup_value_resolves_types_and_structs() {
    let mut program = new_program();
    let v = program.get_value(&"int".to_string());
    assert_eq!(v.get_name(), "int");
    program
        .run(&vec![Action::Struct(Struct {
            name: "Point".to_string(),
            fields: vec![int_item("x")],
        })])
        .unwrap();
    let v = program.get_value(&"Point".to_string());
    assert_eq!(v.get_name(), "Point");
    let v = program.get_value(&"nothing".to_string());
    assert_eq!(v.get_name(), "Null");
}
