//! The operator protocol of the built-in types, on concrete values.

use charlang::builtins::{get_std_functions, get_std_lib};
use charlang::error::Error;
use charlang::ir::Operator;
use charlang::ir::{Literal, VariableData};
use charlang::value::{Bool, Char, Int, Primitive, StringType, Value};

fn int_of(n: i64) -> Value {
    Value::StdStruct(Primitive::Int(Int { number: n }))
}

fn boolean(b: bool) -> Value {
    Value::StdStruct(Primitive::Bool(Bool { value: b }))
}

fn chr(c: char) -> Value {
    Value::StdStruct(Primitive::Char(Char { value: c }))
}

fn text(s: &str) -> Value {
    Value::StdStruct(Primitive::Str(StringType { value: s.to_string() }))
}

#[test]
fn int_division_by_zero_fails() {
    let a = Int { number: 7 };
    assert_eq!(a.div(&int_of(0)), Err(Error::DivisionByZero));
    assert_eq!(a.modulo(&int_of(0)), Err(Error::ModuloByZero));
    let b = Int { number: -3 };
    assert_eq!(b.div(&int_of(0)), Err(Error::DivisionByZero));
    assert_eq!(b.modulo(&int_of(0)), Err(Error::ModuloByZero));
}

#[test]
fn int_div_mod_identity_holds() {
    let cases: Vec<(i64, i64)> = vec![
        (7, 2),
        (-7, 2),
        (7, -2),
        (-7, -2),
        (0, 5),
        (i64::MIN, -1),
        (i64::MIN, 3),
        (i64::MAX, -1),
    ];
    for (a, b) in cases {
        let q = match (Int { number: a }).div(&int_of(b)) {
            Ok(Value::StdStruct(Primitive::Int(q))) => q,
            other => panic!("division gave {:?}", other),
        };
        let r = match (Int { number: a }).modulo(&int_of(b)) {
            Ok(Value::StdStruct(Primitive::Int(r))) => r,
            other => panic!("modulo gave {:?}", other),
        };
        let prod = match q.mul(&int_of(b)) {
            Ok(Value::StdStruct(Primitive::Int(p))) => p,
            other => panic!("multiply gave {:?}", other),
        };
        assert_eq!(prod.add(&int_of(r.number)), Ok(int_of(a)));
    }
}

#[test]
fn int_arithmetic_and_comparisons() {
    let a = Int { number: 6 };
    assert_eq!(a.add(&int_of(2)), Ok(int_of(8)));
    assert_eq!(a.sub(&int_of(2)), Ok(int_of(4)));
    assert_eq!(a.mul(&int_of(2)), Ok(int_of(12)));
    assert_eq!(a.div(&int_of(2)), Ok(int_of(3)));
    assert_eq!(a.modulo(&int_of(4)), Ok(int_of(2)));
    assert_eq!(a.eq(&int_of(6)), Ok(boolean(true)));
    assert_eq!(a.neq(&int_of(6)), Ok(boolean(false)));
    assert_eq!(a.less(&int_of(7)), Ok(boolean(true)));
    assert_eq!(a.less_eq(&int_of(6)), Ok(boolean(true)));
    assert_eq!(a.greater(&int_of(7)), Ok(boolean(false)));
    assert_eq!(a.greater_eq(&int_of(6)), Ok(boolean(true)));
    assert_eq!(a.add(&text("x")), Err(Error::InvalidArgument));
}

#[test]
fn int_truncating_division() {
    assert_eq!(Int { number: -7 }.div(&int_of(2)), Ok(int_of(-3)));
    assert_eq!(Int { number: -7 }.modulo(&int_of(2)), Ok(int_of(-1)));
    assert_eq!(Int { number: 7 }.div(&int_of(-2)), Ok(int_of(-3)));
    assert_eq!(Int { number: 7 }.modulo(&int_of(-2)), Ok(int_of(1)));
}

#[test]
fn string_concatenation_and_repetition() {
    let s = StringType { value: "ab".to_string() };
    assert_eq!(s.add(&text("cd")), Ok(text("abcd")));
    assert_eq!(s.mul(&int_of(0)), Ok(text("")));
    assert_eq!(s.mul(&int_of(3)), Ok(text("ababab")));
    match s.mul(&int_of(5)) {
        Ok(Value::StdStruct(Primitive::Str(t))) => assert_eq!(t.value.len(), 5 * 2),
        other => panic!("repetition gave {:?}", other),
    }
    assert_eq!(s.mul(&int_of(-1)), Err(Error::InvalidArgument));
    assert_eq!(s.mul(&text("x")), Err(Error::InvalidArgument));
}

#[test]
fn string_comparisons_and_subtraction() {
    let s = StringType { value: "abc".to_string() };
    assert_eq!(s.eq(&text("abc")), Ok(boolean(true)));
    assert_eq!(s.neq(&text("abd")), Ok(boolean(true)));
    assert_eq!(s.less(&text("abd")), Ok(boolean(true)));
    let prefix = StringType { value: "ab".to_string() };
    assert_eq!(prefix.less(&text("abc")), Ok(boolean(true)));
    assert_eq!(s.less_eq(&text("abc")), Ok(boolean(true)));
    assert_eq!(s.greater(&text("abb")), Ok(boolean(true)));
    assert_eq!(s.greater_eq(&text("abc")), Ok(boolean(true)));
    assert_eq!(s.sub(&int_of(0)), Ok(text("abc")));
    assert_eq!(
        s.sub(&int_of(1)),
        Err(Error::UnsupportedOperation(Operator::Subtract))
    );
    assert_eq!(
        s.div(&text("a")),
        Err(Error::UnsupportedOperation(Operator::Divide))
    );
    assert_eq!(
        s.modulo(&text("a")),
        Err(Error::UnsupportedOperation(Operator::Modulo))
    );
}

#[test]
fn boolean_operator_overloading() {
    for a in [false, true] {
        // a + a == a (AND), a - a == a (OR)
        assert_eq!(Bool { value: a }.add(&boolean(a)), Ok(boolean(a)));
        assert_eq!(Bool { value: a }.sub(&boolean(a)), Ok(boolean(a)));
    }
    assert_eq!(Bool { value: true }.add(&boolean(false)), Ok(boolean(false)));
    assert_eq!(Bool { value: true }.sub(&boolean(false)), Ok(boolean(true)));
    // false < true, true >= false
    assert_eq!(Bool { value: false }.less(&boolean(true)), Ok(boolean(true)));
    assert_eq!(Bool { value: true }.greater_eq(&boolean(false)), Ok(boolean(true)));
    assert_eq!(Bool { value: true }.less(&boolean(true)), Ok(boolean(false)));
    assert_eq!(Bool { value: false }.less_eq(&boolean(false)), Ok(boolean(true)));
    assert_eq!(Bool { value: true }.greater(&boolean(true)), Ok(boolean(false)));
    assert_eq!(
        Bool { value: true }.mul(&boolean(true)),
        Err(Error::UnsupportedOperation(Operator::Multiply))
    );
    assert_eq!(
        Bool { value: true }.div(&boolean(true)),
        Err(Error::UnsupportedOperation(Operator::Divide))
    );
    assert_eq!(
        Bool { value: true }.modulo(&boolean(true)),
        Err(Error::UnsupportedOperation(Operator::Modulo))
    );
    assert_eq!(Bool { value: true }.add(&int_of(1)), Err(Error::InvalidArgument));
}

#[test]
fn char_operations() {
    let c = Char { value: 'a' };
    assert_eq!(c.add(&chr('b')), Ok(text("ab")));
    assert_eq!(c.mul(&int_of(3)), Ok(text("aaa")));
    assert_eq!(c.mul(&int_of(-1)), Err(Error::InvalidArgument));
    assert_eq!(c.eq(&chr('a')), Ok(boolean(true)));
    assert_eq!(c.neq(&chr('b')), Ok(boolean(true)));
    assert_eq!(c.less(&chr('b')), Ok(boolean(true)));
    assert_eq!(c.less_eq(&chr('a')), Ok(boolean(true)));
    assert_eq!(c.greater(&chr('b')), Ok(boolean(false)));
    assert_eq!(c.greater_eq(&chr('a')), Ok(boolean(true)));
    assert_eq!(
        c.sub(&chr('b')),
        Err(Error::UnsupportedOperation(Operator::Subtract))
    );
}

#[test]
fn wrapping_arithmetic_never_panics() {
    let max = Int { number: i64::MAX };
    assert_eq!(max.add(&int_of(1)), Ok(int_of(i64::MIN)));
    let min = Int { number: i64::MIN };
    assert_eq!(min.sub(&int_of(1)), Ok(int_of(i64::MAX)));
    assert_eq!(min.div(&int_of(-1)), Ok(int_of(i64::MIN)));
    assert_eq!(min.modulo(&int_of(-1)), Ok(int_of(0)));
}

#[test]
fn clone_with_value_round_trip() {
    // For every built-in type: the default value re-constructed from a
    // literal carrying a value's own external representation equals it.
    let int_proto = Primitive::Int(Int { number: 0 });
    let got = int_proto
        .clone_with_value(VariableData::Literal(Literal::Integer(42)))
        .unwrap();
    assert!(Value::StdStruct(got).equals(&int_of(42)));

    let bool_proto = Primitive::Bool(Bool { value: false });
    let got = bool_proto
        .clone_with_value(VariableData::Literal(Literal::Boolean(true)))
        .unwrap();
    assert!(Value::StdStruct(got).equals(&boolean(true)));

    let char_proto = Primitive::Char(Char { value: '\0' });
    let got = char_proto
        .clone_with_value(VariableData::Literal(Literal::Character('z')))
        .unwrap();
    assert!(Value::StdStruct(got).equals(&chr('z')));

    let str_proto = Primitive::Str(StringType { value: String::new() });
    let got = str_proto
        .clone_with_value(VariableData::Literal(Literal::String("hi".to_string())))
        .unwrap();
    assert!(Value::StdStruct(got).equals(&text("hi")));
}

#[test]
fn literal_constructor_arity_and_kind() {
    let proto = Primitive::Int(Int { number: 0 });
    let none: Vec<VariableData> = vec![];
    assert_eq!(proto.from_data(&none), Err(Error::MissingArgument));
    let two = vec![
        VariableData::Literal(Literal::Integer(1)),
        VariableData::Literal(Literal::Integer(2)),
    ];
    assert_eq!(proto.from_data(&two), Err(Error::TooManyArguments));
    let wrong = vec![VariableData::Literal(Literal::String("x".to_string()))];
    assert_eq!(proto.from_data(&wrong), Err(Error::InvalidLiteral));
}

#[test]
fn value_constructor_accepts_same_type_only() {
    let proto = Primitive::Int(Int { number: 0 });
    assert_eq!(proto.from_value(&vec![int_of(9)]), Ok(Primitive::Int(Int { number: 9 })));
    assert_eq!(proto.from_value(&vec![text("9")]), Err(Error::InvalidArgument));
    assert_eq!(proto.from_value(&vec![]), Err(Error::MissingArgument));
    assert_eq!(proto.from_value(&vec![int_of(1), int_of(2)]), Err(Error::TooManyArguments));
}

#[test]
fn std_library_contents() {
    let lib = get_std_lib();
    let names: Vec<String> = lib.iter().map(|p| p.get_name()).collect();
    assert_eq!(names, vec!["int", "string", "char", "bool"]);
    let fns = get_std_functions();
    assert_eq!(fns.len(), 1);
    assert_eq!(fns[0].get_name(), "toString");
}
