//! The specification-level interpreter.
//!
//! These spec functions are the definition of the language: what each
//! action, expression and call does to the program state and what it
//! yields.  The executable evaluator in [`crate::program`] is proved to
//! return exactly what they say.
//!
//! Evaluation is budgeted: every recursive descent and every loop
//! iteration consumes one unit of fuel, and an exhausted budget is the
//! `OutOfFuel` error.  This makes the semantics a total function.

use crate::builtins::{prim_binop, prim_clone_with_value, prim_from_value};
use crate::error::ErrorView;
use crate::ir::{Action, Conditional, Expression, Literal, Operation, Operator, VariableData};
use crate::jsonrep::json_text_of;
use crate::value::{
    ext_of, prim_name, FieldView, PrimView, RecordView, ValueView,
};
use vstd::prelude::*;

verus! {

// ---------------------------------------------------------------------------
// Program state, at the spec level
// ---------------------------------------------------------------------------

/// A declared function: name, ordered parameter names, body.
#[verifier::ext_equal]
pub struct FunView {
    pub name: Seq<char>,
    pub params: Seq<Seq<char>>,
    pub body: Seq<Action>,
}

/// A declared record type: name and ordered field names.
#[verifier::ext_equal]
pub struct StructView {
    pub name: Seq<char>,
    pub fields: Seq<Seq<char>>,
}

/// A registered built-in function.
pub enum BuiltinView {
    ToStr,
}

/// The four registries plus the variable bindings.
#[verifier::ext_equal]
pub struct StateView {
    pub types: Seq<PrimView>,
    pub builtins: Seq<BuiltinView>,
    pub functions: Seq<FunView>,
    pub structs: Seq<StructView>,
    pub vars: Seq<(Seq<char>, ValueView)>,
}

/// What evaluating one construct yields: a value, a non-local control
/// signal, or the error that aborts the run.
pub enum Outcome {
    Normal(ValueView),
    Return(ValueView),
    Break,
    Continue,
    Failed(ErrorView),
}

/// The name a built-in function is registered under.
pub open spec fn builtin_name(b: BuiltinView) -> Seq<char> {
    match b {
        BuiltinView::ToStr => "toString"@,
    }
}

// ---------------------------------------------------------------------------
// Name resolution: first match in each registry
// ---------------------------------------------------------------------------

pub open spec fn lookup_type(ts: Seq<PrimView>, name: Seq<char>) -> Option<PrimView>
    decreases ts.len(),
{
    if ts.len() == 0 {
        None
    } else if prim_name(ts[0]) == name {
        Some(ts[0])
    } else {
        lookup_type(ts.skip(1), name)
    }
}

pub open spec fn lookup_builtin(bs: Seq<BuiltinView>, name: Seq<char>) -> Option<BuiltinView>
    decreases bs.len(),
{
    if bs.len() == 0 {
        None
    } else if builtin_name(bs[0]) == name {
        Some(bs[0])
    } else {
        lookup_builtin(bs.skip(1), name)
    }
}

pub open spec fn lookup_fun(fs: Seq<FunView>, name: Seq<char>) -> Option<FunView>
    decreases fs.len(),
{
    if fs.len() == 0 {
        None
    } else if fs[0].name == name {
        Some(fs[0])
    } else {
        lookup_fun(fs.skip(1), name)
    }
}

pub open spec fn lookup_struct(ss: Seq<StructView>, name: Seq<char>) -> Option<StructView>
    decreases ss.len(),
{
    if ss.len() == 0 {
        None
    } else if ss[0].name == name {
        Some(ss[0])
    } else {
        lookup_struct(ss.skip(1), name)
    }
}

pub open spec fn lookup_var(vs: Seq<(Seq<char>, ValueView)>, name: Seq<char>) -> Option<ValueView>
    decreases vs.len(),
{
    if vs.len() == 0 {
        None
    } else if vs[0].0 == name {
        Some(vs[0].1)
    } else {
        lookup_var(vs.skip(1), name)
    }
}

/// Bind or overwrite one variable; the flat scope keeps one binding per
/// name.
pub open spec fn set_var(
    vs: Seq<(Seq<char>, ValueView)>,
    name: Seq<char>,
    v: ValueView,
) -> Seq<(Seq<char>, ValueView)>
    decreases vs.len(),
{
    if vs.len() == 0 {
        seq![(name, v)]
    } else if vs[0].0 == name {
        seq![(name, v)] + vs.skip(1)
    } else {
        seq![vs[0]] + set_var(vs.skip(1), name, v)
    }
}

/// Register or replace one built-in type prototype, keyed by its name.
pub open spec fn set_type(ts: Seq<PrimView>, p: PrimView) -> Seq<PrimView>
    decreases ts.len(),
{
    if ts.len() == 0 {
        seq![p]
    } else if prim_name(ts[0]) == prim_name(p) {
        seq![p] + ts.skip(1)
    } else {
        seq![ts[0]] + set_type(ts.skip(1), p)
    }
}

/// Register or replace one built-in function, keyed by its name.
pub open spec fn set_builtin(bs: Seq<BuiltinView>, b: BuiltinView) -> Seq<BuiltinView>
    decreases bs.len(),
{
    if bs.len() == 0 {
        seq![b]
    } else if builtin_name(bs[0]) == builtin_name(b) {
        seq![b] + bs.skip(1)
    } else {
        seq![bs[0]] + set_builtin(bs.skip(1), b)
    }
}

/// Register a list of type prototypes, in order.
pub open spec fn set_types(ts: Seq<PrimView>, ps: Seq<PrimView>) -> Seq<PrimView>
    decreases ps.len(),
{
    if ps.len() == 0 {
        ts
    } else {
        set_types(set_type(ts, ps[0]), ps.skip(1))
    }
}

/// Register a list of built-in functions, in order.
pub open spec fn set_builtins(bs: Seq<BuiltinView>, ns: Seq<BuiltinView>) -> Seq<BuiltinView>
    decreases ns.len(),
{
    if ns.len() == 0 {
        bs
    } else {
        set_builtins(set_builtin(bs, ns[0]), ns.skip(1))
    }
}

pub proof fn lemma_set_types_step(ts: Seq<PrimView>, ps: Seq<PrimView>, p: PrimView)
    ensures
        set_types(ts, ps.push(p)) == set_type(set_types(ts, ps), p),
    decreases ps.len(),
{
    if ps.len() == 0 {
        assert(ps.push(p).skip(1) =~= Seq::<PrimView>::empty());
        assert(ps.push(p)[0] == p);
        assert(set_types(ts, ps.push(p)) == set_types(set_type(ts, p), ps.push(p).skip(1)));
        assert(set_types(set_type(ts, p), ps.push(p).skip(1)) == set_type(ts, p));
        assert(set_types(ts, ps) == ts);
    } else {
        assert(ps.push(p)[0] == ps[0]);
        assert(ps.push(p).skip(1) =~= ps.skip(1).push(p));
        lemma_set_types_step(set_type(ts, ps[0]), ps.skip(1), p);
        assert(set_types(ts, ps.push(p)) == set_types(set_type(ts, ps[0]), ps.skip(1).push(p)));
        assert(set_types(ts, ps) == set_types(set_type(ts, ps[0]), ps.skip(1)));
    }
}

pub proof fn lemma_set_builtins_step(bs: Seq<BuiltinView>, ns: Seq<BuiltinView>, b: BuiltinView)
    ensures
        set_builtins(bs, ns.push(b)) == set_builtin(set_builtins(bs, ns), b),
    decreases ns.len(),
{
    if ns.len() == 0 {
        assert(ns.push(b).skip(1) =~= Seq::<BuiltinView>::empty());
        assert(ns.push(b)[0] == b);
        assert(set_builtins(bs, ns.push(b)) == set_builtins(set_builtin(bs, b), ns.push(b).skip(1)));
        assert(set_builtins(set_builtin(bs, b), ns.push(b).skip(1)) == set_builtin(bs, b));
        assert(set_builtins(bs, ns) == bs);
    } else {
        assert(ns.push(b)[0] == ns[0]);
        assert(ns.push(b).skip(1) =~= ns.skip(1).push(b));
        lemma_set_builtins_step(set_builtin(bs, ns[0]), ns.skip(1), b);
        assert(set_builtins(bs, ns.push(b)) == set_builtins(set_builtin(bs, ns[0]), ns.skip(1).push(b)));
        assert(set_builtins(bs, ns) == set_builtins(set_builtin(bs, ns[0]), ns.skip(1)));
    }
}

/// The state a fresh program with the default built-in library holds:
/// the four default types and `toString` registered, nothing declared,
/// no bindings.
pub open spec fn initial_state() -> StateView {
    StateView {
        types: set_types(
            Seq::empty(),
            seq![
                PrimView::Int(0),
                PrimView::Str(Seq::empty()),
                PrimView::Char(' '),
                PrimView::Bool(false),
            ],
        ),
        builtins: set_builtins(Seq::empty(), seq![BuiltinView::ToStr]),
        functions: Seq::empty(),
        structs: Seq::empty(),
        vars: Seq::empty(),
    }
}

// ---------------------------------------------------------------------------
// Declarations
// ---------------------------------------------------------------------------

/// Parameter names of a declared function.
pub open spec fn item_names(items: Seq<crate::ir::Item>) -> Seq<Seq<char>>
    decreases items.len(),
{
    if items.len() == 0 {
        Seq::empty()
    } else {
        seq![items[0].name@] + item_names(items.skip(1))
    }
}

/// The registry entry a function declaration makes.
pub open spec fn fun_decl_view(f: crate::ir::Function) -> FunView {
    FunView { name: f.name@, params: item_names(f.params@), body: f.body@ }
}

/// The registry entry a record type declaration makes.
pub open spec fn struct_decl_view(s: crate::ir::Struct) -> StructView {
    StructView { name: s.name@, fields: item_names(s.fields@) }
}

/// Declaring a function: its name must be new among the declared
/// functions, and the declaration yields the unit value.
pub open spec fn decl_function(st: StateView, f: crate::ir::Function) -> (StateView, Outcome) {
    if lookup_fun(st.functions, f.name@) is Some {
        (st, Outcome::Failed(ErrorView::DuplicateDefinition(f.name@)))
    } else {
        (
            StateView { functions: st.functions.push(fun_decl_view(f)), ..st },
            Outcome::Normal(ValueView::Null),
        )
    }
}

/// Declaring a record type: its name must collide neither with another
/// record type nor with a registered built-in type.
pub open spec fn decl_struct(st: StateView, s: crate::ir::Struct) -> (StateView, Outcome) {
    if lookup_struct(st.structs, s.name@) is Some || lookup_type(st.types, s.name@) is Some {
        (st, Outcome::Failed(ErrorView::DuplicateDefinition(s.name@)))
    } else {
        (
            StateView { structs: st.structs.push(struct_decl_view(s)), ..st },
            Outcome::Normal(ValueView::Null),
        )
    }
}

// ---------------------------------------------------------------------------
// Literals
// ---------------------------------------------------------------------------

/// The fixed name of the built-in type a literal belongs to.
pub open spec fn literal_type_name(lit: Literal) -> Seq<char> {
    match lit {
        Literal::Integer(_) => "int"@,
        Literal::String(_) => "string"@,
        Literal::Character(_) => "char"@,
        Literal::Boolean(_) => "bool"@,
    }
}

/// A literal becomes a primitive through the registered prototype of its
/// type: an unregistered type name is `UndefinedName`.
pub open spec fn eval_literal(st: StateView, lit: Literal) -> Outcome {
    match lookup_type(st.types, literal_type_name(lit)) {
        Some(proto) => match prim_clone_with_value(proto, VariableData::Literal(lit)) {
            Ok(p) => Outcome::Normal(ValueView::Prim(p)),
            Err(e) => Outcome::Failed(e),
        },
        None => Outcome::Failed(ErrorView::UndefinedName(literal_type_name(lit))),
    }
}

// ---------------------------------------------------------------------------
// Pure operator application
// ---------------------------------------------------------------------------

/// Applying one of the eleven value operators to two evaluated operands:
/// the left operand must be a primitive and decides the semantics; the
/// one exception is subtracting the integer zero from any value, which is
/// the identity.
pub open spec fn apply_binop(op: Operator, l: ValueView, r: ValueView) -> Outcome {
    match l {
        ValueView::Prim(p) => match prim_binop(op, p, r) {
            Ok(v) => Outcome::Normal(v),
            Err(e) => Outcome::Failed(e),
        },
        _ => {
            if op == Operator::Subtract && r == ValueView::Prim(PrimView::Int(0)) {
                Outcome::Normal(l)
            } else {
                Outcome::Failed(ErrorView::TypeMismatch)
            }
        },
    }
}

/// The logical connectives additionally require both operands to be
/// boolean primitives; `And` then dispatches to the boolean `add` (AND)
/// and `Or` to the boolean `sub` (OR).
pub open spec fn apply_logic(op: Operator, l: ValueView, r: ValueView) -> Outcome {
    if !(l matches ValueView::Prim(PrimView::Bool(_)))
        || !(r matches ValueView::Prim(PrimView::Bool(_))) {
        Outcome::Failed(ErrorView::TypeMismatch)
    } else {
        let dispatched = if op == Operator::And {
            Operator::Add
        } else {
            Operator::Subtract
        };
        apply_binop(dispatched, l, r)
    }
}

/// Is a value the boolean `true`?  `None` if it is not a boolean at all.
pub open spec fn as_bool(v: ValueView) -> Option<bool> {
    match v {
        ValueView::Prim(PrimView::Bool(b)) => Some(b),
        _ => None,
    }
}

// ---------------------------------------------------------------------------
// The interpreter
// ---------------------------------------------------------------------------

pub open spec fn eval_expr(st: StateView, e: Expression, fuel: nat) -> (StateView, Outcome)
    decreases fuel, 0nat,
{
    if fuel == 0 {
        (st, Outcome::Failed(ErrorView::OutOfFuel))
    } else {
        let f = (fuel - 1) as nat;
        match e {
            Expression::Literal(lit) => (st, eval_literal(st, lit)),
            Expression::Variable(name) => (
                st,
                match lookup_var(st.vars, name@) {
                    Some(v) => Outcome::Normal(v),
                    None => Outcome::Normal(ValueView::Null),
                },
            ),
            Expression::Operation(op) => eval_operation(st, op, f),
            Expression::FunctionCall(fc) => {
                let (st1, r) = eval_exprs(st, fc.args@, f);
                match r {
                    Ok(vals) => eval_call(st1, fc.name@, vals, f),
                    Err(out) => (st1, out),
                }
            },
        }
    }
}

/// Left-to-right evaluation of an argument list; the first non-value
/// outcome stops it.
pub open spec fn eval_exprs(st: StateView, es: Seq<Expression>, fuel: nat) -> (
    StateView,
    Result<Seq<ValueView>, Outcome>,
)
    decreases fuel, es.len(),
{
    if fuel == 0 {
        (st, Err(Outcome::Failed(ErrorView::OutOfFuel)))
    } else if es.len() == 0 {
        (st, Ok(Seq::empty()))
    } else {
        let (st1, out) = eval_expr(st, es[0], (fuel - 1) as nat);
        match out {
            Outcome::Normal(v) => {
                let (st2, rest) = eval_exprs(st1, es.skip(1), fuel);
                match rest {
                    Ok(vs) => (st2, Ok(seq![v] + vs)),
                    Err(o) => (st2, Err(o)),
                }
            },
            _ => (st1, Err(out)),
        }
    }
}

pub open spec fn eval_operation(st: StateView, op: Operation, fuel: nat) -> (StateView, Outcome)
    decreases fuel, 0nat,
{
    if fuel == 0 {
        (st, Outcome::Failed(ErrorView::OutOfFuel))
    } else {
        let f = (fuel - 1) as nat;
        match op.operator {
            Operator::Break => (st, Outcome::Break),
            Operator::Continue => (st, Outcome::Continue),
            Operator::Return => {
                let (st1, out) = eval_expr(st, *op.left, f);
                match out {
                    Outcome::Normal(v) => (st1, Outcome::Return(v)),
                    _ => (st1, out),
                }
            },
            Operator::Expression => eval_expr(st, *op.left, f),
            Operator::Assignment => match *op.left {
                Expression::Variable(name) => {
                    let (st1, out) = eval_expr(st, *op.right, f);
                    match out {
                        Outcome::Normal(v) => (
                            StateView { vars: set_var(st1.vars, name@, v), ..st1 },
                            Outcome::Normal(v),
                        ),
                        _ => (st1, out),
                    }
                },
                _ => (st, Outcome::Failed(ErrorView::UnsupportedOperation(Operator::Assignment))),
            },
            Operator::Comma => {
                let (st1, out) = eval_expr(st, *op.left, f);
                match out {
                    Outcome::Normal(l) => {
                        let (st2, out2) = eval_expr(st1, *op.right, f);
                        match out2 {
                            Outcome::Normal(_) => (st2, Outcome::Normal(l)),
                            _ => (st2, out2),
                        }
                    },
                    _ => (st1, out),
                }
            },
            Operator::ArrayAccess | Operator::MemberAccess | Operator::Conditional => {
                let (st1, out) = eval_expr(st, *op.left, f);
                match out {
                    Outcome::Normal(_) => {
                        let (st2, out2) = eval_expr(st1, *op.right, f);
                        match out2 {
                            Outcome::Normal(_) => (
                                st2,
                                Outcome::Failed(ErrorView::UnsupportedOperation(op.operator)),
                            ),
                            _ => (st2, out2),
                        }
                    },
                    _ => (st1, out),
                }
            },
            Operator::And | Operator::Or => {
                let (st1, out) = eval_expr(st, *op.left, f);
                match out {
                    Outcome::Normal(l) => {
                        let (st2, out2) = eval_expr(st1, *op.right, f);
                        match out2 {
                            Outcome::Normal(r) => (st2, apply_logic(op.operator, l, r)),
                            _ => (st2, out2),
                        }
                    },
                    _ => (st1, out),
                }
            },
            _ => {
                let (st1, out) = eval_expr(st, *op.left, f);
                match out {
                    Outcome::Normal(l) => {
                        let (st2, out2) = eval_expr(st1, *op.right, f);
                        match out2 {
                            Outcome::Normal(r) => (st2, apply_binop(op.operator, l, r)),
                            _ => (st2, out2),
                        }
                    },
                    _ => (st1, out),
                }
            },
        }
    }
}

/// Resolution of a call-shaped expression, first match wins: user
/// function, built-in function, record type, registered built-in type;
/// nothing is `UndefinedName`.
pub open spec fn eval_call(
    st: StateView,
    name: Seq<char>,
    args: Seq<ValueView>,
    fuel: nat,
) -> (StateView, Outcome)
    decreases fuel, 4nat,
{
    if fuel == 0 {
        (st, Outcome::Failed(ErrorView::OutOfFuel))
    } else {
        match lookup_fun(st.functions, name) {
            Some(fun) => {
                let (st2, rr) = call_fun(st, fun, args, fuel);
                match rr {
                    Ok(v) => (st2, Outcome::Normal(v)),
                    Err(e) => (st2, Outcome::Failed(e)),
                }
            },
            None => match lookup_builtin(st.builtins, name) {
                Some(b) => (st, eval_builtin(st, b, args)),
                None => match lookup_struct(st.structs, name) {
                    Some(s) => {
                        if args.len() != s.fields.len() {
                            (st, Outcome::Failed(ErrorView::ArityMismatch(name)))
                        } else {
                            (
                                st,
                                Outcome::Normal(
                                    ValueView::Rec(
                                        RecordView {
                                            name: s.name,
                                            fields: zip_fields(s.fields, args),
                                        },
                                    ),
                                ),
                            )
                        }
                    },
                    None => match lookup_type(st.types, name) {
                        Some(proto) => match prim_from_value(proto, args) {
                            Ok(p) => (st, Outcome::Normal(ValueView::Prim(p))),
                            Err(e) => (st, Outcome::Failed(e)),
                        },
                        None => (st, Outcome::Failed(ErrorView::UndefinedName(name))),
                    },
                },
            },
        }
    }
}

/// Running a declared function: the arguments must match the parameters
/// in number; the body runs in a fresh copy of the caller's bindings with
/// the arguments bound over them, against the shared registries; the
/// caller's bindings come back afterwards.  A `Return` signal or the last
/// evaluated value is the result (a stray `Break` or `Continue` ends the
/// body as the unit value).
pub open spec fn call_fun(
    st: StateView,
    fun: FunView,
    args: Seq<ValueView>,
    fuel: nat,
) -> (StateView, Result<ValueView, ErrorView>)
    decreases fuel, 3nat,
{
    if fuel == 0 {
        (st, Err(ErrorView::OutOfFuel))
    } else if args.len() != fun.params.len() {
        (st, Err(ErrorView::ArityMismatch(fun.name)))
    } else {
        let inner = StateView { vars: bind_params(st.vars, fun.params, args), ..st };
        let (st2, out) = eval_seq(inner, fun.body, (fuel - 1) as nat);
        let back = StateView { vars: st.vars, ..st2 };
        match out {
            Outcome::Normal(v) => (back, Ok(v)),
            Outcome::Return(v) => (back, Ok(v)),
            Outcome::Break => (back, Ok(ValueView::Null)),
            Outcome::Continue => (back, Ok(ValueView::Null)),
            Outcome::Failed(e) => (back, Err(e)),
        }
    }
}

/// The callee's environment: a copy of the caller's bindings taken at the
/// call, with the arguments bound over them positionally.
pub open spec fn bind_params(
    vars: Seq<(Seq<char>, ValueView)>,
    params: Seq<Seq<char>>,
    args: Seq<ValueView>,
) -> Seq<(Seq<char>, ValueView)>
    recommends
        params.len() == args.len(),
    decreases params.len(),
{
    if params.len() == 0 {
        vars
    } else {
        bind_params(set_var(vars, params[0], args[0]), params.skip(1), args.skip(1))
    }
}

/// A declared record type applied to positional field values.
pub open spec fn zip_fields(names: Seq<Seq<char>>, args: Seq<ValueView>) -> Seq<FieldView>
    recommends
        names.len() == args.len(),
    decreases names.len(),
{
    if names.len() == 0 {
        Seq::empty()
    } else {
        seq![FieldView { name: names[0], value: args[0] }] + zip_fields(
            names.skip(1),
            args.skip(1),
        )
    }
}

/// The built-in functions.  `toString` turns any value's external
/// representation into a string primitive (the string type must be
/// registered).
pub open spec fn eval_builtin(st: StateView, b: BuiltinView, args: Seq<ValueView>) -> Outcome {
    match b {
        BuiltinView::ToStr => {
            if args.len() != 1 {
                Outcome::Failed(ErrorView::ArityMismatch("toString"@))
            } else if lookup_type(st.types, "string"@) is Some {
                Outcome::Normal(ValueView::Prim(PrimView::Str(json_text_of(ext_of(args[0])))))
            } else {
                Outcome::Failed(ErrorView::UndefinedName("string"@))
            }
        },
    }
}

pub open spec fn eval_action(st: StateView, a: Action, fuel: nat) -> (StateView, Outcome)
    decreases fuel, 1nat,
{
    if fuel == 0 {
        (st, Outcome::Failed(ErrorView::OutOfFuel))
    } else {
        let f = (fuel - 1) as nat;
        match a {
            Action::Function(fd) => decl_function(st, fd),
            Action::Struct(sd) => decl_struct(st, sd),
            Action::Variable(vd) => {
                let (st1, out) = eval_vardata(st, vd.data, f);
                match out {
                    Outcome::Normal(v) => (
                        StateView { vars: set_var(st1.vars, vd.name@, v), ..st1 },
                        Outcome::Normal(ValueView::Null),
                    ),
                    _ => (st1, out),
                }
            },
            Action::Operation(op) => eval_operation(st, op, f),
            Action::Expression(e) => eval_expr(st, e, f),
            Action::Conditional(c) => {
                if c.repeats {
                    eval_loop(st, c, f)
                } else {
                    let (st1, out) = eval_expr(st, c.condition, f);
                    match out {
                        Outcome::Normal(v) => match as_bool(v) {
                            Some(true) => eval_seq(st1, c.then_actions@, f),
                            Some(false) => eval_seq(st1, c.else_actions@, f),
                            None => (st1, Outcome::Failed(ErrorView::TypeMismatch)),
                        },
                        _ => (st1, out),
                    }
                }
            },
        }
    }
}

/// An action sequence: members run in order; the first non-value outcome
/// stops it and propagates; a completed sequence yields its last value
/// (unit when empty).
pub open spec fn eval_seq(st: StateView, acts: Seq<Action>, fuel: nat) -> (StateView, Outcome)
    decreases fuel, acts.len(),
{
    if fuel == 0 {
        (st, Outcome::Failed(ErrorView::OutOfFuel))
    } else if acts.len() == 0 {
        (st, Outcome::Normal(ValueView::Null))
    } else {
        let (st1, out) = eval_action(st, acts[0], (fuel - 1) as nat);
        match out {
            Outcome::Normal(v) => {
                if acts.len() == 1 {
                    (st1, Outcome::Normal(v))
                } else {
                    eval_seq(st1, acts.skip(1), fuel)
                }
            },
            _ => (st1, out),
        }
    }
}

/// A loop: re-evaluate the condition (a boolean) before each pass over
/// the body; `Break` ends the loop as the unit value, `Continue` moves to
/// the next check, `Return` and errors propagate; a false condition ends
/// the loop as the unit value.  Each iteration consumes fuel.
pub open spec fn eval_loop(st: StateView, c: Conditional, fuel: nat) -> (StateView, Outcome)
    decreases fuel, 0nat,
{
    if fuel == 0 {
        (st, Outcome::Failed(ErrorView::OutOfFuel))
    } else {
        let f = (fuel - 1) as nat;
        let (st1, out) = eval_expr(st, c.condition, f);
        match out {
            Outcome::Normal(v) => match as_bool(v) {
                Some(true) => {
                    let (st2, out2) = eval_seq(st1, c.then_actions@, f);
                    match out2 {
                        Outcome::Normal(_) => eval_loop(st2, c, f),
                        Outcome::Continue => eval_loop(st2, c, f),
                        Outcome::Break => (st2, Outcome::Normal(ValueView::Null)),
                        _ => (st2, out2),
                    }
                },
                Some(false) => (st1, Outcome::Normal(ValueView::Null)),
                None => (st1, Outcome::Failed(ErrorView::TypeMismatch)),
            },
            _ => (st1, out),
        }
    }
}

/// The payload of a variable declaration: a literal, a named struct
/// instance, an array, an expression, or nothing (the unit value).
pub open spec fn eval_vardata(st: StateView, d: VariableData, fuel: nat) -> (StateView, Outcome)
    decreases fuel, 1nat,
{
    if fuel == 0 {
        (st, Outcome::Failed(ErrorView::OutOfFuel))
    } else {
        let f = (fuel - 1) as nat;
        match d {
            VariableData::Literal(lit) => (st, eval_literal(st, lit)),
            VariableData::Expression(e) => eval_expr(st, *e, f),
            VariableData::Null => (st, Outcome::Normal(ValueView::Null)),
            VariableData::Array(ds) => {
                let (st1, r) = eval_vardata_list(st, ds@, f);
                match r {
                    Ok(vs) => (st1, Outcome::Normal(ValueView::Arr(vs))),
                    Err(out) => (st1, out),
                }
            },
            VariableData::StructInstance(name, pairs) => {
                match lookup_struct(st.structs, name@) {
                    Some(s) => {
                        let (st1, r) = eval_field_pairs(st, pairs@, s.fields, f);
                        match r {
                            Ok(fs) => (
                                st1,
                                Outcome::Normal(
                                    ValueView::Rec(RecordView { name: name@, fields: fs }),
                                ),
                            ),
                            Err(out) => (st1, out),
                        }
                    },
                    None => (st, Outcome::Failed(ErrorView::UndefinedName(name@))),
                }
            },
        }
    }
}

/// Array elements, left to right.
pub open spec fn eval_vardata_list(st: StateView, ds: Seq<VariableData>, fuel: nat) -> (
    StateView,
    Result<Seq<ValueView>, Outcome>,
)
    decreases fuel, ds.len(),
{
    if fuel == 0 {
        (st, Err(Outcome::Failed(ErrorView::OutOfFuel)))
    } else if ds.len() == 0 {
        (st, Ok(Seq::empty()))
    } else {
        let (st1, out) = eval_vardata(st, ds[0], (fuel - 1) as nat);
        match out {
            Outcome::Normal(v) => {
                let (st2, rest) = eval_vardata_list(st1, ds.skip(1), fuel);
                match rest {
                    Ok(vs) => (st2, Ok(seq![v] + vs)),
                    Err(o) => (st2, Err(o)),
                }
            },
            _ => (st1, Err(out)),
        }
    }
}

/// Supplied fields of a struct instance, in supplied order.  A field
/// name absent from the declaration is silently dropped, unevaluated.
pub open spec fn eval_field_pairs(
    st: StateView,
    pairs: Seq<(String, VariableData)>,
    declared: Seq<Seq<char>>,
    fuel: nat,
) -> (StateView, Result<Seq<FieldView>, Outcome>)
    decreases fuel, pairs.len(),
{
    if fuel == 0 {
        (st, Err(Outcome::Failed(ErrorView::OutOfFuel)))
    } else if pairs.len() == 0 {
        (st, Ok(Seq::empty()))
    } else if !declared.contains(pairs[0].0@) {
        eval_field_pairs(st, pairs.skip(1), declared, fuel)
    } else {
        let (st1, out) = eval_vardata(st, pairs[0].1, (fuel - 1) as nat);
        match out {
            Outcome::Normal(v) => {
                let (st2, rest) = eval_field_pairs(st1, pairs.skip(1), declared, fuel);
                match rest {
                    Ok(fs) => (
                        st2,
                        Ok(seq![FieldView { name: pairs[0].0@, value: v }] + fs),
                    ),
                    Err(o) => (st2, Err(o)),
                }
            },
            _ => (st1, Err(out)),
        }
    }
}

/// A whole program: declarations register in order; the first bare
/// expression or operation ends the run with its value (a `Return`
/// signal anywhere does the same, and a top-level `Break` or `Continue`
/// is an unsupported operation); a run with no such action yields unit.
pub open spec fn run_actions(st: StateView, acts: Seq<Action>, fuel: nat) -> (
    StateView,
    Result<ValueView, ErrorView>,
)
    decreases fuel, acts.len(),
{
    if fuel == 0 {
        (st, Err(ErrorView::OutOfFuel))
    } else if acts.len() == 0 {
        (st, Ok(ValueView::Null))
    } else {
        let bare = acts[0] matches Action::Expression(_) || acts[0] matches Action::Operation(_);
        let (st1, out) = eval_action(st, acts[0], (fuel - 1) as nat);
        match out {
            Outcome::Normal(v) => {
                if bare {
                    (st1, Ok(v))
                } else {
                    run_actions(st1, acts.skip(1), fuel)
                }
            },
            Outcome::Return(v) => (st1, Ok(v)),
            Outcome::Break => (
                st1,
                Err(ErrorView::UnsupportedOperation(Operator::Break)),
            ),
            Outcome::Continue => (
                st1,
                Err(ErrorView::UnsupportedOperation(Operator::Continue)),
            ),
            Outcome::Failed(e) => (st1, Err(e)),
        }
    }
}

} // verus!
