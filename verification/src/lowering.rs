//! Lowering the parsed surface tree to the flat IR the evaluator runs.
//!
//! The three surface loop forms lower to the repeating conditional, a
//! `switch` lowers to a chain of equality conditionals (with the default
//! as the chain's final else) wrapped in a run-once loop so that `break`
//! ends the chain, and every other construct maps one-to-one.
//!
//! The lowering is total except for the few surface shapes that have no
//! meaning here, each rejected with a [`LowerError`].  The relations
//! `expr_lowers_to`, `stmt_lowers_to` and `token_lowers_to` state the
//! exact shape of the output, and the error functions state exactly which
//! input fails and how.

use crate::ir::{Action, Expression, Operator};
use crate::tokens::{
    BinaryOperator, CaseStatement, DoWhileStatement, ExpressionDecl, FieldDecl, ForStatement,
    IfStatement, Literal, Parameter, Statement, SwitchStatement, Token, Type, UnaryOperator,
    WhileStatement,
};
use vstd::prelude::*;

verus! {

/// Why a surface tree cannot be lowered.
#[derive(Debug, Clone, Copy, PartialEq, Eq, Structural)]
pub enum LowerError {
    /// A call whose target is not a plain identifier.
    CallTarget,
    /// A unary operator with no meaning here (only negation and logical
    /// not lower).
    UnsupportedUnary,
    /// A struct declaration in expression position.
    StructExpression,
    /// A parameter without a name.
    UnnamedParameter,
    /// A bare type at the top level of a program.
    TypeToken,
}

/// The first error of two scans.
pub open spec fn first_of(a: Option<LowerError>, b: Option<LowerError>) -> Option<LowerError> {
    match a {
        Some(x) => Some(x),
        None => b,
    }
}

/// The IR operator a surface binary operator lowers to.
pub open spec fn lower_operator(op: BinaryOperator) -> Operator {
    match op {
        BinaryOperator::Add => Operator::Add,
        BinaryOperator::Subtract => Operator::Subtract,
        BinaryOperator::Multiply => Operator::Multiply,
        BinaryOperator::Divide => Operator::Divide,
        BinaryOperator::Modulo => Operator::Modulo,
        BinaryOperator::Equal => Operator::Equal,
        BinaryOperator::NotEqual => Operator::NotEqual,
        BinaryOperator::Less => Operator::Less,
        BinaryOperator::LessEqual => Operator::LessEqual,
        BinaryOperator::Greater => Operator::Greater,
        BinaryOperator::GreaterEqual => Operator::GreaterEqual,
        BinaryOperator::And => Operator::And,
        BinaryOperator::Or => Operator::Or,
    }
}

/// The name under all the array dimensions of a surface type.
pub open spec fn type_base_name(t: Type) -> String
    decreases t,
{
    match t {
        Type::Array(b) => type_base_name(*b),
        Type::Struct(n) => n,
    }
}

/// How many array dimensions wrap a surface type (saturating at the
/// machine bound, which no real tree reaches).
pub open spec fn type_dims(t: Type) -> usize
    decreases t,
{
    match t {
        Type::Struct(_) => 0,
        Type::Array(b) => if type_dims(*b) == usize::MAX {
            usize::MAX
        } else {
            (type_dims(*b) + 1) as usize
        },
    }
}

/// Do these IR items describe exactly these surface fields?
pub open spec fn items_match(fs: Seq<FieldDecl>, items: Seq<crate::ir::Item>) -> bool {
    items.len() == fs.len() && (forall|i: int|
        0 <= i < fs.len() ==> (#[trigger] items[i]).name == fs[i].name && items[i].typing.name
            == type_base_name(fs[i].type_info) && items[i].typing.array_dimensions == type_dims(
            fs[i].type_info,
        ))
}

/// Do these IR items describe exactly these (named) parameters?
pub open spec fn params_match(ps: Seq<Parameter>, items: Seq<crate::ir::Item>) -> bool {
    items.len() == ps.len() && (forall|i: int|
        0 <= i < ps.len() ==> (ps[i].name matches Some(n) && (#[trigger] items[i]).name == n
            && items[i].typing.name == type_base_name(ps[i].type_info)
            && items[i].typing.array_dimensions == type_dims(ps[i].type_info)))
}

/// The first parameter without a name, if any.
pub open spec fn params_error(ps: Seq<Parameter>) -> Option<LowerError>
    decreases ps.len(),
{
    if ps.len() == 0 {
        None
    } else if ps[0].name is None {
        Some(LowerError::UnnamedParameter)
    } else {
        params_error(ps.skip(1))
    }
}

// ---------------------------------------------------------------------------
// Expressions
// ---------------------------------------------------------------------------

/// Does the IR expression `out` lower the surface expression `e`?
/// Negation lowers to `0 - x`, logical not to `x == false`, a ternary to
/// the conditional operator over a comma pair, and an array literal to a
/// comma chain ending in the integer zero.
pub open spec fn expr_lowers_to(e: ExpressionDecl, out: Expression) -> bool
    decreases e,
{
    match e {
        ExpressionDecl::Literal(l) => match l {
            Literal::Integer(n) => out == Expression::Literal(crate::ir::Literal::Integer(n)),
            Literal::String(s) => out == Expression::Literal(crate::ir::Literal::String(s)),
            Literal::Char(c) => out == Expression::Literal(crate::ir::Literal::Character(c)),
        },
        ExpressionDecl::Identifier(n) => out == Expression::Variable(n),
        ExpressionDecl::BinaryOp(op, l, r) => out matches Expression::Operation(o) && o.operator
            == lower_operator(op) && expr_lowers_to(*l, *o.left) && expr_lowers_to(*r, *o.right),
        ExpressionDecl::UnaryOp(op, x) => match op {
            UnaryOperator::Negate => out matches Expression::Operation(o) && o.operator
                == Operator::Subtract && *o.left == Expression::Literal(
                crate::ir::Literal::Integer(0),
            ) && expr_lowers_to(*x, *o.right),
            UnaryOperator::Not => out matches Expression::Operation(o) && o.operator
                == Operator::Equal && expr_lowers_to(*x, *o.left) && *o.right
                == Expression::Literal(crate::ir::Literal::Boolean(false)),
            _ => false,
        },
        ExpressionDecl::Call(f, args) => *f matches ExpressionDecl::Identifier(n) && (
        out matches Expression::FunctionCall(fc) && fc.name == n && exprs_lower_to(
            args@,
            fc.args@,
        )),
        ExpressionDecl::Cast(_, x) => expr_lowers_to(*x, out),
        ExpressionDecl::ArrayAccess(a, i) => out matches Expression::Operation(o) && o.operator
            == Operator::ArrayAccess && expr_lowers_to(*a, *o.left) && expr_lowers_to(
            *i,
            *o.right,
        ),
        ExpressionDecl::MemberAccess(a, m) => out matches Expression::Operation(o) && o.operator
            == Operator::MemberAccess && expr_lowers_to(*a, *o.left) && *o.right
            == Expression::Literal(crate::ir::Literal::String(m)),
        ExpressionDecl::Assignment(l, r) => out matches Expression::Operation(o) && o.operator
            == Operator::Assignment && expr_lowers_to(*l, *o.left) && expr_lowers_to(
            *r,
            *o.right,
        ),
        ExpressionDecl::Conditional(c, t, e2) => out matches Expression::Operation(o)
            && o.operator == Operator::Conditional && expr_lowers_to(*c, *o.left) && (
        *o.right matches Expression::Operation(inner) && inner.operator == Operator::Comma
            && expr_lowers_to(*t, *inner.left) && expr_lowers_to(*e2, *inner.right)),
        ExpressionDecl::ArrayLiteral(es) => array_lowers_to(es@, out),
        ExpressionDecl::Struct(_, _) => false,
    }
}

/// Element-wise lowering of an argument list.
pub open spec fn exprs_lower_to(es: Seq<ExpressionDecl>, out: Seq<Expression>) -> bool
    decreases es,
{
    out.len() == es.len() && (forall|i: int|
        0 <= i < es.len() ==> expr_lowers_to(es[i], #[trigger] out[i]))
}

/// An array literal lowers to a comma chain ending in the integer zero.
pub open spec fn array_lowers_to(es: Seq<ExpressionDecl>, out: Expression) -> bool
    decreases es,
{
    if es.len() == 0 {
        out == Expression::Literal(crate::ir::Literal::Integer(0))
    } else {
        out matches Expression::Operation(o) && o.operator == Operator::Comma && expr_lowers_to(
            es[0],
            *o.left,
        ) && array_lowers_to(es.skip(1), *o.right)
    }
}

/// The first reason a surface expression cannot lower, if any.
pub open spec fn expr_error(e: ExpressionDecl) -> Option<LowerError>
    decreases e,
{
    match e {
        ExpressionDecl::Literal(_) => None,
        ExpressionDecl::Identifier(_) => None,
        ExpressionDecl::BinaryOp(_, l, r) => first_of(expr_error(*l), expr_error(*r)),
        ExpressionDecl::UnaryOp(op, x) => match op {
            UnaryOperator::Negate => expr_error(*x),
            UnaryOperator::Not => expr_error(*x),
            _ => Some(LowerError::UnsupportedUnary),
        },
        ExpressionDecl::Call(f, args) => if !(*f matches ExpressionDecl::Identifier(_)) {
            Some(LowerError::CallTarget)
        } else {
            exprs_error(args@)
        },
        ExpressionDecl::Cast(_, x) => expr_error(*x),
        ExpressionDecl::ArrayAccess(a, i) => first_of(expr_error(*a), expr_error(*i)),
        ExpressionDecl::MemberAccess(a, _) => expr_error(*a),
        ExpressionDecl::Assignment(l, r) => first_of(expr_error(*l), expr_error(*r)),
        ExpressionDecl::Conditional(c, t, e2) => first_of(
            expr_error(*c),
            first_of(expr_error(*t), expr_error(*e2)),
        ),
        ExpressionDecl::ArrayLiteral(es) => array_error(es@),
        ExpressionDecl::Struct(_, _) => Some(LowerError::StructExpression),
    }
}

/// Errors of an argument list, left to right.
pub open spec fn exprs_error(es: Seq<ExpressionDecl>) -> Option<LowerError>
    decreases es,
{
    if es.len() == 0 {
        None
    } else {
        first_of(exprs_error(es.drop_last()), expr_error(es.last()))
    }
}

/// Errors of an array literal; the chain is built back to front, so the
/// last element is scanned first.
pub open spec fn array_error(es: Seq<ExpressionDecl>) -> Option<LowerError>
    decreases es,
{
    if es.len() == 0 {
        None
    } else {
        first_of(expr_error(es.last()), array_error(es.drop_last()))
    }
}

// ---------------------------------------------------------------------------
// Statements
// ---------------------------------------------------------------------------

/// Does the action sequence `out` lower the surface statement `s`?
pub open spec fn stmt_lowers_to(s: Statement, out: Seq<Action>) -> bool
    decreases s,
{
    match s {
        Statement::Compound(ss) => stmts_lower_to(ss@, out),
        Statement::If(i) => out.len() == 1 && (out[0] matches Action::Conditional(c)
            && !c.repeats && expr_lowers_to(i.condition, c.condition) && stmt_lowers_to(
            *i.then_branch,
            c.then_actions@,
        ) && (match i.else_branch {
            Some(e) => stmt_lowers_to(*e, c.else_actions@),
            None => c.else_actions@.len() == 0,
        })),
        Statement::While(w) => out.len() == 1 && (out[0] matches Action::Conditional(c)
            && c.repeats && expr_lowers_to(w.condition, c.condition) && stmt_lowers_to(
            *w.body,
            c.then_actions@,
        ) && c.else_actions@.len() == 0),
        Statement::For(f) => out.len() >= 1 && stmt_lowers_to(*f.initializer, out.drop_last())
            && (out.last() matches Action::Conditional(c) && c.repeats && (match f.condition {
            Some(ce) => expr_lowers_to(ce, c.condition),
            None => c.condition == Expression::Literal(crate::ir::Literal::Boolean(true)),
        }) && (match f.increment {
            Some(ie) => c.then_actions@.len() >= 1 && stmt_lowers_to(
                *f.body,
                c.then_actions@.drop_last(),
            ) && (c.then_actions@.last() matches Action::Expression(x) && expr_lowers_to(ie, x)),
            None => stmt_lowers_to(*f.body, c.then_actions@),
        }) && c.else_actions@.len() == 0),
        Statement::DoWhile(d) => out.len() == 1 && (out[0] matches Action::Conditional(c)
            && c.repeats && c.condition == Expression::Literal(crate::ir::Literal::Boolean(true))
            && c.else_actions@.len() == 0 && c.then_actions@.len() >= 1 && stmt_lowers_to(
            *d.body,
            c.then_actions@.drop_last(),
        ) && (c.then_actions@.last() matches Action::Conditional(g) && !g.repeats
            && expr_lowers_to(d.condition, g.condition) && g.then_actions@.len() == 0
            && g.else_actions@.len() == 1 && (g.else_actions@[0] matches Action::Operation(o)
            && o.operator == Operator::Break))),
        Statement::Switch(sw) => out.len() == 1 && (out[0] matches Action::Conditional(c)
            && c.repeats && c.condition == Expression::Literal(crate::ir::Literal::Boolean(true))
            && c.else_actions@.len() == 0 && c.then_actions@.len() >= 1 && (
        c.then_actions@.last() matches Action::Operation(o) && o.operator == Operator::Break) && (
        exists|tail: Seq<Action>|
            #![auto]
            (match sw.default {
                Some(ds) => stmts_lower_to(ds@, tail),
                None => tail.len() == 0,
            }) && chain_lowers(sw.expression, sw.cases@, c.then_actions@.drop_last(), tail))),
        Statement::Return(o) => out.len() == 1 && (out[0] matches Action::Operation(op)
            && op.operator == Operator::Return && (match o {
            Some(e) => expr_lowers_to(e, *op.left),
            None => *op.left == Expression::Literal(crate::ir::Literal::Integer(0)),
        })),
        Statement::Break => out.len() == 1 && (out[0] matches Action::Operation(op) && op.operator
            == Operator::Break),
        Statement::Continue => out.len() == 1 && (out[0] matches Action::Operation(op)
            && op.operator == Operator::Continue),
        Statement::Expression(e) => out.len() == 1 && (out[0] matches Action::Operation(op)
            && op.operator == Operator::Expression && expr_lowers_to(e, *op.left)),
        Statement::Declaration(vd) => out.len() == 1 && (out[0] matches Action::Variable(v)
            && v.name == vd.name && (match vd.initializer {
            Some(e) => v.data matches crate::ir::VariableData::Expression(b) && expr_lowers_to(
                e,
                *b,
            ),
            None => v.data is Null,
        })),
    }
}

/// A statement list lowers to the concatenation of its members'
/// lowerings.
pub open spec fn stmts_lower_to(ss: Seq<Statement>, out: Seq<Action>) -> bool
    decreases ss,
{
    if ss.len() == 0 {
        out.len() == 0
    } else {
        exists|k: int|
            #![auto]
            0 <= k <= out.len() && stmts_lower_to(ss.drop_last(), out.take(k)) && stmt_lowers_to(
                ss.last(),
                out.skip(k),
            )
    }
}

/// The switch chain: one equality conditional per case against the
/// scrutinee, each case's else holding the rest of the chain, and the
/// lowered default (`tail`) as the innermost else.
pub open spec fn chain_lowers(
    scrut: ExpressionDecl,
    cases: Seq<CaseStatement>,
    acts: Seq<Action>,
    tail: Seq<Action>,
) -> bool
    decreases cases,
{
    if cases.len() == 0 {
        acts == tail
    } else {
        acts.len() == 1 && (acts[0] matches Action::Conditional(cc) && !cc.repeats && (
        cc.condition matches Expression::Operation(o) && o.operator == Operator::Equal
            && expr_lowers_to(scrut, *o.left) && expr_lowers_to(cases[0].value, *o.right))
            && stmts_lower_to(cases[0].statements@, cc.then_actions@) && chain_lowers(
            scrut,
            cases.skip(1),
            cc.else_actions@,
            tail,
        ))
    }
}

/// The first reason a statement cannot lower, if any.
pub open spec fn stmt_error(s: Statement) -> Option<LowerError>
    decreases s,
{
    match s {
        Statement::Compound(ss) => stmts_error(ss@),
        Statement::If(i) => first_of(
            expr_error(i.condition),
            first_of(
                stmt_error(*i.then_branch),
                match i.else_branch {
                    Some(e) => stmt_error(*e),
                    None => None,
                },
            ),
        ),
        Statement::While(w) => first_of(expr_error(w.condition), stmt_error(*w.body)),
        Statement::For(f) => first_of(
            stmt_error(*f.initializer),
            first_of(
                match f.condition {
                    Some(c) => expr_error(c),
                    None => None,
                },
                first_of(
                    stmt_error(*f.body),
                    match f.increment {
                        Some(x) => expr_error(x),
                        None => None,
                    },
                ),
            ),
        ),
        Statement::DoWhile(d) => first_of(stmt_error(*d.body), expr_error(d.condition)),
        Statement::Switch(sw) => first_of(
            expr_error(sw.expression),
            first_of(
                match sw.default {
                    Some(ds) => stmts_error(ds@),
                    None => None,
                },
                cases_error(sw.cases@),
            ),
        ),
        Statement::Return(o) => match o {
            Some(e) => expr_error(e),
            None => None,
        },
        Statement::Break => None,
        Statement::Continue => None,
        Statement::Expression(e) => expr_error(e),
        Statement::Declaration(vd) => match vd.initializer {
            Some(e) => expr_error(e),
            None => None,
        },
    }
}

/// Errors of a statement list, left to right.
pub open spec fn stmts_error(ss: Seq<Statement>) -> Option<LowerError>
    decreases ss,
{
    if ss.len() == 0 {
        None
    } else {
        first_of(stmts_error(ss.drop_last()), stmt_error(ss.last()))
    }
}

/// Errors of the cases; the chain is built back to front, so the last
/// case is scanned first.
pub open spec fn cases_error(cs: Seq<CaseStatement>) -> Option<LowerError>
    decreases cs,
{
    if cs.len() == 0 {
        None
    } else {
        first_of(
            first_of(expr_error(cs.last().value), stmts_error(cs.last().statements@)),
            cases_error(cs.drop_last()),
        )
    }
}

// ---------------------------------------------------------------------------
// Top-level tokens
// ---------------------------------------------------------------------------

/// Does the action sequence `out` lower the top-level token `t`?
pub open spec fn token_lowers_to(t: Token, out: Seq<Action>) -> bool
    decreases t,
{
    match t {
        Token::Function(fd) => out.len() == 1 && (out[0] matches Action::Function(g) && g.name
            == fd.name && params_match(fd.parameters@, g.params@) && tokens_lower_to(
            fd.body@,
            g.body@,
        )),
        Token::Struct(sd) => out.len() == 1 && (out[0] matches Action::Struct(d) && d.name
            == sd.name && items_match(sd.fields@, d.fields@)),
        Token::Variable(vd) => out.len() == 1 && (out[0] matches Action::Variable(v) && v.name
            == vd.name && (match vd.initializer {
            Some(e) => v.data matches crate::ir::VariableData::Expression(b) && expr_lowers_to(
                e,
                *b,
            ),
            None => v.data is Null,
        })),
        Token::Statement(s) => stmt_lowers_to(s, out),
        Token::Expression(e) => out.len() == 1 && (out[0] matches Action::Operation(o)
            && o.operator == Operator::Comma && expr_lowers_to(e, *o.left) && *o.right
            == Expression::Literal(crate::ir::Literal::Integer(0))),
        Token::Type(_) => false,
    }
}

/// A token list lowers to the concatenation of its members' lowerings.
pub open spec fn tokens_lower_to(ts: Seq<Token>, out: Seq<Action>) -> bool
    decreases ts,
{
    if ts.len() == 0 {
        out.len() == 0
    } else {
        exists|k: int|
            #![auto]
            0 <= k <= out.len() && tokens_lower_to(ts.drop_last(), out.take(k)) && token_lowers_to(
                ts.last(),
                out.skip(k),
            )
    }
}

/// The first reason a token cannot lower, if any.
pub open spec fn token_error(t: Token) -> Option<LowerError>
    decreases t,
{
    match t {
        Token::Function(fd) => first_of(params_error(fd.parameters@), tokens_error(fd.body@)),
        Token::Struct(_) => None,
        Token::Variable(vd) => match vd.initializer {
            Some(e) => expr_error(e),
            None => None,
        },
        Token::Statement(s) => stmt_error(s),
        Token::Expression(e) => expr_error(e),
        Token::Type(_) => Some(LowerError::TypeToken),
    }
}

/// Errors of a token list, left to right.
pub open spec fn tokens_error(ts: Seq<Token>) -> Option<LowerError>
    decreases ts,
{
    if ts.len() == 0 {
        None
    } else {
        first_of(tokens_error(ts.drop_last()), token_error(ts.last()))
    }
}

// ---------------------------------------------------------------------------
// Executable lowering
// ---------------------------------------------------------------------------

/// The IR operator of a surface binary operator.
fn lower_operator_exec(op: BinaryOperator) -> (r: Operator)
    ensures
        r == lower_operator(op),
{
    match op {
        BinaryOperator::Add => Operator::Add,
        BinaryOperator::Subtract => Operator::Subtract,
        BinaryOperator::Multiply => Operator::Multiply,
        BinaryOperator::Divide => Operator::Divide,
        BinaryOperator::Modulo => Operator::Modulo,
        BinaryOperator::Equal => Operator::Equal,
        BinaryOperator::NotEqual => Operator::NotEqual,
        BinaryOperator::Less => Operator::Less,
        BinaryOperator::LessEqual => Operator::LessEqual,
        BinaryOperator::Greater => Operator::Greater,
        BinaryOperator::GreaterEqual => Operator::GreaterEqual,
        BinaryOperator::And => Operator::And,
        BinaryOperator::Or => Operator::Or,
    }
}

/// Flatten a surface type to its name and array-dimension count.
fn lower_typing(t: Type) -> (r: crate::ir::Typing)
    ensures
        r.name == type_base_name(t),
        r.array_dimensions == type_dims(t),
    decreases t,
{
    match t {
        Type::Struct(n) => crate::ir::Typing { name: n, array_dimensions: 0 },
        Type::Array(b) => {
            let mut ty = lower_typing(*b);
            if ty.array_dimensions < usize::MAX {
                ty.array_dimensions = ty.array_dimensions + 1;
            }
            ty
        },
    }
}

/// Lower declared fields to IR items, in order.
fn lower_fields(fs: Vec<FieldDecl>) -> (r: Vec<crate::ir::Item>)
    ensures
        items_match(fs@, r@),
    decreases fs@,
{
    let mut rest = fs;
    if rest.len() == 0 {
        return Vec::new();
    }
    let last = rest.pop().unwrap();
    let ghost orig = rest@.push(last);
    proof {
        assert(orig =~= fs@);
    }
    let mut items = lower_fields(rest);
    items.push(crate::ir::Item { name: last.name, typing: lower_typing(last.type_info) });
    proof {
        assert(forall|i: int| 0 <= i < orig.len() - 1 ==> orig[i] == orig.drop_last()[i]);
    }
    items
}

/// Lower parameters to IR items; every parameter must carry a name.
fn lower_params(ps: Vec<Parameter>) -> (r: Result<Vec<crate::ir::Item>, LowerError>)
    ensures
        params_error(ps@) matches Some(err) ==> r == Err::<Vec<crate::ir::Item>, LowerError>(err),
        params_error(ps@) is None ==> (r matches Ok(items) && params_match(ps@, items@)),
    decreases ps@.len(),
{
    let mut rest = ps;
    if rest.len() == 0 {
        return Ok(Vec::new());
    }
    let last = rest.pop().unwrap();
    let ghost orig = rest@.push(last);
    proof {
        assert(orig =~= ps@);
        lemma_params_error_snoc(orig);
        assert(orig.drop_last() =~= rest@);
    }
    match last.name {
        Some(n) => match lower_params(rest) {
            Ok(mut items) => {
                let ghost prev = items@;
                items.push(
                    crate::ir::Item { name: n, typing: lower_typing(last.type_info) },
                );
                proof {
                    assert(orig.last() == last);
                    if params_error(orig) is None {
                        assert(params_match(orig.drop_last(), prev));
                        assert forall|i: int| 0 <= i < orig.len() implies (
                            (#[trigger] orig[i]).name matches Some(m) && items@[i].name == m
                                && items@[i].typing.name == type_base_name(orig[i].type_info)
                                && items@[i].typing.array_dimensions == type_dims(
                                orig[i].type_info,
                            )) by {
                            if i < orig.len() - 1 {
                                assert(orig[i] == orig.drop_last()[i]);
                                assert(items@[i] == prev[i]);
                            } else {
                                assert(orig[i] == last);
                            }
                        }
                        assert(params_match(orig, items@));
                    }
                }
                Ok(items)
            },
            Err(e) => Err(e),
        },
        None => match lower_params(rest) {
            Ok(_) => Err(LowerError::UnnamedParameter),
            Err(e) => Err(e),
        },
    }
}

/// `params_error` scans left to right, so over a list split as
/// `init ++ [last]` it is the init's error first, then the last's.
proof fn lemma_params_error_snoc(ps: Seq<Parameter>)
    requires
        ps.len() > 0,
    ensures
        params_error(ps) == first_of(
            params_error(ps.drop_last()),
            if ps.last().name is None {
                Some(LowerError::UnnamedParameter)
            } else {
                None
            },
        ),
    decreases ps.len(),
{
    if ps.len() == 1 {
        assert(ps.drop_last() =~= Seq::<Parameter>::empty());
        assert(ps.skip(1) =~= Seq::<Parameter>::empty());
        assert(ps.last() == ps[0]);
    } else {
        lemma_params_error_snoc(ps.skip(1));
        assert(ps.skip(1).drop_last() =~= ps.drop_last().skip(1));
        assert(ps.skip(1).last() == ps.last());
        assert(ps.drop_last()[0] == ps[0]);
    }
}

/// Structural equality of IR expressions (argument lists compared
/// element-wise).
pub open spec fn expr_eq(a: Expression, b: Expression) -> bool
    decreases a,
{
    match (a, b) {
        (Expression::Literal(x), Expression::Literal(y)) => x == y,
        (Expression::Variable(x), Expression::Variable(y)) => x == y,
        (Expression::Operation(x), Expression::Operation(y)) => x.operator == y.operator
            && expr_eq(*x.left, *y.left) && expr_eq(*x.right, *y.right),
        (Expression::FunctionCall(x), Expression::FunctionCall(y)) => x.name == y.name
            && x.args@.len() == y.args@.len() && (forall|i: int|
            0 <= i < x.args@.len() ==> expr_eq(x.args@[i], #[trigger] y.args@[i])),
        _ => false,
    }
}

/// Structural equality is reflexive.
pub proof fn lemma_expr_eq_refl(e: Expression)
    ensures
        expr_eq(e, e),
    decreases e,
{
    match e {
        Expression::Operation(o) => {
            lemma_expr_eq_refl(*o.left);
            lemma_expr_eq_refl(*o.right);
        },
        Expression::FunctionCall(fc) => {
            assert forall|i: int| 0 <= i < fc.args@.len() implies expr_eq(
                fc.args@[i],
                #[trigger] fc.args@[i],
            ) by {
                lemma_expr_eq_refl(fc.args@[i]);
            }
        },
        _ => {},
    }
}

/// Lowering only looks at expression structure, so it carries over to a
/// structurally equal expression.
pub proof fn lemma_lowers_to_eq(se: ExpressionDecl, a: Expression, b: Expression)
    requires
        expr_lowers_to(se, a),
        expr_eq(a, b),
    ensures
        expr_lowers_to(se, b),
    decreases se,
{
    match se {
        ExpressionDecl::Literal(_) => {
            assert(b == a);
        },
        ExpressionDecl::Identifier(_) => {
            assert(b == a);
        },
        ExpressionDecl::BinaryOp(_, l, r) => {
            let o = a->Operation_0;
            let o2 = b->Operation_0;
            lemma_lowers_to_eq(*l, *o.left, *o2.left);
            lemma_lowers_to_eq(*r, *o.right, *o2.right);
        },
        ExpressionDecl::UnaryOp(op, x) => {
            let o = a->Operation_0;
            let o2 = b->Operation_0;
            match op {
                UnaryOperator::Negate => {
                    assert(expr_eq(*o.left, *o2.left));
                    assert(*o2.left == Expression::Literal(crate::ir::Literal::Integer(0)));
                    lemma_lowers_to_eq(*x, *o.right, *o2.right);
                },
                UnaryOperator::Not => {
                    assert(expr_eq(*o.right, *o2.right));
                    assert(*o2.right == Expression::Literal(crate::ir::Literal::Boolean(false)));
                    lemma_lowers_to_eq(*x, *o.left, *o2.left);
                },
                _ => {},
            }
        },
        ExpressionDecl::Call(_, args) => {
            let fc = a->FunctionCall_0;
            let fc2 = b->FunctionCall_0;
            assert(exprs_lower_to(args@, fc.args@));
            assert(fc.args@.len() == args@.len());
            assert(fc2.args@.len() == args@.len());
            assert forall|i: int| 0 <= i < args@.len() implies expr_lowers_to(
                args@[i],
                #[trigger] fc2.args@[i],
            ) by {
                assert(expr_lowers_to(args@[i], fc.args@[i]));
                assert(expr_eq(fc.args@[i], fc2.args@[i]));
                lemma_lowers_to_eq(args@[i], fc.args@[i], fc2.args@[i]);
            }
            assert(exprs_lower_to(args@, fc2.args@));
        },
        ExpressionDecl::Cast(_, x) => {
            lemma_lowers_to_eq(*x, a, b);
        },
        ExpressionDecl::ArrayAccess(l, r) => {
            let o = a->Operation_0;
            let o2 = b->Operation_0;
            lemma_lowers_to_eq(*l, *o.left, *o2.left);
            lemma_lowers_to_eq(*r, *o.right, *o2.right);
        },
        ExpressionDecl::MemberAccess(l, m) => {
            let o = a->Operation_0;
            let o2 = b->Operation_0;
            assert(expr_eq(*o.right, *o2.right));
            assert(*o2.right == Expression::Literal(crate::ir::Literal::String(m)));
            lemma_lowers_to_eq(*l, *o.left, *o2.left);
        },
        ExpressionDecl::Assignment(l, r) => {
            let o = a->Operation_0;
            let o2 = b->Operation_0;
            lemma_lowers_to_eq(*l, *o.left, *o2.left);
            lemma_lowers_to_eq(*r, *o.right, *o2.right);
        },
        ExpressionDecl::Conditional(c, t, e2) => {
            let o = a->Operation_0;
            let o2 = b->Operation_0;
            lemma_lowers_to_eq(*c, *o.left, *o2.left);
            assert(expr_eq(*o.right, *o2.right));
            let inner = (*o.right)->Operation_0;
            let inner2 = (*o2.right)->Operation_0;
            assert(expr_eq(*inner.left, *inner2.left));
            assert(expr_eq(*inner.right, *inner2.right));
            lemma_lowers_to_eq(*t, *inner.left, *inner2.left);
            lemma_lowers_to_eq(*e2, *inner.right, *inner2.right);
        },
        ExpressionDecl::ArrayLiteral(es) => {
            lemma_array_lowers_eq(es@, a, b);
        },
        ExpressionDecl::Struct(_, _) => {},
    }
}

/// The comma-chain form of an array literal also carries over.
pub proof fn lemma_array_lowers_eq(es: Seq<ExpressionDecl>, a: Expression, b: Expression)
    requires
        array_lowers_to(es, a),
        expr_eq(a, b),
    ensures
        array_lowers_to(es, b),
    decreases es,
{
    if es.len() > 0 {
        let o = a->Operation_0;
        let o2 = b->Operation_0;
        lemma_lowers_to_eq(es[0], *o.left, *o2.left);
        lemma_array_lowers_eq(es.skip(1), *o.right, *o2.right);
    }
}

/// A structurally equal expression, freshly built.
fn dup_expression(e: &Expression) -> (r: Expression)
    ensures
        expr_eq(*e, r),
    decreases *e,
{
    match e {
        Expression::Literal(l) => {
            let d = match l {
                crate::ir::Literal::Integer(n) => crate::ir::Literal::Integer(*n),
                crate::ir::Literal::String(s) => crate::ir::Literal::String(s.clone()),
                crate::ir::Literal::Character(c) => crate::ir::Literal::Character(*c),
                crate::ir::Literal::Boolean(b) => crate::ir::Literal::Boolean(*b),
            };
            proof {
                assert(d == *l);
            }
            Expression::Literal(d)
        },
        Expression::Variable(n) => Expression::Variable(n.clone()),
        Expression::Operation(o) => {
            let dl = dup_expression(&*o.left);
            let dr = dup_expression(&*o.right);
            let inner = crate::ir::Operation {
                operator: o.operator,
                left: Box::new(dl),
                right: Box::new(dr),
            };
            Expression::Operation(inner)
        },
        Expression::FunctionCall(fc) => {
            let out = Expression::FunctionCall(
                crate::ir::FunctionCall { name: fc.name.clone(), args: dup_expressions(&fc.args) },
            );
            out
        },
    }
}

/// A structurally equal expression list, freshly built.
fn dup_expressions(es: &Vec<Expression>) -> (r: Vec<Expression>)
    ensures
        r@.len() == es@.len(),
        forall|i: int| 0 <= i < es@.len() ==> expr_eq(es@[i], #[trigger] r@[i]),
    decreases es@,
{
    let n = es.len();
    let mut out: Vec<Expression> = Vec::new();
    let mut i: usize = 0;
    while i < n
        invariant
            i <= n,
            n == es@.len(),
            out@.len() == i,
            forall|j: int| 0 <= j < i ==> expr_eq(es@[j], #[trigger] out@[j]),
        decreases n - i,
    {
        proof {
            assert(decreases_to!(es@ => es@[i as int]));
        }
        out.push(dup_expression(&es[i]));
        i = i + 1;
    }
    out
}

/// Lower one surface expression.
#[verifier::rlimit(60)]
pub fn lower_expr(e: ExpressionDecl) -> (r: Result<Expression, LowerError>)
    ensures
        expr_error(e) matches Some(err) ==> r == Err::<Expression, LowerError>(err),
        expr_error(e) is None ==> (r matches Ok(out) && expr_lowers_to(e, out)),
    decreases e,
{
    match e {
        ExpressionDecl::Literal(l) => Ok(
            Expression::Literal(
                match l {
                    Literal::Integer(n) => crate::ir::Literal::Integer(n),
                    Literal::String(s) => crate::ir::Literal::String(s),
                    Literal::Char(c) => crate::ir::Literal::Character(c),
                },
            ),
        ),
        ExpressionDecl::Identifier(n) => Ok(Expression::Variable(n)),
        ExpressionDecl::BinaryOp(op, l, r) => {
            let le = match lower_expr(*l) {
                Ok(x) => x,
                Err(err) => {
                    return Err(err);
                },
            };
            let re = match lower_expr(*r) {
                Ok(x) => x,
                Err(err) => {
                    return Err(err);
                },
            };
            Ok(
                Expression::Operation(
                    crate::ir::Operation {
                        operator: lower_operator_exec(op),
                        left: Box::new(le),
                        right: Box::new(re),
                    },
                ),
            )
        },
        ExpressionDecl::UnaryOp(op, x) => match op {
            UnaryOperator::Negate => {
                let xe = match lower_expr(*x) {
                    Ok(v) => v,
                    Err(err) => {
                        return Err(err);
                    },
                };
                Ok(
                    Expression::Operation(
                        crate::ir::Operation {
                            operator: Operator::Subtract,
                            left: Box::new(
                                Expression::Literal(crate::ir::Literal::Integer(0)),
                            ),
                            right: Box::new(xe),
                        },
                    ),
                )
            },
            UnaryOperator::Not => {
                let xe = match lower_expr(*x) {
                    Ok(v) => v,
                    Err(err) => {
                        return Err(err);
                    },
                };
                Ok(
                    Expression::Operation(
                        crate::ir::Operation {
                            operator: Operator::Equal,
                            left: Box::new(xe),
                            right: Box::new(
                                Expression::Literal(crate::ir::Literal::Boolean(false)),
                            ),
                        },
                    ),
                )
            },
            _ => Err(LowerError::UnsupportedUnary),
        },
        ExpressionDecl::Call(f, args) => match *f {
            ExpressionDecl::Identifier(n) => match lower_exprs(args) {
                Ok(la) => Ok(
                    Expression::FunctionCall(crate::ir::FunctionCall { name: n, args: la }),
                ),
                Err(err) => Err(err),
            },
            _ => Err(LowerError::CallTarget),
        },
        ExpressionDecl::Cast(_, x) => lower_expr(*x),
        ExpressionDecl::ArrayAccess(a, i) => {
            let ae = match lower_expr(*a) {
                Ok(v) => v,
                Err(err) => {
                    return Err(err);
                },
            };
            let ie = match lower_expr(*i) {
                Ok(v) => v,
                Err(err) => {
                    return Err(err);
                },
            };
            Ok(
                Expression::Operation(
                    crate::ir::Operation {
                        operator: Operator::ArrayAccess,
                        left: Box::new(ae),
                        right: Box::new(ie),
                    },
                ),
            )
        },
        ExpressionDecl::MemberAccess(a, m) => {
            let ae = match lower_expr(*a) {
                Ok(v) => v,
                Err(err) => {
                    return Err(err);
                },
            };
            Ok(
                Expression::Operation(
                    crate::ir::Operation {
                        operator: Operator::MemberAccess,
                        left: Box::new(ae),
                        right: Box::new(Expression::Literal(crate::ir::Literal::String(m))),
                    },
                ),
            )
        },
        ExpressionDecl::Assignment(l, r) => {
            let le = match lower_expr(*l) {
                Ok(x) => x,
                Err(err) => {
                    return Err(err);
                },
            };
            let re = match lower_expr(*r) {
                Ok(x) => x,
                Err(err) => {
                    return Err(err);
                },
            };
            Ok(
                Expression::Operation(
                    crate::ir::Operation {
                        operator: Operator::Assignment,
                        left: Box::new(le),
                        right: Box::new(re),
                    },
                ),
            )
        },
        ExpressionDecl::Conditional(c, t, e2) => {
            let ce = match lower_expr(*c) {
                Ok(x) => x,
                Err(err) => {
                    return Err(err);
                },
            };
            let te = match lower_expr(*t) {
                Ok(x) => x,
                Err(err) => {
                    return Err(err);
                },
            };
            let ee = match lower_expr(*e2) {
                Ok(x) => x,
                Err(err) => {
                    return Err(err);
                },
            };
            Ok(
                Expression::Operation(
                    crate::ir::Operation {
                        operator: Operator::Conditional,
                        left: Box::new(ce),
                        right: Box::new(
                            Expression::Operation(
                                crate::ir::Operation {
                                    operator: Operator::Comma,
                                    left: Box::new(te),
                                    right: Box::new(ee),
                                },
                            ),
                        ),
                    },
                ),
            )
        },
        ExpressionDecl::ArrayLiteral(es) => {
            let ghost whole = es@;
            let mut rest = es;
            let mut acc = Expression::Literal(crate::ir::Literal::Integer(0));
            proof {
                assert(whole.take(whole.len() as int) =~= whole);
                assert(whole.skip(whole.len() as int) =~= Seq::<ExpressionDecl>::empty());
            }
            while rest.len() > 0
                invariant
                    rest@.len() <= whole.len(),
                    rest@ == whole.take(rest@.len() as int),
                    array_error(whole) == array_error(rest@),
                    array_error(whole) is None ==> array_lowers_to(
                        whole.skip(rest@.len() as int),
                        acc,
                    ),
                decreases rest@.len(),
            {
                let ghost k = rest@.len() as int;
                let last = rest.pop().unwrap();
                proof {
                    assert(whole.take(k).drop_last() =~= whole.take(k - 1));
                    assert(whole.take(k).last() == whole[k - 1]);
                    assert(rest@ =~= whole.take(k - 1));
                    assert(last == whole[k - 1]);
                    assert(decreases_to!(e => whole));
                    assert(decreases_to!(whole => whole[k - 1]));
                }
                let le = match lower_expr(last) {
                    Ok(x) => x,
                    Err(err) => {
                        return Err(err);
                    },
                };
                acc = Expression::Operation(
                    crate::ir::Operation {
                        operator: Operator::Comma,
                        left: Box::new(le),
                        right: Box::new(acc),
                    },
                );
                proof {
                    if array_error(whole) is None {
                        assert(whole.skip(k - 1)[0] == whole[k - 1]);
                        assert(whole.skip(k - 1).skip(1) =~= whole.skip(k));
                    }
                }
            }
            proof {
                assert(rest@.len() == 0);
                assert(whole.skip(0) =~= whole);
                assert(array_error(whole.take(0)) is None) by {
                    assert(whole.take(0) =~= Seq::<ExpressionDecl>::empty());
                }
            }
            Ok(acc)
        },
        ExpressionDecl::Struct(_, _) => Err(LowerError::StructExpression),
    }
}

/// Lower an argument list, left to right.
pub fn lower_exprs(es: Vec<ExpressionDecl>) -> (r: Result<Vec<Expression>, LowerError>)
    ensures
        exprs_error(es@) matches Some(err) ==> r == Err::<Vec<Expression>, LowerError>(err),
        exprs_error(es@) is None ==> (r matches Ok(out) && exprs_lower_to(es@, out@)),
    decreases es@,
{
    let mut rest = es;
    if rest.len() == 0 {
        return Ok(Vec::new());
    }
    let last = rest.pop().unwrap();
    let ghost orig = rest@.push(last);
    proof {
        assert(orig =~= es@);
        assert(orig.drop_last() =~= rest@);
    }
    match lower_exprs(rest) {
        Ok(mut out) => {
            proof {
                assert(decreases_to!(orig => orig.last()));
            }
            match lower_expr(last) {
                Ok(le) => {
                    out.push(le);
                    proof {
                        assert(forall|i: int|
                            0 <= i < orig.len() - 1 ==> orig[i] == orig.drop_last()[i]);
                    }
                    Ok(out)
                },
                Err(err) => Err(err),
            }
        },
        Err(err) => Err(err),
    }
}

/// Lower one surface statement to its action sequence.
pub fn lower_statement(s: Statement) -> (r: Result<Vec<Action>, LowerError>)
    ensures
        stmt_error(s) matches Some(err) ==> r == Err::<Vec<Action>, LowerError>(err),
        stmt_error(s) is None ==> (r matches Ok(out) && stmt_lowers_to(s, out@)),
    decreases s, 1nat,
{
    match s {
        Statement::Compound(ss) => lower_statements(ss),
        Statement::If(i) => lower_if(i),
        Statement::While(w) => lower_while(w),
        Statement::For(f) => lower_for(f),
        Statement::DoWhile(d) => lower_do_while(d),
        Statement::Switch(sw) => lower_switch(sw),
        Statement::Return(o) => {
            let inner = match o {
                Some(e) => match lower_expr(e) {
                    Ok(x) => x,
                    Err(err) => {
                        return Err(err);
                    },
                },
                None => Expression::Literal(crate::ir::Literal::Integer(0)),
            };
            Ok(
                vec![
                    Action::Operation(
                        crate::ir::Operation {
                            operator: Operator::Return,
                            left: Box::new(inner),
                            right: Box::new(
                                Expression::Literal(crate::ir::Literal::Integer(0)),
                            ),
                        },
                    ),
                ],
            )
        },
        Statement::Break => Ok(
            vec![
                Action::Operation(
                    crate::ir::Operation {
                        operator: Operator::Break,
                        left: Box::new(Expression::Literal(crate::ir::Literal::Integer(0))),
                        right: Box::new(Expression::Literal(crate::ir::Literal::Integer(0))),
                    },
                ),
            ],
        ),
        Statement::Continue => Ok(
            vec![
                Action::Operation(
                    crate::ir::Operation {
                        operator: Operator::Continue,
                        left: Box::new(Expression::Literal(crate::ir::Literal::Integer(0))),
                        right: Box::new(Expression::Literal(crate::ir::Literal::Integer(0))),
                    },
                ),
            ],
        ),
        Statement::Expression(e) => {
            let le = match lower_expr(e) {
                Ok(x) => x,
                Err(err) => {
                    return Err(err);
                },
            };
            Ok(
                vec![
                    Action::Operation(
                        crate::ir::Operation {
                            operator: Operator::Expression,
                            left: Box::new(le),
                            right: Box::new(
                                Expression::Literal(crate::ir::Literal::Integer(0)),
                            ),
                        },
                    ),
                ],
            )
        },
        Statement::Declaration(vd) => {
            let data = match vd.initializer {
                Some(e) => match lower_expr(e) {
                    Ok(x) => crate::ir::VariableData::Expression(Box::new(x)),
                    Err(err) => {
                        return Err(err);
                    },
                },
                None => crate::ir::VariableData::Null,
            };
            Ok(vec![Action::Variable(crate::ir::Variable { name: vd.name, data })])
        },
    }
}

/// Lower an if/else.
fn lower_if(i: IfStatement) -> (r: Result<Vec<Action>, LowerError>)
    ensures
        stmt_error(Statement::If(i)) matches Some(err) ==> r == Err::<Vec<Action>, LowerError>(
            err,
        ),
        stmt_error(Statement::If(i)) is None ==> (r matches Ok(out) && stmt_lowers_to(
            Statement::If(i),
            out@,
        )),
    decreases i, 0nat,
{
    let ghost s = Statement::If(i);
    let cond = match lower_expr(i.condition) {
        Ok(x) => x,
        Err(err) => {
            return Err(err);
        },
    };
    let then_acts = match lower_statement(*i.then_branch) {
        Ok(x) => x,
        Err(err) => {
            return Err(err);
        },
    };
    let else_acts = match i.else_branch {
        Some(e) => match lower_statement(*e) {
            Ok(x) => x,
            Err(err) => {
                return Err(err);
            },
        },
        None => Vec::new(),
    };
    let out = vec![
        Action::Conditional(
            crate::ir::Conditional {
                condition: cond,
                then_actions: then_acts,
                else_actions: else_acts,
                repeats: false,
            },
        ),
    ];
    proof {
        if stmt_error(s) is None {
            assert(stmt_lowers_to(s, out@));
        }
    }
    Ok(out)
}

/// Lower a while loop.
fn lower_while(w: WhileStatement) -> (r: Result<Vec<Action>, LowerError>)
    ensures
        stmt_error(Statement::While(w)) matches Some(err) ==> r == Err::<
            Vec<Action>,
            LowerError,
        >(err),
        stmt_error(Statement::While(w)) is None ==> (r matches Ok(out) && stmt_lowers_to(
            Statement::While(w),
            out@,
        )),
    decreases w, 0nat,
{
    let ghost s = Statement::While(w);
    let cond = match lower_expr(w.condition) {
        Ok(x) => x,
        Err(err) => {
            return Err(err);
        },
    };
    let body_acts = match lower_statement(*w.body) {
        Ok(x) => x,
        Err(err) => {
            return Err(err);
        },
    };
    let out = vec![
        Action::Conditional(
            crate::ir::Conditional {
                condition: cond,
                then_actions: body_acts,
                else_actions: Vec::new(),
                repeats: true,
            },
        ),
    ];
    proof {
        if stmt_error(s) is None {
            assert(stmt_lowers_to(s, out@));
        }
    }
    Ok(out)
}

/// Lower a for loop: the initializer's actions, then the repeating
/// conditional whose body is the surface body followed by the increment.
fn lower_for(f: ForStatement) -> (r: Result<Vec<Action>, LowerError>)
    ensures
        stmt_error(Statement::For(f)) matches Some(err) ==> r == Err::<Vec<Action>, LowerError>(
            err,
        ),
        stmt_error(Statement::For(f)) is None ==> (r matches Ok(out) && stmt_lowers_to(
            Statement::For(f),
            out@,
        )),
    decreases f, 0nat,
{
    let ghost s = Statement::For(f);
    let mut out = match lower_statement(*f.initializer) {
        Ok(x) => x,
        Err(err) => {
            return Err(err);
        },
    };
    let cond = match f.condition {
        Some(c) => match lower_expr(c) {
            Ok(x) => x,
            Err(err) => {
                return Err(err);
            },
        },
        None => Expression::Literal(crate::ir::Literal::Boolean(true)),
    };
    let mut body_acts = match lower_statement(*f.body) {
        Ok(x) => x,
        Err(err) => {
            return Err(err);
        },
    };
    match f.increment {
        Some(ie) => {
            let le = match lower_expr(ie) {
                Ok(x) => x,
                Err(err) => {
                    return Err(err);
                },
            };
            let ghost body0 = body_acts@;
            body_acts.push(Action::Expression(le));
            proof {
                assert(body_acts@.drop_last() =~= body0);
            }
        },
        None => {},
    }
    let ghost init0 = out@;
    out.push(
        Action::Conditional(
            crate::ir::Conditional {
                condition: cond,
                then_actions: body_acts,
                else_actions: Vec::new(),
                repeats: true,
            },
        ),
    );
    proof {
        assert(out@.drop_last() =~= init0);
        if stmt_error(s) is None {
            assert(stmt_lowers_to(s, out@));
        }
    }
    Ok(out)
}

/// Lower a do-while loop: the body runs inside a run-once-and-repeat
/// conditional that breaks when the condition turns false.
fn lower_do_while(d: DoWhileStatement) -> (r: Result<Vec<Action>, LowerError>)
    ensures
        stmt_error(Statement::DoWhile(d)) matches Some(err) ==> r == Err::<
            Vec<Action>,
            LowerError,
        >(err),
        stmt_error(Statement::DoWhile(d)) is None ==> (r matches Ok(out) && stmt_lowers_to(
            Statement::DoWhile(d),
            out@,
        )),
    decreases d, 0nat,
{
    let ghost s = Statement::DoWhile(d);
    let mut body_acts = match lower_statement(*d.body) {
        Ok(x) => x,
        Err(err) => {
            return Err(err);
        },
    };
    let cond = match lower_expr(d.condition) {
        Ok(x) => x,
        Err(err) => {
            return Err(err);
        },
    };
    let exit = Action::Operation(
        crate::ir::Operation {
            operator: Operator::Break,
            left: Box::new(Expression::Literal(crate::ir::Literal::Integer(0))),
            right: Box::new(Expression::Literal(crate::ir::Literal::Integer(0))),
        },
    );
    let ghost body0 = body_acts@;
    body_acts.push(
        Action::Conditional(
            crate::ir::Conditional {
                condition: cond,
                then_actions: Vec::new(),
                else_actions: vec![exit],
                repeats: false,
            },
        ),
    );
    proof {
        assert(body_acts@.drop_last() =~= body0);
    }
    let out = vec![
        Action::Conditional(
            crate::ir::Conditional {
                condition: Expression::Literal(crate::ir::Literal::Boolean(true)),
                then_actions: body_acts,
                else_actions: Vec::new(),
                repeats: true,
            },
        ),
    ];
    proof {
        if stmt_error(s) is None {
            assert(stmt_lowers_to(s, out@));
        }
    }
    Ok(out)
}

/// Lower a switch: a chain of equality conditionals against the
/// scrutinee, the default as the innermost else, wrapped in a run-once
/// loop so that `break` ends the chain.
#[verifier::rlimit(100)]
fn lower_switch(sw: SwitchStatement) -> (r: Result<Vec<Action>, LowerError>)
    ensures
        stmt_error(Statement::Switch(sw)) matches Some(err) ==> r == Err::<
            Vec<Action>,
            LowerError,
        >(err),
        stmt_error(Statement::Switch(sw)) is None ==> (r matches Ok(out) && stmt_lowers_to(
            Statement::Switch(sw),
            out@,
        )),
    decreases sw, 0nat,
{
    let ghost s = Statement::Switch(sw);
    let scrut = match lower_expr(sw.expression) {
        Ok(x) => x,
        Err(err) => {
            return Err(err);
        },
    };
    let default_out = match sw.default {
        Some(ds) => match lower_statements(ds) {
            Ok(x) => x,
            Err(err) => {
                return Err(err);
            },
        },
        None => Vec::new(),
    };
    let ghost tail = default_out@;
    let ghost orig_cases = sw.cases@;
    let mut cases = sw.cases;
    let mut acc = default_out;
    proof {
        assert(orig_cases.take(orig_cases.len() as int) =~= orig_cases);
        assert(orig_cases.skip(orig_cases.len() as int) =~= Seq::<CaseStatement>::empty());
    }
    while cases.len() > 0
        invariant
            cases@.len() <= orig_cases.len(),
            cases@ == orig_cases.take(cases@.len() as int),
            cases_error(orig_cases) == cases_error(cases@),
            stmt_error(s) is None ==> chain_lowers(
                sw.expression,
                orig_cases.skip(cases@.len() as int),
                acc@,
                tail,
            ),
            expr_error(sw.expression) is None ==> expr_lowers_to(sw.expression, scrut),
        decreases cases@.len(),
    {
        let ghost k = cases@.len() as int;
        let cs = cases.pop().unwrap();
        proof {
            assert(orig_cases.take(k).drop_last() =~= orig_cases.take(k - 1));
            assert(orig_cases.take(k).last() == orig_cases[k - 1]);
            assert(cases@ =~= orig_cases.take(k - 1));
            assert(cs == orig_cases[k - 1]);
            assert(decreases_to!(sw => orig_cases));
            assert(decreases_to!(orig_cases => orig_cases[k - 1]));
        }
        let vexp = match lower_expr(cs.value) {
            Ok(x) => x,
            Err(err) => {
                return Err(err);
            },
        };
        let cstmts = match lower_statements(cs.statements) {
            Ok(x) => x,
            Err(err) => {
                return Err(err);
            },
        };
        let guard = dup_expression(&scrut);
        proof {
            if stmt_error(s) is None {
                lemma_lowers_to_eq(sw.expression, scrut, guard);
                assert(orig_cases.skip(k - 1)[0] == orig_cases[k - 1]);
                assert(orig_cases.skip(k - 1).skip(1) =~= orig_cases.skip(k));
            }
        }
        let cond = Expression::Operation(
            crate::ir::Operation {
                operator: Operator::Equal,
                left: Box::new(guard),
                right: Box::new(vexp),
            },
        );
        let node = Action::Conditional(
            crate::ir::Conditional {
                condition: cond,
                then_actions: cstmts,
                else_actions: acc,
                repeats: false,
            },
        );
        acc = vec![node];
    }
    proof {
        assert(orig_cases.take(0) =~= Seq::<CaseStatement>::empty());
        assert(orig_cases.skip(0) =~= orig_cases);
    }
    let mut body = acc;
    let ghost chain0 = body@;
    body.push(
        Action::Operation(
            crate::ir::Operation {
                operator: Operator::Break,
                left: Box::new(Expression::Literal(crate::ir::Literal::Integer(0))),
                right: Box::new(Expression::Literal(crate::ir::Literal::Integer(0))),
            },
        ),
    );
    proof {
        assert(body@.drop_last() =~= chain0);
    }
    let out = vec![
        Action::Conditional(
            crate::ir::Conditional {
                condition: Expression::Literal(crate::ir::Literal::Boolean(true)),
                then_actions: body,
                else_actions: Vec::new(),
                repeats: true,
            },
        ),
    ];
    proof {
        if stmt_error(s) is None {
            assert(match sw.default {
                Some(ds) => stmts_lower_to(ds@, tail),
                None => tail.len() == 0,
            });
            assert(chain_lowers(sw.expression, orig_cases, chain0, tail));
            assert(exists|t: Seq<Action>|
                #![auto]
                (match sw.default {
                    Some(ds) => stmts_lower_to(ds@, t),
                    None => t.len() == 0,
                }) && chain_lowers(sw.expression, orig_cases, chain0, t));
            assert(stmt_lowers_to(s, out@));
        }
    }
    Ok(out)
}

/// Lower a statement list; the result is the concatenation, in order.
pub fn lower_statements(ss: Vec<Statement>) -> (r: Result<Vec<Action>, LowerError>)
    ensures
        stmts_error(ss@) matches Some(err) ==> r == Err::<Vec<Action>, LowerError>(err),
        stmts_error(ss@) is None ==> (r matches Ok(out) && stmts_lower_to(ss@, out@)),
    decreases ss@, 2nat,
{
    let mut rest = ss;
    if rest.len() == 0 {
        return Ok(Vec::new());
    }
    let last = rest.pop().unwrap();
    let ghost orig = rest@.push(last);
    proof {
        assert(orig =~= ss@);
        assert(orig.drop_last() =~= rest@);
    }
    match lower_statements(rest) {
        Ok(mut acts) => {
            proof {
                assert(decreases_to!(orig => orig.last()));
            }
            match lower_statement(last) {
                Ok(mut tail_acts) => {
                    let ghost k = acts@.len() as int;
                    let ghost head = acts@;
                    let ghost tail_v = tail_acts@;
                    acts.append(&mut tail_acts);
                    proof {
                        if stmts_error(orig) is None {
                            assert(acts@.take(k) =~= head);
                            assert(acts@.skip(k) =~= tail_v);
                            assert(0 <= k <= acts@.len() && stmts_lower_to(
                                orig.drop_last(),
                                acts@.take(k),
                            ) && stmt_lowers_to(orig.last(), acts@.skip(k)));
                            assert(stmts_lower_to(orig, acts@));
                        }
                    }
                    Ok(acts)
                },
                Err(err) => Err(err),
            }
        },
        Err(err) => Err(err),
    }
}

/// Lower one top-level token.
pub fn lower_token(t: Token) -> (r: Result<Vec<Action>, LowerError>)
    ensures
        token_error(t) matches Some(err) ==> r == Err::<Vec<Action>, LowerError>(err),
        token_error(t) is None ==> (r matches Ok(out) && token_lowers_to(t, out@)),
    decreases t,
{
    match t {
        Token::Function(fd) => {
            let params = match lower_params(fd.parameters) {
                Ok(x) => x,
                Err(err) => {
                    return Err(err);
                },
            };
            let body_acts = match lower_tokens(fd.body) {
                Ok(x) => x,
                Err(err) => {
                    return Err(err);
                },
            };
            Ok(
                vec![
                    Action::Function(
                        crate::ir::Function {
                            name: fd.name,
                            params,
                            body: std::rc::Rc::new(body_acts),
                        },
                    ),
                ],
            )
        },
        Token::Struct(sd) => Ok(
            vec![
                Action::Struct(
                    crate::ir::Struct { name: sd.name, fields: lower_fields(sd.fields) },
                ),
            ],
        ),
        Token::Variable(vd) => {
            let data = match vd.initializer {
                Some(e) => match lower_expr(e) {
                    Ok(x) => crate::ir::VariableData::Expression(Box::new(x)),
                    Err(err) => {
                        return Err(err);
                    },
                },
                None => crate::ir::VariableData::Null,
            };
            Ok(vec![Action::Variable(crate::ir::Variable { name: vd.name, data })])
        },
        Token::Statement(s) => lower_statement(s),
        Token::Expression(e) => {
            let le = match lower_expr(e) {
                Ok(x) => x,
                Err(err) => {
                    return Err(err);
                },
            };
            Ok(
                vec![
                    Action::Operation(
                        crate::ir::Operation {
                            operator: Operator::Comma,
                            left: Box::new(le),
                            right: Box::new(
                                Expression::Literal(crate::ir::Literal::Integer(0)),
                            ),
                        },
                    ),
                ],
            )
        },
        Token::Type(_) => Err(LowerError::TypeToken),
    }
}

/// Lower a token list; the result is the concatenation, in order.
pub fn lower_tokens(ts: Vec<Token>) -> (r: Result<Vec<Action>, LowerError>)
    ensures
        tokens_error(ts@) matches Some(err) ==> r == Err::<Vec<Action>, LowerError>(err),
        tokens_error(ts@) is None ==> (r matches Ok(out) && tokens_lower_to(ts@, out@)),
    decreases ts@,
{
    let mut rest = ts;
    if rest.len() == 0 {
        return Ok(Vec::new());
    }
    let last = rest.pop().unwrap();
    let ghost orig = rest@.push(last);
    proof {
        assert(orig =~= ts@);
        assert(orig.drop_last() =~= rest@);
    }
    match lower_tokens(rest) {
        Ok(mut acts) => {
            proof {
                assert(decreases_to!(orig => orig.last()));
            }
            match lower_token(last) {
                Ok(mut tail_acts) => {
                    let ghost k = acts@.len() as int;
                    let ghost head = acts@;
                    let ghost tail_v = tail_acts@;
                    acts.append(&mut tail_acts);
                    proof {
                        if tokens_error(orig) is None {
                            assert(acts@.take(k) =~= head);
                            assert(acts@.skip(k) =~= tail_v);
                            assert(0 <= k <= acts@.len() && tokens_lower_to(
                                orig.drop_last(),
                                acts@.take(k),
                            ) && token_lowers_to(orig.last(), acts@.skip(k)));
                            assert(tokens_lower_to(orig, acts@));
                        }
                    }
                    Ok(acts)
                },
                Err(err) => Err(err),
            }
        },
        Err(err) => Err(err),
    }
}

/// The lowered form of a program: its ordered top-level actions.
#[derive(Debug, PartialEq)]
pub struct IR {
    pub actions: Vec<Action>,
}

impl IR {
    /// An empty program.
    pub fn new() -> (r: IR)
        ensures
            r.actions@.len() == 0,
    {
        IR { actions: Vec::new() }
    }

    /// Wrap an already-lowered action sequence.
    pub fn from_actions(actions: Vec<Action>) -> (r: IR)
        ensures
            r.actions@ == actions@,
    {
        IR { actions }
    }

    /// Lower a whole parsed program to its action sequence.
    pub fn to_actions(tokens: Vec<Token>) -> (r: Result<Vec<Action>, LowerError>)
        ensures
            tokens_error(tokens@) matches Some(err) ==> r == Err::<Vec<Action>, LowerError>(err),
            tokens_error(tokens@) is None ==> (r matches Ok(out) && tokens_lower_to(
                tokens@,
                out@,
            )),
    {
        lower_tokens(tokens)
    }

    /// Lower a whole parsed program.
    pub fn from_tokens(tokens: Vec<Token>) -> (r: Result<IR, LowerError>)
        ensures
            tokens_error(tokens@) matches Some(err) ==> r == Err::<IR, LowerError>(err),
            tokens_error(tokens@) is None ==> (r matches Ok(ir) && tokens_lower_to(
                tokens@,
                ir.actions@,
            )),
    {
        match lower_tokens(tokens) {
            Ok(actions) => Ok(IR { actions }),
            Err(err) => Err(err),
        }
    }
}

} // verus!
