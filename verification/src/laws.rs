//! General laws of the runtime, stated and proved once and for all
//! inputs, over the same spec functions the executable contracts use.

use crate::builtins::{
    bool_binop, bool_val, int_binop, int_div, int_mod, int_val, prim_clone_with_value,
    prim_default, seq_repeat, str_binop, str_val, trunc_div_int, trunc_rem_int, wrap_mul,
};
use crate::error::ErrorView;
use crate::ir::{Literal, Operator, VariableData};
use crate::semantics::{
    decl_function, decl_struct, fun_decl_view, lookup_fun, lookup_struct, lookup_type,
    struct_decl_view, FunView, Outcome, StateView, StructView,
};
use crate::value::{value_eq, PrimView, ValueView};
use vstd::arithmetic::div_mod::{lemma_fundamental_div_mod, lemma_mod_bound, lemma_small_mod};
use vstd::prelude::*;

verus! {

// ---------------------------------------------------------------------------
// Integer division and modulo
// ---------------------------------------------------------------------------

/// Dividing or taking the remainder by the integer zero fails with
/// `DivisionByZero` / `ModuloByZero`, whatever the dividend.
pub proof fn lemma_int_zero_divisor(a: i64)
    ensures
        int_binop(Operator::Divide, a, int_val(0)) == Err::<ValueView, ErrorView>(
            ErrorView::DivisionByZero,
        ),
        int_binop(Operator::Modulo, a, int_val(0)) == Err::<ValueView, ErrorView>(
            ErrorView::ModuloByZero,
        ),
{
}

/// Wrapping a value already in the 64-bit signed range changes nothing.
proof fn lemma_signed_crop_id(x: int)
    requires
        i64::MIN <= x <= i64::MAX,
    ensures
        vstd::wrapping::i64_specs::signed_crop(x) == x,
{
    let m = 0x1_0000_0000_0000_0000;
    if x >= 0 {
        lemma_small_mod(x as nat, m as nat);
    } else {
        lemma_mod_bound(x, m);
        lemma_fundamental_div_mod(x, m);
        assert((x + m) % m == x % m) by {
            vstd::arithmetic::div_mod::lemma_mod_add_multiples_vanish(x, m);
        }
        lemma_small_mod((x + m) as nat, m as nat);
    }
}

/// Outside the one wrapping case, the truncating quotient times the
/// divisor plus the truncating remainder is exactly the dividend, and the
/// product stays in range.
proof fn lemma_trunc_identity(a: i64, b: i64)
    requires
        b != 0,
        !(a == i64::MIN && b == -1),
    ensures
        ({
            let q = trunc_div_int(a as int, b as int);
            let r = trunc_rem_int(a as int, b as int);
            q * (b as int) + r == a as int && i64::MIN <= q * (b as int) <= i64::MAX
        }),
{
    let x = a as int;
    let d = b as int;
    let q = trunc_div_int(x, d);
    let r = trunc_rem_int(x, d);
    if x == 0 {
        assert(q * d == 0) by (nonlinear_arith)
            requires
                q == 0,
        ;
    } else {
        let p: int = if x > 0 {
            x
        } else {
            x * -1
        };
        let m: int = if d > 0 {
            d
        } else {
            d * -1
        };
        lemma_fundamental_div_mod(p, m);
        lemma_mod_bound(p, m);
        assert(p == m * (p / m) + p % m);
        if x > 0 && d > 0 {
            assert(q * d + r == x) by (nonlinear_arith)
                requires
                    p == m * (p / m) + p % m,
                    p == x && m == d && q == p / m && r == p % m,
            ;
        } else if x < 0 && d < 0 {
            assert(q * d + r == x) by (nonlinear_arith)
                requires
                    p == m * (p / m) + p % m,
                    p == x * -1 && m == d * -1 && q == p / m && r == (p % m) * -1,
            ;
        } else if x < 0 {
            assert(q * d + r == x) by (nonlinear_arith)
                requires
                    p == m * (p / m) + p % m,
                    p == x * -1 && m == d && q == (p / m) * -1 && r == (p % m) * -1,
            ;
        } else {
            assert(q * d + r == x) by (nonlinear_arith)
                requires
                    p == m * (p / m) + p % m,
                    p == x && m == d * -1 && q == (p / m) * -1 && r == p % m,
            ;
        }
        // The product q * d equals x - r, and r carries x's sign with
        // magnitude below |d|, so x - r lies between 0 and x.
        assert(0 <= p % m);
        if x > 0 {
            assert(0 <= r && r <= x) by (nonlinear_arith)
                requires
                    p == m * (p / m) + p % m,
                    0 <= p % m < m,
                    0 <= p / m,
                    m >= 1,
                    p == x,
                    r == p % m,
            ;
        } else {
            assert(x <= r && r <= 0) by (nonlinear_arith)
                requires
                    p == m * (p / m) + p % m,
                    0 <= p % m < m,
                    0 <= p / m,
                    m >= 1,
                    p == x * -1,
                    r == (p % m) * -1,
            ;
        }
        assert(q * d == x - r);
    }
}

/// For every integer `a` and non-zero `b`, dividing yields the truncating
/// quotient, the remainder the truncating remainder, and multiplying the
/// quotient back and adding the remainder reproduces `a` exactly, under
/// the integer type's own (wrapping) operators.
pub proof fn lemma_int_div_mod_identity(a: i64, b: i64)
    requires
        b != 0,
    ensures
        int_binop(Operator::Divide, a, int_val(b)) == Ok::<ValueView, ErrorView>(
            int_val(int_div(a, b)),
        ),
        int_binop(Operator::Modulo, a, int_val(b)) == Ok::<ValueView, ErrorView>(
            int_val(int_mod(a, b)),
        ),
        int_binop(Operator::Multiply, int_div(a, b), int_val(b)) == Ok::<ValueView, ErrorView>(
            int_val(wrap_mul(int_div(a, b), b)),
        ),
        int_binop(Operator::Add, wrap_mul(int_div(a, b), b), int_val(int_mod(a, b))) == Ok::<
            ValueView,
            ErrorView,
        >(int_val(a)),
{
    if a == i64::MIN && b == -1 {
        assert(wrap_mul(i64::MIN, -1i64) == i64::MIN) by {
            let m: int = 0x1_0000_0000_0000_0000;
            assert((i64::MIN as int) * -1 == 0x8000_0000_0000_0000) by (nonlinear_arith);
            lemma_small_mod(0x8000_0000_0000_0000nat, m as nat);
        };
    } else {
        lemma_trunc_identity(a, b);
        let q = trunc_div_int(a as int, b as int);
        let r = trunc_rem_int(a as int, b as int);
        lemma_signed_crop_id(q * (b as int));
        assert(wrap_mul(int_div(a, b), b) == q * (b as int));
    }
}

// ---------------------------------------------------------------------------
// Strings
// ---------------------------------------------------------------------------

/// Repeating a string `n` times gives a string of length `n` times the
/// original's.
pub proof fn lemma_seq_repeat_len(s: Seq<char>, n: int)
    requires
        n >= 0,
    ensures
        seq_repeat(s, n).len() == n * s.len(),
    decreases n,
{
    if n == 0 {
        assert(0 * s.len() == 0) by (nonlinear_arith);
    } else {
        lemma_seq_repeat_len(s, n - 1);
        assert((n - 1) * s.len() + s.len() == n * s.len()) by (nonlinear_arith);
    }
}

/// The string laws: `s + t` concatenates; `s * 0` is empty; `s * n` for
/// `n >= 1` has length `n` times `s`'s; `s * (-1)` fails
/// `InvalidArgument`.
pub proof fn lemma_string_ops(s: Seq<char>, t: Seq<char>, n: i64)
    ensures
        str_binop(Operator::Add, s, str_val(t)) == Ok::<ValueView, ErrorView>(str_val(s + t)),
        str_binop(Operator::Multiply, s, int_val(0)) == Ok::<ValueView, ErrorView>(
            str_val(Seq::<char>::empty()),
        ),
        n >= 1 ==> str_binop(Operator::Multiply, s, int_val(n)) == Ok::<ValueView, ErrorView>(
            str_val(seq_repeat(s, n as int)),
        ) && seq_repeat(s, n as int).len() == n * s.len(),
        str_binop(Operator::Multiply, s, int_val(-1i64)) == Err::<ValueView, ErrorView>(
            ErrorView::InvalidArgument,
        ),
{
    if n >= 1 {
        lemma_seq_repeat_len(s, n as int);
    }
}

// ---------------------------------------------------------------------------
// Booleans
// ---------------------------------------------------------------------------

/// The boolean laws: `a + a == a` (AND is idempotent), `a - a == a` (OR
/// is idempotent), `false < true`, and `true >= false`.
pub proof fn lemma_bool_ops(a: bool)
    ensures
        bool_binop(Operator::Add, a, bool_val(a)) == Ok::<ValueView, ErrorView>(bool_val(a)),
        bool_binop(Operator::Subtract, a, bool_val(a)) == Ok::<ValueView, ErrorView>(bool_val(a)),
        bool_binop(Operator::Less, false, bool_val(true)) == Ok::<ValueView, ErrorView>(
            bool_val(true),
        ),
        bool_binop(Operator::GreaterEqual, true, bool_val(false)) == Ok::<ValueView, ErrorView>(
            bool_val(true),
        ),
{
}

// ---------------------------------------------------------------------------
// Round trip through a type's own literal constructor
// ---------------------------------------------------------------------------

/// Does a literal carry exactly the payload a primitive's external
/// representation shows?
pub open spec fn literal_matches(lit: Literal, p: PrimView) -> bool {
    match (p, lit) {
        (PrimView::Int(n), Literal::Integer(m)) => n == m,
        (PrimView::Bool(b), Literal::Boolean(c)) => b == c,
        (PrimView::Char(c), Literal::Character(d)) => c == d,
        (PrimView::Str(s), Literal::String(t)) => t@ == s,
        _ => false,
    }
}

/// Round trip: for every built-in type, `clone_with_value` applied to the
/// type's default value and a literal built from a value's own external
/// representation reproduces an equal value.
pub proof fn lemma_clone_round_trip(p: PrimView, lit: Literal)
    requires
        literal_matches(lit, p),
    ensures
        prim_clone_with_value(prim_default(p), VariableData::Literal(lit)) matches Ok(q)
            && value_eq(ValueView::Prim(q), ValueView::Prim(p)),
{
    let args = seq![VariableData::Literal(lit)];
    assert(args.len() == 1);
    assert(args[0] == VariableData::Literal(lit));
}

// ---------------------------------------------------------------------------
// Duplicate declarations
// ---------------------------------------------------------------------------

proof fn lemma_lookup_fun_push(fs: Seq<FunView>, fv: FunView, name: Seq<char>)
    requires
        lookup_fun(fs, name) is None,
    ensures
        lookup_fun(fs.push(fv), name) == if fv.name == name {
            Some(fv)
        } else {
            None::<FunView>
        },
    decreases fs.len(),
{
    if fs.len() == 0 {
        assert(fs.push(fv)[0] == fv);
        assert(fs.push(fv).skip(1) =~= Seq::<FunView>::empty());
        assert(lookup_fun(fs.push(fv).skip(1), name) is None);
        assert(fs.push(fv).len() == 1);
        if fv.name == name {
            assert(lookup_fun(fs.push(fv), name) == Some(fs.push(fv)[0]));
        } else {
            assert(lookup_fun(fs.push(fv), name) == lookup_fun(fs.push(fv).skip(1), name));
        }
    } else {
        assert(fs[0].name != name);
        assert(fs.push(fv)[0] == fs[0]);
        assert(fs.push(fv).skip(1) =~= fs.skip(1).push(fv));
        lemma_lookup_fun_push(fs.skip(1), fv, name);
        assert(lookup_fun(fs.push(fv), name) == lookup_fun(fs.skip(1).push(fv), name));
    }
}

proof fn lemma_lookup_struct_push(ss: Seq<StructView>, sv: StructView, name: Seq<char>)
    requires
        lookup_struct(ss, name) is None,
    ensures
        lookup_struct(ss.push(sv), name) == if sv.name == name {
            Some(sv)
        } else {
            None::<StructView>
        },
    decreases ss.len(),
{
    if ss.len() == 0 {
        assert(ss.push(sv)[0] == sv);
        assert(ss.push(sv).skip(1) =~= Seq::<StructView>::empty());
        assert(lookup_struct(ss.push(sv).skip(1), name) is None);
        assert(ss.push(sv).len() == 1);
        if sv.name == name {
            assert(lookup_struct(ss.push(sv), name) == Some(ss.push(sv)[0]));
        } else {
            assert(lookup_struct(ss.push(sv), name) == lookup_struct(ss.push(sv).skip(1), name));
        }
    } else {
        assert(ss[0].name != name);
        assert(ss.push(sv)[0] == ss[0]);
        assert(ss.push(sv).skip(1) =~= ss.skip(1).push(sv));
        lemma_lookup_struct_push(ss.skip(1), sv, name);
        assert(lookup_struct(ss.push(sv), name) == lookup_struct(ss.skip(1).push(sv), name));
    }
}

/// Re-declaring a function name already used fails `DuplicateDefinition`,
/// changes nothing, and the original declaration stays resolvable.
pub proof fn lemma_duplicate_function(st: StateView, f: crate::ir::Function, g: crate::ir::Function)
    requires
        f.name@ == g.name@,
    ensures
        ({
            let (st1, out1) = decl_function(st, f);
            out1 matches Outcome::Normal(_) ==> ({
                let (st2, out2) = decl_function(st1, g);
                st2 == st1 && out2 == Outcome::Failed(ErrorView::DuplicateDefinition(g.name@))
                    && lookup_fun(st2.functions, f.name@) == Some(fun_decl_view(f))
            })
        }),
{
    let (st1, out1) = decl_function(st, f);
    if out1 matches Outcome::Normal(_) {
        lemma_lookup_fun_push(st.functions, fun_decl_view(f), f.name@);
    }
}

/// Re-declaring a record type name already used by a record type, or one
/// that collides with a registered built-in type, fails
/// `DuplicateDefinition`, changes nothing, and the original declaration
/// stays resolvable.
pub proof fn lemma_duplicate_struct(st: StateView, s: crate::ir::Struct, t: crate::ir::Struct)
    requires
        s.name@ == t.name@,
    ensures
        ({
            let (st1, out1) = decl_struct(st, s);
            out1 matches Outcome::Normal(_) ==> ({
                let (st2, out2) = decl_struct(st1, t);
                st2 == st1 && out2 == Outcome::Failed(ErrorView::DuplicateDefinition(t.name@))
                    && lookup_struct(st2.structs, s.name@) == Some(struct_decl_view(s))
            })
        }),
        lookup_type(st.types, s.name@) is Some ==> decl_struct(st, s) == (
            st,
            Outcome::Failed(ErrorView::DuplicateDefinition(s.name@)),
        ),
{
    let (st1, out1) = decl_struct(st, s);
    if out1 matches Outcome::Normal(_) {
        lemma_lookup_struct_push(st.structs, struct_decl_view(s), s.name@);
    }
}

} // verus!
