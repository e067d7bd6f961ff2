//! The operation protocol of the registered built-in types.
//!
//! Each built-in type implements literal construction, same-type-value
//! construction, a default value, and the eleven binary operator methods.
//! Integer arithmetic wraps (two's complement); division and modulo
//! truncate towards zero and reject a zero divisor.  Boolean `add` is
//! logical AND and boolean `sub` is logical OR (deliberate
//! operator-overloading symmetry); string `add` concatenates and string or
//! character `mul` by a non-negative integer repeats.
//!
//! The spec functions in this module are the single statement of that
//! behaviour; every executable method is proved to return exactly what
//! they say.

use crate::error::{Error, ErrorView};
use crate::ir::{Literal, Operator, VariableData};
use crate::value::{
    Bool, Char, Int, PrimView, Primitive, StringType, Value, ValueView, prim_view, value_view,
};
use vstd::arithmetic::div_mod::{
    lemma_div_is_ordered_by_denominator, lemma_div_nonincreasing, lemma_div_pos_is_pos,
    lemma_fundamental_div_mod, lemma_mod_bound,
};
use vstd::prelude::*;
use vstd::string::StringExecFns;
use vstd::wrapping::i64_specs;

verus! {

// ---------------------------------------------------------------------------
// Wrapping and truncating 64-bit arithmetic, at the spec level
// ---------------------------------------------------------------------------

/// Two's-complement wrapping addition.
pub open spec fn wrap_add(a: i64, b: i64) -> i64 {
    i64_specs::wrapping_add(a, b)
}

/// Two's-complement wrapping subtraction.
pub open spec fn wrap_sub(a: i64, b: i64) -> i64 {
    i64_specs::wrapping_sub(a, b)
}

/// Two's-complement wrapping multiplication.
pub open spec fn wrap_mul(a: i64, b: i64) -> i64 {
    i64_specs::wrapping_mul(a, b)
}

/// Division truncated towards zero over the mathematical integers
/// (Verus's `/` on `int` is Euclidean, so the negative cases are spelled
/// out through the absolute values).
pub open spec fn trunc_div_int(x: int, d: int) -> int {
    if x == 0 {
        0
    } else if x > 0 && d > 0 {
        x / d
    } else if x < 0 && d < 0 {
        (x * -1) / (d * -1)
    } else if x < 0 {
        ((x * -1) / d) * -1
    } else {
        (x / (d * -1)) * -1
    }
}

/// Remainder matching `trunc_div_int`: it carries the dividend's sign.
pub open spec fn trunc_rem_int(x: int, d: int) -> int {
    if x == 0 {
        0
    } else if x > 0 && d > 0 {
        x % d
    } else if x < 0 && d < 0 {
        ((x * -1) % (d * -1)) * -1
    } else if x < 0 {
        ((x * -1) % d) * -1
    } else {
        x % (d * -1)
    }
}

/// 64-bit truncating division, wrapping on the single overflowing case.
pub open spec fn int_div(a: i64, b: i64) -> i64
    recommends
        b != 0,
{
    if a == i64::MIN && b == -1 {
        i64::MIN
    } else {
        trunc_div_int(a as int, b as int) as i64
    }
}

/// 64-bit truncating remainder, zero on the single overflowing case.
pub open spec fn int_mod(a: i64, b: i64) -> i64
    recommends
        b != 0,
{
    if a == i64::MIN && b == -1 {
        0
    } else {
        trunc_rem_int(a as int, b as int) as i64
    }
}

/// Outside the one wrapping case, the truncating quotient and remainder
/// of two `i64` values fit in `i64`.
pub proof fn lemma_trunc_in_range(a: i64, b: i64)
    requires
        b != 0,
        !(a == i64::MIN && b == -1),
    ensures
        i64::MIN <= trunc_div_int(a as int, b as int) <= i64::MAX,
        i64::MIN <= trunc_rem_int(a as int, b as int) <= i64::MAX,
{
    let x = a as int;
    let d = b as int;
    if x != 0 {
        let p = if x > 0 { x } else { x * -1 };
        let q = if d > 0 { d } else { d * -1 };
        lemma_div_pos_is_pos(p, q);
        lemma_div_nonincreasing(p, q);
        lemma_mod_bound(p, q);
        if x < 0 && d < 0 && d != -1 {
            lemma_div_is_ordered_by_denominator(p, 2, q);
            lemma_div_nonincreasing(p / 2, 2);
            assert(p / q <= p / 2);
            assert(p / 2 <= i64::MAX) by {
                lemma_fundamental_div_mod(p, 2);
                lemma_mod_bound(p, 2);
            }
        }
        if x < 0 && d == -1 {
            assert(p <= i64::MAX);
            assert(p / 1 == p) by {
                lemma_fundamental_div_mod(p, 1);
                lemma_mod_bound(p, 1);
            }
        }
    }
}

/// 64-bit truncating division; the divisor must be non-zero, and the one
/// overflowing case wraps to `i64::MIN`.
pub fn i64_div(a: i64, b: i64) -> (r: i64)
    requires
        b != 0,
    ensures
        r == int_div(a, b),
{
    if a == i64::MIN && b == -1 {
        i64::MIN
    } else {
        proof {
            lemma_trunc_in_range(a, b);
        }
        let q = a.checked_div(b);
        q.unwrap()
    }
}

/// 64-bit truncating remainder; the divisor must be non-zero, and the one
/// overflowing case wraps to zero.
pub fn i64_mod(a: i64, b: i64) -> (r: i64)
    requires
        b != 0,
    ensures
        r == int_mod(a, b),
{
    if a == i64::MIN && b == -1 {
        0
    } else {
        proof {
            lemma_trunc_in_range(a, b);
        }
        let q = a.checked_rem(b);
        q.unwrap()
    }
}

// ---------------------------------------------------------------------------
// Sequence helpers for the string and character operations
// ---------------------------------------------------------------------------

/// `s` repeated `n` times (empty for `n <= 0`).
pub open spec fn seq_repeat(s: Seq<char>, n: int) -> Seq<char>
    decreases n,
{
    if n <= 0 {
        Seq::empty()
    } else {
        seq_repeat(s, n - 1) + s
    }
}

/// Strict lexicographic order on character sequences, by code point.
pub open spec fn seq_char_lt(a: Seq<char>, b: Seq<char>) -> bool
    decreases a.len(),
{
    if b.len() == 0 {
        false
    } else if a.len() == 0 {
        true
    } else if a[0] == b[0] {
        seq_char_lt(a.skip(1), b.skip(1))
    } else {
        (a[0] as u32) < (b[0] as u32)
    }
}

// ---------------------------------------------------------------------------
// The eleven binary operator methods, at the spec level
// ---------------------------------------------------------------------------

pub open spec fn int_val(n: i64) -> ValueView {
    ValueView::Prim(PrimView::Int(n))
}

pub open spec fn bool_val(b: bool) -> ValueView {
    ValueView::Prim(PrimView::Bool(b))
}

pub open spec fn char_val(c: char) -> ValueView {
    ValueView::Prim(PrimView::Char(c))
}

pub open spec fn str_val(s: Seq<char>) -> ValueView {
    ValueView::Prim(PrimView::Str(s))
}

/// What the integer type returns for each operator: wrapping arithmetic,
/// truncating division and modulo that reject a zero divisor, comparisons
/// yielding booleans.  Every other operand is rejected.
pub open spec fn int_binop(op: Operator, a: i64, other: ValueView) -> Result<
    ValueView,
    ErrorView,
> {
    match op {
        Operator::Add => match other {
            ValueView::Prim(PrimView::Int(b)) => Ok(int_val(wrap_add(a, b))),
            _ => Err(ErrorView::InvalidArgument),
        },
        Operator::Subtract => match other {
            ValueView::Prim(PrimView::Int(b)) => Ok(int_val(wrap_sub(a, b))),
            _ => Err(ErrorView::InvalidArgument),
        },
        Operator::Multiply => match other {
            ValueView::Prim(PrimView::Int(b)) => Ok(int_val(wrap_mul(a, b))),
            _ => Err(ErrorView::InvalidArgument),
        },
        Operator::Divide => match other {
            ValueView::Prim(PrimView::Int(b)) => if b == 0 {
                Err(ErrorView::DivisionByZero)
            } else {
                Ok(int_val(int_div(a, b)))
            },
            _ => Err(ErrorView::InvalidArgument),
        },
        Operator::Modulo => match other {
            ValueView::Prim(PrimView::Int(b)) => if b == 0 {
                Err(ErrorView::ModuloByZero)
            } else {
                Ok(int_val(int_mod(a, b)))
            },
            _ => Err(ErrorView::InvalidArgument),
        },
        Operator::Equal => match other {
            ValueView::Prim(PrimView::Int(b)) => Ok(bool_val(a == b)),
            _ => Err(ErrorView::InvalidArgument),
        },
        Operator::NotEqual => match other {
            ValueView::Prim(PrimView::Int(b)) => Ok(bool_val(a != b)),
            _ => Err(ErrorView::InvalidArgument),
        },
        Operator::Less => match other {
            ValueView::Prim(PrimView::Int(b)) => Ok(bool_val(a < b)),
            _ => Err(ErrorView::InvalidArgument),
        },
        Operator::LessEqual => match other {
            ValueView::Prim(PrimView::Int(b)) => Ok(bool_val(a <= b)),
            _ => Err(ErrorView::InvalidArgument),
        },
        Operator::Greater => match other {
            ValueView::Prim(PrimView::Int(b)) => Ok(bool_val(a > b)),
            _ => Err(ErrorView::InvalidArgument),
        },
        Operator::GreaterEqual => match other {
            ValueView::Prim(PrimView::Int(b)) => Ok(bool_val(a >= b)),
            _ => Err(ErrorView::InvalidArgument),
        },
        _ => Err(ErrorView::UnsupportedOperation(op)),
    }
}

/// What the boolean type returns for each operator: `add` is logical AND,
/// `sub` is logical OR, the order puts `false` before `true`, and
/// multiplication, division and modulo have no meaning.
pub open spec fn bool_binop(op: Operator, a: bool, other: ValueView) -> Result<
    ValueView,
    ErrorView,
> {
    match op {
        Operator::Multiply | Operator::Divide | Operator::Modulo => Err(
            ErrorView::UnsupportedOperation(op),
        ),
        Operator::Add | Operator::Subtract | Operator::Equal | Operator::NotEqual
            | Operator::Less | Operator::LessEqual | Operator::Greater
            | Operator::GreaterEqual => match other {
            ValueView::Prim(PrimView::Bool(b)) => match op {
                Operator::Add => Ok(bool_val(a && b)),
                Operator::Subtract => Ok(bool_val(a || b)),
                Operator::Equal => Ok(bool_val(a == b)),
                Operator::NotEqual => Ok(bool_val(a != b)),
                Operator::Less => Ok(bool_val(!a && b)),
                Operator::LessEqual => Ok(bool_val(!a || b)),
                Operator::Greater => Ok(bool_val(a && !b)),
                _ => Ok(bool_val(a || !b)),
            },
            _ => Err(ErrorView::InvalidArgument),
        },
        _ => Err(ErrorView::UnsupportedOperation(op)),
    }
}

/// What the character type returns for each operator: `add` of two
/// characters makes a two-character string, `mul` by a non-negative
/// integer repeats (a negative count is rejected), comparisons order by
/// code point.
pub open spec fn char_binop(op: Operator, a: char, other: ValueView) -> Result<
    ValueView,
    ErrorView,
> {
    match op {
        Operator::Add => match other {
            ValueView::Prim(PrimView::Char(b)) => Ok(str_val(seq![a, b])),
            _ => Err(ErrorView::InvalidArgument),
        },
        Operator::Multiply => match other {
            ValueView::Prim(PrimView::Int(n)) => if n < 0 {
                Err(ErrorView::InvalidArgument)
            } else {
                Ok(str_val(seq_repeat(seq![a], n as int)))
            },
            _ => Err(ErrorView::InvalidArgument),
        },
        Operator::Equal => match other {
            ValueView::Prim(PrimView::Char(b)) => Ok(bool_val(a == b)),
            _ => Err(ErrorView::InvalidArgument),
        },
        Operator::NotEqual => match other {
            ValueView::Prim(PrimView::Char(b)) => Ok(bool_val(a != b)),
            _ => Err(ErrorView::InvalidArgument),
        },
        Operator::Less => match other {
            ValueView::Prim(PrimView::Char(b)) => Ok(bool_val((a as u32) < (b as u32))),
            _ => Err(ErrorView::InvalidArgument),
        },
        Operator::LessEqual => match other {
            ValueView::Prim(PrimView::Char(b)) => Ok(bool_val((a as u32) <= (b as u32))),
            _ => Err(ErrorView::InvalidArgument),
        },
        Operator::Greater => match other {
            ValueView::Prim(PrimView::Char(b)) => Ok(bool_val((a as u32) > (b as u32))),
            _ => Err(ErrorView::InvalidArgument),
        },
        Operator::GreaterEqual => match other {
            ValueView::Prim(PrimView::Char(b)) => Ok(bool_val((a as u32) >= (b as u32))),
            _ => Err(ErrorView::InvalidArgument),
        },
        _ => Err(ErrorView::UnsupportedOperation(op)),
    }
}

/// What the string type returns for each operator: `add` concatenates,
/// `mul` by a non-negative integer repeats, subtracting the integer zero
/// is the identity, comparisons order lexicographically by code point.
pub open spec fn str_binop(op: Operator, s: Seq<char>, other: ValueView) -> Result<
    ValueView,
    ErrorView,
> {
    match op {
        Operator::Add => match other {
            ValueView::Prim(PrimView::Str(t)) => Ok(str_val(s + t)),
            _ => Err(ErrorView::InvalidArgument),
        },
        Operator::Subtract => if other == int_val(0) {
            Ok(str_val(s))
        } else {
            Err(ErrorView::UnsupportedOperation(op))
        },
        Operator::Multiply => match other {
            ValueView::Prim(PrimView::Int(n)) => if n < 0 {
                Err(ErrorView::InvalidArgument)
            } else {
                Ok(str_val(seq_repeat(s, n as int)))
            },
            _ => Err(ErrorView::InvalidArgument),
        },
        Operator::Equal => match other {
            ValueView::Prim(PrimView::Str(t)) => Ok(bool_val(s == t)),
            _ => Err(ErrorView::InvalidArgument),
        },
        Operator::NotEqual => match other {
            ValueView::Prim(PrimView::Str(t)) => Ok(bool_val(s != t)),
            _ => Err(ErrorView::InvalidArgument),
        },
        Operator::Less => match other {
            ValueView::Prim(PrimView::Str(t)) => Ok(bool_val(seq_char_lt(s, t))),
            _ => Err(ErrorView::InvalidArgument),
        },
        Operator::LessEqual => match other {
            ValueView::Prim(PrimView::Str(t)) => Ok(bool_val(seq_char_lt(s, t) || s == t)),
            _ => Err(ErrorView::InvalidArgument),
        },
        Operator::Greater => match other {
            ValueView::Prim(PrimView::Str(t)) => Ok(bool_val(seq_char_lt(t, s))),
            _ => Err(ErrorView::InvalidArgument),
        },
        Operator::GreaterEqual => match other {
            ValueView::Prim(PrimView::Str(t)) => Ok(bool_val(seq_char_lt(t, s) || s == t)),
            _ => Err(ErrorView::InvalidArgument),
        },
        _ => Err(ErrorView::UnsupportedOperation(op)),
    }
}

/// Operator dispatch for any primitive: the left operand's type decides.
pub open spec fn prim_binop(op: Operator, p: PrimView, other: ValueView) -> Result<
    ValueView,
    ErrorView,
> {
    match p {
        PrimView::Int(a) => int_binop(op, a, other),
        PrimView::Bool(a) => bool_binop(op, a, other),
        PrimView::Char(a) => char_binop(op, a, other),
        PrimView::Str(s) => str_binop(op, s, other),
    }
}

/// Pairs an executable operator result with its ghost mirror.
pub open spec fn result_view(r: Result<Value, Error>) -> Result<ValueView, ErrorView> {
    match r {
        Ok(v) => Ok(value_view(v)),
        Err(e) => Err(e@),
    }
}

// ---------------------------------------------------------------------------
// Executable string helpers
// ---------------------------------------------------------------------------

/// The concatenation of two strings.
pub fn str_concat(a: &String, b: &String) -> (r: String)
    ensures
        r@ == a@ + b@,
{
    let mut out = a.clone();
    out.append(b.as_str());
    out
}

/// `s` repeated `n` times.
pub fn str_repeat(s: &String, n: i64) -> (r: String)
    requires
        n >= 0,
    ensures
        r@ == seq_repeat(s@, n as int),
{
    let mut out = String::new();
    let mut k: i64 = 0;
    assert(out@ =~= seq_repeat(s@, 0));
    while k < n
        invariant
            0 <= k <= n,
            out@ == seq_repeat(s@, k as int),
        decreases n - k,
    {
        out.append(s.as_str());
        k = k + 1;
    }
    out
}

/// Strict lexicographic comparison of two strings, by code point.
pub fn str_lt(a: &String, b: &String) -> (r: bool)
    ensures
        r == seq_char_lt(a@, b@),
{
    let an = a.as_str().unicode_len();
    let bn = b.as_str().unicode_len();
    let mut i: usize = 0;
    proof {
        assert(a@.skip(0) =~= a@);
        assert(b@.skip(0) =~= b@);
    }
    while i < an && i < bn
        invariant
            i <= an,
            i <= bn,
            an == a@.len(),
            bn == b@.len(),
            seq_char_lt(a@, b@) == seq_char_lt(a@.skip(i as int), b@.skip(i as int)),
        decreases an - i,
    {
        let ca = a.as_str().get_char(i);
        let cb = b.as_str().get_char(i);
        if ca != cb {
            return (ca as u32) < (cb as u32);
        }
        proof {
            assert(a@.skip(i as int).skip(1) =~= a@.skip(i as int + 1));
            assert(b@.skip(i as int).skip(1) =~= b@.skip(i as int + 1));
        }
        i = i + 1;
    }
    i == an && i < bn
}

// ---------------------------------------------------------------------------
// The integer type
// ---------------------------------------------------------------------------

impl Int {
    /// The default integer: zero.
    pub fn new_default() -> (r: Int)
        ensures
            r.number == 0,
    {
        Int { number: 0 }
    }

    /// Addition; wraps in two's complement.
    pub fn add(&self, other: &Value) -> (r: Result<Value, Error>)
        ensures
            result_view(r) == int_binop(Operator::Add, self.number, other@),
    {
        match other {
            Value::StdStruct(Primitive::Int(b)) => Ok(
                Value::StdStruct(Primitive::Int(Int { number: self.number.wrapping_add(b.number) })),
            ),
            _ => Err(Error::InvalidArgument),
        }
    }

    /// Subtraction; wraps in two's complement.
    pub fn sub(&self, other: &Value) -> (r: Result<Value, Error>)
        ensures
            result_view(r) == int_binop(Operator::Subtract, self.number, other@),
    {
        match other {
            Value::StdStruct(Primitive::Int(b)) => Ok(
                Value::StdStruct(Primitive::Int(Int { number: self.number.wrapping_sub(b.number) })),
            ),
            _ => Err(Error::InvalidArgument),
        }
    }

    /// Multiplication; wraps in two's complement.
    pub fn mul(&self, other: &Value) -> (r: Result<Value, Error>)
        ensures
            result_view(r) == int_binop(Operator::Multiply, self.number, other@),
    {
        match other {
            Value::StdStruct(Primitive::Int(b)) => Ok(
                Value::StdStruct(Primitive::Int(Int { number: self.number.wrapping_mul(b.number) })),
            ),
            _ => Err(Error::InvalidArgument),
        }
    }

    /// Truncating division; a zero divisor is `DivisionByZero`.
    pub fn div(&self, other: &Value) -> (r: Result<Value, Error>)
        ensures
            result_view(r) == int_binop(Operator::Divide, self.number, other@),
    {
        match other {
            Value::StdStruct(Primitive::Int(b)) => {
                if b.number == 0 {
                    Err(Error::DivisionByZero)
                } else {
                    Ok(
                        Value::StdStruct(
                            Primitive::Int(Int { number: i64_div(self.number, b.number) }),
                        ),
                    )
                }
            },
            _ => Err(Error::InvalidArgument),
        }
    }

    /// Truncating remainder; a zero divisor is `ModuloByZero`.
    pub fn modulo(&self, other: &Value) -> (r: Result<Value, Error>)
        ensures
            result_view(r) == int_binop(Operator::Modulo, self.number, other@),
    {
        match other {
            Value::StdStruct(Primitive::Int(b)) => {
                if b.number == 0 {
                    Err(Error::ModuloByZero)
                } else {
                    Ok(
                        Value::StdStruct(
                            Primitive::Int(Int { number: i64_mod(self.number, b.number) }),
                        ),
                    )
                }
            },
            _ => Err(Error::InvalidArgument),
        }
    }

    /// Equality test; yields a boolean primitive.
    pub fn eq(&self, other: &Value) -> (r: Result<Value, Error>)
        ensures
            result_view(r) == int_binop(Operator::Equal, self.number, other@),
    {
        match other {
            Value::StdStruct(Primitive::Int(b)) => Ok(
                Value::StdStruct(Primitive::Bool(Bool { value: self.number == b.number })),
            ),
            _ => Err(Error::InvalidArgument),
        }
    }

    /// Inequality test; yields a boolean primitive.
    pub fn neq(&self, other: &Value) -> (r: Result<Value, Error>)
        ensures
            result_view(r) == int_binop(Operator::NotEqual, self.number, other@),
    {
        match other {
            Value::StdStruct(Primitive::Int(b)) => Ok(
                Value::StdStruct(Primitive::Bool(Bool { value: self.number != b.number })),
            ),
            _ => Err(Error::InvalidArgument),
        }
    }

    /// Strict order; yields a boolean primitive.
    pub fn less(&self, other: &Value) -> (r: Result<Value, Error>)
        ensures
            result_view(r) == int_binop(Operator::Less, self.number, other@),
    {
        match other {
            Value::StdStruct(Primitive::Int(b)) => Ok(
                Value::StdStruct(Primitive::Bool(Bool { value: self.number < b.number })),
            ),
            _ => Err(Error::InvalidArgument),
        }
    }

    /// Non-strict order; yields a boolean primitive.
    pub fn less_eq(&self, other: &Value) -> (r: Result<Value, Error>)
        ensures
            result_view(r) == int_binop(Operator::LessEqual, self.number, other@),
    {
        match other {
            Value::StdStruct(Primitive::Int(b)) => Ok(
                Value::StdStruct(Primitive::Bool(Bool { value: self.number <= b.number })),
            ),
            _ => Err(Error::InvalidArgument),
        }
    }

    /// Strict reverse order; yields a boolean primitive.
    pub fn greater(&self, other: &Value) -> (r: Result<Value, Error>)
        ensures
            result_view(r) == int_binop(Operator::Greater, self.number, other@),
    {
        match other {
            Value::StdStruct(Primitive::Int(b)) => Ok(
                Value::StdStruct(Primitive::Bool(Bool { value: self.number > b.number })),
            ),
            _ => Err(Error::InvalidArgument),
        }
    }

    /// Non-strict reverse order; yields a boolean primitive.
    pub fn greater_eq(&self, other: &Value) -> (r: Result<Value, Error>)
        ensures
            result_view(r) == int_binop(Operator::GreaterEqual, self.number, other@),
    {
        match other {
            Value::StdStruct(Primitive::Int(b)) => Ok(
                Value::StdStruct(Primitive::Bool(Bool { value: self.number >= b.number })),
            ),
            _ => Err(Error::InvalidArgument),
        }
    }
}

// ---------------------------------------------------------------------------
// The boolean type
// ---------------------------------------------------------------------------

impl Bool {
    /// The default boolean: `false`.
    pub fn new_default() -> (r: Bool)
        ensures
            r.value == false,
    {
        Bool { value: false }
    }

    /// Logical AND (the boolean meaning of `+`).
    pub fn add(&self, other: &Value) -> (r: Result<Value, Error>)
        ensures
            result_view(r) == bool_binop(Operator::Add, self.value, other@),
    {
        match other {
            Value::StdStruct(Primitive::Bool(b)) => Ok(
                Value::StdStruct(Primitive::Bool(Bool { value: self.value && b.value })),
            ),
            _ => Err(Error::InvalidArgument),
        }
    }

    /// Logical OR (the boolean meaning of `-`).
    pub fn sub(&self, other: &Value) -> (r: Result<Value, Error>)
        ensures
            result_view(r) == bool_binop(Operator::Subtract, self.value, other@),
    {
        match other {
            Value::StdStruct(Primitive::Bool(b)) => Ok(
                Value::StdStruct(Primitive::Bool(Bool { value: self.value || b.value })),
            ),
            _ => Err(Error::InvalidArgument),
        }
    }

    /// Multiplication has no meaning for booleans.
    pub fn mul(&self, other: &Value) -> (r: Result<Value, Error>)
        ensures
            result_view(r) == bool_binop(Operator::Multiply, self.value, other@),
    {
        let _ = other;
        Err(Error::UnsupportedOperation(Operator::Multiply))
    }

    /// Division has no meaning for booleans.
    pub fn div(&self, other: &Value) -> (r: Result<Value, Error>)
        ensures
            result_view(r) == bool_binop(Operator::Divide, self.value, other@),
    {
        let _ = other;
        Err(Error::UnsupportedOperation(Operator::Divide))
    }

    /// Modulo has no meaning for booleans.
    pub fn modulo(&self, other: &Value) -> (r: Result<Value, Error>)
        ensures
            result_view(r) == bool_binop(Operator::Modulo, self.value, other@),
    {
        let _ = other;
        Err(Error::UnsupportedOperation(Operator::Modulo))
    }

    /// Equality test.
    pub fn eq(&self, other: &Value) -> (r: Result<Value, Error>)
        ensures
            result_view(r) == bool_binop(Operator::Equal, self.value, other@),
    {
        match other {
            Value::StdStruct(Primitive::Bool(b)) => Ok(
                Value::StdStruct(Primitive::Bool(Bool { value: self.value == b.value })),
            ),
            _ => Err(Error::InvalidArgument),
        }
    }

    /// Inequality test.
    pub fn neq(&self, other: &Value) -> (r: Result<Value, Error>)
        ensures
            result_view(r) == bool_binop(Operator::NotEqual, self.value, other@),
    {
        match other {
            Value::StdStruct(Primitive::Bool(b)) => Ok(
                Value::StdStruct(Primitive::Bool(Bool { value: self.value != b.value })),
            ),
            _ => Err(Error::InvalidArgument),
        }
    }

    /// Strict order: `false < true`.
    pub fn less(&self, other: &Value) -> (r: Result<Value, Error>)
        ensures
            result_view(r) == bool_binop(Operator::Less, self.value, other@),
    {
        match other {
            Value::StdStruct(Primitive::Bool(b)) => Ok(
                Value::StdStruct(Primitive::Bool(Bool { value: !self.value && b.value })),
            ),
            _ => Err(Error::InvalidArgument),
        }
    }

    /// Non-strict order.
    pub fn less_eq(&self, other: &Value) -> (r: Result<Value, Error>)
        ensures
            result_view(r) == bool_binop(Operator::LessEqual, self.value, other@),
    {
        match other {
            Value::StdStruct(Primitive::Bool(b)) => Ok(
                Value::StdStruct(Primitive::Bool(Bool { value: !self.value || b.value })),
            ),
            _ => Err(Error::InvalidArgument),
        }
    }

    /// Strict reverse order: `true > false`.
    pub fn greater(&self, other: &Value) -> (r: Result<Value, Error>)
        ensures
            result_view(r) == bool_binop(Operator::Greater, self.value, other@),
    {
        match other {
            Value::StdStruct(Primitive::Bool(b)) => Ok(
                Value::StdStruct(Primitive::Bool(Bool { value: self.value && !b.value })),
            ),
            _ => Err(Error::InvalidArgument),
        }
    }

    /// Non-strict reverse order.
    pub fn greater_eq(&self, other: &Value) -> (r: Result<Value, Error>)
        ensures
            result_view(r) == bool_binop(Operator::GreaterEqual, self.value, other@),
    {
        match other {
            Value::StdStruct(Primitive::Bool(b)) => Ok(
                Value::StdStruct(Primitive::Bool(Bool { value: self.value || !b.value })),
            ),
            _ => Err(Error::InvalidArgument),
        }
    }
}

// ---------------------------------------------------------------------------
// The character type
// ---------------------------------------------------------------------------

impl Char {
    /// The default character: NUL.
    pub fn new_default() -> (r: Char)
        ensures
            r.value == '\0',
    {
        Char { value: '\0' }
    }

    /// Adding two characters makes a two-character string.
    pub fn add(&self, other: &Value) -> (r: Result<Value, Error>)
        ensures
            result_view(r) == char_binop(Operator::Add, self.value, other@),
    {
        match other {
            Value::StdStruct(Primitive::Char(b)) => {
                let mut s = crate::value::char_to_string(self.value);
                let t = crate::value::char_to_string(b.value);
                s.append(t.as_str());
                proof {
                    assert(s@ =~= seq![self.value, b.value]);
                }
                Ok(Value::StdStruct(Primitive::Str(StringType { value: s })))
            },
            _ => Err(Error::InvalidArgument),
        }
    }

    /// Subtraction has no meaning for characters.
    pub fn sub(&self, other: &Value) -> (r: Result<Value, Error>)
        ensures
            result_view(r) == char_binop(Operator::Subtract, self.value, other@),
    {
        let _ = other;
        Err(Error::UnsupportedOperation(Operator::Subtract))
    }

    /// Repetition: the character repeated a non-negative number of times.
    pub fn mul(&self, other: &Value) -> (r: Result<Value, Error>)
        ensures
            result_view(r) == char_binop(Operator::Multiply, self.value, other@),
    {
        match other {
            Value::StdStruct(Primitive::Int(n)) => {
                if n.number < 0 {
                    Err(Error::InvalidArgument)
                } else {
                    let s = crate::value::char_to_string(self.value);
                    Ok(
                        Value::StdStruct(
                            Primitive::Str(StringType { value: str_repeat(&s, n.number) }),
                        ),
                    )
                }
            },
            _ => Err(Error::InvalidArgument),
        }
    }

    /// Division has no meaning for characters.
    pub fn div(&self, other: &Value) -> (r: Result<Value, Error>)
        ensures
            result_view(r) == char_binop(Operator::Divide, self.value, other@),
    {
        let _ = other;
        Err(Error::UnsupportedOperation(Operator::Divide))
    }

    /// Modulo has no meaning for characters.
    pub fn modulo(&self, other: &Value) -> (r: Result<Value, Error>)
        ensures
            result_view(r) == char_binop(Operator::Modulo, self.value, other@),
    {
        let _ = other;
        Err(Error::UnsupportedOperation(Operator::Modulo))
    }

    /// Equality test.
    pub fn eq(&self, other: &Value) -> (r: Result<Value, Error>)
        ensures
            result_view(r) == char_binop(Operator::Equal, self.value, other@),
    {
        match other {
            Value::StdStruct(Primitive::Char(b)) => Ok(
                Value::StdStruct(Primitive::Bool(Bool { value: self.value == b.value })),
            ),
            _ => Err(Error::InvalidArgument),
        }
    }

    /// Inequality test.
    pub fn neq(&self, other: &Value) -> (r: Result<Value, Error>)
        ensures
            result_view(r) == char_binop(Operator::NotEqual, self.value, other@),
    {
        match other {
            Value::StdStruct(Primitive::Char(b)) => Ok(
                Value::StdStruct(Primitive::Bool(Bool { value: self.value != b.value })),
            ),
            _ => Err(Error::InvalidArgument),
        }
    }

    /// Strict order by code point.
    pub fn less(&self, other: &Value) -> (r: Result<Value, Error>)
        ensures
            result_view(r) == char_binop(Operator::Less, self.value, other@),
    {
        match other {
            Value::StdStruct(Primitive::Char(b)) => Ok(
                Value::StdStruct(
                    Primitive::Bool(Bool { value: (self.value as u32) < (b.value as u32) }),
                ),
            ),
            _ => Err(Error::InvalidArgument),
        }
    }

    /// Non-strict order by code point.
    pub fn less_eq(&self, other: &Value) -> (r: Result<Value, Error>)
        ensures
            result_view(r) == char_binop(Operator::LessEqual, self.value, other@),
    {
        match other {
            Value::StdStruct(Primitive::Char(b)) => Ok(
                Value::StdStruct(
                    Primitive::Bool(Bool { value: (self.value as u32) <= (b.value as u32) }),
                ),
            ),
            _ => Err(Error::InvalidArgument),
        }
    }

    /// Strict reverse order by code point.
    pub fn greater(&self, other: &Value) -> (r: Result<Value, Error>)
        ensures
            result_view(r) == char_binop(Operator::Greater, self.value, other@),
    {
        match other {
            Value::StdStruct(Primitive::Char(b)) => Ok(
                Value::StdStruct(
                    Primitive::Bool(Bool { value: (self.value as u32) > (b.value as u32) }),
                ),
            ),
            _ => Err(Error::InvalidArgument),
        }
    }

    /// Non-strict reverse order by code point.
    pub fn greater_eq(&self, other: &Value) -> (r: Result<Value, Error>)
        ensures
            result_view(r) == char_binop(Operator::GreaterEqual, self.value, other@),
    {
        match other {
            Value::StdStruct(Primitive::Char(b)) => Ok(
                Value::StdStruct(
                    Primitive::Bool(Bool { value: (self.value as u32) >= (b.value as u32) }),
                ),
            ),
            _ => Err(Error::InvalidArgument),
        }
    }
}

// ---------------------------------------------------------------------------
// The string type
// ---------------------------------------------------------------------------

impl StringType {
    /// The default string: empty.
    pub fn new_default() -> (r: StringType)
        ensures
            r.value@ == Seq::<char>::empty(),
    {
        StringType { value: String::new() }
    }

    /// Concatenation.
    pub fn add(&self, other: &Value) -> (r: Result<Value, Error>)
        ensures
            result_view(r) == str_binop(Operator::Add, self.value@, other@),
    {
        match other {
            Value::StdStruct(Primitive::Str(t)) => Ok(
                Value::StdStruct(
                    Primitive::Str(StringType { value: str_concat(&self.value, &t.value) }),
                ),
            ),
            _ => Err(Error::InvalidArgument),
        }
    }

    /// Subtracting the integer zero is the identity; nothing else can be
    /// subtracted from a string.
    pub fn sub(&self, other: &Value) -> (r: Result<Value, Error>)
        ensures
            result_view(r) == str_binop(Operator::Subtract, self.value@, other@),
    {
        match other {
            Value::StdStruct(Primitive::Int(b)) => {
                if b.number == 0 {
                    Ok(Value::StdStruct(Primitive::Str(StringType { value: self.value.clone() })))
                } else {
                    Err(Error::UnsupportedOperation(Operator::Subtract))
                }
            },
            _ => Err(Error::UnsupportedOperation(Operator::Subtract)),
        }
    }

    /// Repetition by a non-negative integer.
    pub fn mul(&self, other: &Value) -> (r: Result<Value, Error>)
        ensures
            result_view(r) == str_binop(Operator::Multiply, self.value@, other@),
    {
        match other {
            Value::StdStruct(Primitive::Int(n)) => {
                if n.number < 0 {
                    Err(Error::InvalidArgument)
                } else {
                    Ok(
                        Value::StdStruct(
                            Primitive::Str(
                                StringType { value: str_repeat(&self.value, n.number) },
                            ),
                        ),
                    )
                }
            },
            _ => Err(Error::InvalidArgument),
        }
    }

    /// Division has no meaning for strings.
    pub fn div(&self, other: &Value) -> (r: Result<Value, Error>)
        ensures
            result_view(r) == str_binop(Operator::Divide, self.value@, other@),
    {
        let _ = other;
        Err(Error::UnsupportedOperation(Operator::Divide))
    }

    /// Modulo has no meaning for strings.
    pub fn modulo(&self, other: &Value) -> (r: Result<Value, Error>)
        ensures
            result_view(r) == str_binop(Operator::Modulo, self.value@, other@),
    {
        let _ = other;
        Err(Error::UnsupportedOperation(Operator::Modulo))
    }

    /// Equality test.
    pub fn eq(&self, other: &Value) -> (r: Result<Value, Error>)
        ensures
            result_view(r) == str_binop(Operator::Equal, self.value@, other@),
    {
        match other {
            Value::StdStruct(Primitive::Str(t)) => Ok(
                Value::StdStruct(Primitive::Bool(Bool { value: self.value == t.value })),
            ),
            _ => Err(Error::InvalidArgument),
        }
    }

    /// Inequality test.
    pub fn neq(&self, other: &Value) -> (r: Result<Value, Error>)
        ensures
            result_view(r) == str_binop(Operator::NotEqual, self.value@, other@),
    {
        match other {
            Value::StdStruct(Primitive::Str(t)) => Ok(
                Value::StdStruct(Primitive::Bool(Bool { value: !(self.value == t.value) })),
            ),
            _ => Err(Error::InvalidArgument),
        }
    }

    /// Strict lexicographic order by code point.
    pub fn less(&self, other: &Value) -> (r: Result<Value, Error>)
        ensures
            result_view(r) == str_binop(Operator::Less, self.value@, other@),
    {
        match other {
            Value::StdStruct(Primitive::Str(t)) => Ok(
                Value::StdStruct(
                    Primitive::Bool(Bool { value: str_lt(&self.value, &t.value) }),
                ),
            ),
            _ => Err(Error::InvalidArgument),
        }
    }

    /// Non-strict lexicographic order by code point.
    pub fn less_eq(&self, other: &Value) -> (r: Result<Value, Error>)
        ensures
            result_view(r) == str_binop(Operator::LessEqual, self.value@, other@),
    {
        match other {
            Value::StdStruct(Primitive::Str(t)) => {
                let lt = str_lt(&self.value, &t.value);
                let v = if lt {
                    true
                } else {
                    self.value == t.value
                };
                Ok(Value::StdStruct(Primitive::Bool(Bool { value: v })))
            },
            _ => Err(Error::InvalidArgument),
        }
    }

    /// Strict reverse lexicographic order by code point.
    pub fn greater(&self, other: &Value) -> (r: Result<Value, Error>)
        ensures
            result_view(r) == str_binop(Operator::Greater, self.value@, other@),
    {
        match other {
            Value::StdStruct(Primitive::Str(t)) => Ok(
                Value::StdStruct(
                    Primitive::Bool(Bool { value: str_lt(&t.value, &self.value) }),
                ),
            ),
            _ => Err(Error::InvalidArgument),
        }
    }

    /// Non-strict reverse lexicographic order by code point.
    pub fn greater_eq(&self, other: &Value) -> (r: Result<Value, Error>)
        ensures
            result_view(r) == str_binop(Operator::GreaterEqual, self.value@, other@),
    {
        match other {
            Value::StdStruct(Primitive::Str(t)) => {
                let gt = str_lt(&t.value, &self.value);
                let v = if gt {
                    true
                } else {
                    self.value == t.value
                };
                Ok(Value::StdStruct(Primitive::Bool(Bool { value: v })))
            },
            _ => Err(Error::InvalidArgument),
        }
    }
}

// ---------------------------------------------------------------------------
// Construction from literals and from existing values, at the spec level
// ---------------------------------------------------------------------------

/// Literal construction: exactly one literal of the matching kind.
/// No argument is `MissingArgument`, more than one is `TooManyArguments`,
/// and any other payload is `InvalidLiteral`.
pub open spec fn prim_from_data(proto: PrimView, args: Seq<VariableData>) -> Result<
    PrimView,
    ErrorView,
> {
    if args.len() == 0 {
        Err(ErrorView::MissingArgument)
    } else if args.len() > 1 {
        Err(ErrorView::TooManyArguments)
    } else {
        match (proto, args[0]) {
            (PrimView::Int(_), VariableData::Literal(Literal::Integer(n))) => Ok(PrimView::Int(n)),
            (PrimView::Bool(_), VariableData::Literal(Literal::Boolean(b))) => Ok(
                PrimView::Bool(b),
            ),
            (PrimView::Char(_), VariableData::Literal(Literal::Character(c))) => Ok(
                PrimView::Char(c),
            ),
            (PrimView::Str(_), VariableData::Literal(Literal::String(s))) => Ok(PrimView::Str(s@)),
            _ => Err(ErrorView::InvalidLiteral),
        }
    }
}

/// Same-type-value construction: exactly one argument, which must already
/// be a value of the same built-in type; anything else is rejected.
pub open spec fn prim_from_value(proto: PrimView, args: Seq<ValueView>) -> Result<
    PrimView,
    ErrorView,
> {
    if args.len() == 0 {
        Err(ErrorView::MissingArgument)
    } else if args.len() > 1 {
        Err(ErrorView::TooManyArguments)
    } else {
        match (proto, args[0]) {
            (PrimView::Int(_), ValueView::Prim(PrimView::Int(n))) => Ok(PrimView::Int(n)),
            (PrimView::Bool(_), ValueView::Prim(PrimView::Bool(b))) => Ok(PrimView::Bool(b)),
            (PrimView::Char(_), ValueView::Prim(PrimView::Char(c))) => Ok(PrimView::Char(c)),
            (PrimView::Str(_), ValueView::Prim(PrimView::Str(s))) => Ok(PrimView::Str(s)),
            _ => Err(ErrorView::InvalidArgument),
        }
    }
}

/// `clone_with_value` is the default value re-constructed from one
/// literal: the standard way a literal becomes a primitive.
pub open spec fn prim_clone_with_value(proto: PrimView, v: VariableData) -> Result<
    PrimView,
    ErrorView,
> {
    prim_from_data(proto, seq![v])
}

/// The default value of each built-in type: 0, false, NUL, "".
pub open spec fn prim_default(proto: PrimView) -> PrimView {
    match proto {
        PrimView::Int(_) => PrimView::Int(0),
        PrimView::Bool(_) => PrimView::Bool(false),
        PrimView::Char(_) => PrimView::Char('\0'),
        PrimView::Str(_) => PrimView::Str(Seq::empty()),
    }
}

// ---------------------------------------------------------------------------
// Executable construction, dispatched on the primitive's type
// ---------------------------------------------------------------------------

impl Primitive {
    /// The default value of this primitive's type.
    pub fn new_default(&self) -> (r: Primitive)
        ensures
            r@ == prim_default(self@),
    {
        match self {
            Primitive::Int(_) => Primitive::Int(Int::new_default()),
            Primitive::Bool(_) => Primitive::Bool(Bool::new_default()),
            Primitive::Char(_) => Primitive::Char(Char::new_default()),
            Primitive::Str(_) => Primitive::Str(StringType::new_default()),
        }
    }

    /// Construct a value of this primitive's type from one literal:
    /// the default value, then `construct_from_literal`.
    pub fn clone_with_value(&self, value: VariableData) -> (r: Result<Primitive, Error>)
        ensures
            match prim_clone_with_value(self@, value) {
                Ok(p) => r matches Ok(out) && out@ == p,
                Err(e) => r matches Err(err) && err@ == e,
            },
    {
        let mut args: Vec<VariableData> = Vec::new();
        args.push(value);
        proof {
            assert(args@ =~= seq![value]);
        }
        self.from_data(&args)
    }

    /// `construct_from_literal`: exactly one literal of the matching kind.
    pub fn from_data(&self, args: &Vec<VariableData>) -> (r: Result<Primitive, Error>)
        ensures
            match prim_from_data(self@, args@) {
                Ok(p) => r matches Ok(out) && out@ == p,
                Err(e) => r matches Err(err) && err@ == e,
            },
    {
        if args.len() == 0 {
            return Err(Error::MissingArgument);
        }
        if args.len() > 1 {
            return Err(Error::TooManyArguments);
        }
        match (self, &args[0]) {
            (Primitive::Int(_), VariableData::Literal(Literal::Integer(n))) => Ok(
                Primitive::Int(Int { number: *n }),
            ),
            (Primitive::Bool(_), VariableData::Literal(Literal::Boolean(b))) => Ok(
                Primitive::Bool(Bool { value: *b }),
            ),
            (Primitive::Char(_), VariableData::Literal(Literal::Character(c))) => Ok(
                Primitive::Char(Char { value: *c }),
            ),
            (Primitive::Str(_), VariableData::Literal(Literal::String(s))) => Ok(
                Primitive::Str(StringType { value: s.clone() }),
            ),
            _ => Err(Error::InvalidLiteral),
        }
    }

    /// `construct_from_value`: exactly one argument, already a value of
    /// the same built-in type.
    pub fn from_value(&self, args: &Vec<Value>) -> (r: Result<Primitive, Error>)
        ensures
            match prim_from_value(self@, crate::value::values_view(args@)) {
                Ok(p) => r matches Ok(out) && out@ == p,
                Err(e) => r matches Err(err) && err@ == e,
            },
    {
        proof {
            crate::value::lemma_values_view_index(args@);
        }
        if args.len() == 0 {
            return Err(Error::MissingArgument);
        }
        if args.len() > 1 {
            return Err(Error::TooManyArguments);
        }
        match (self, &args[0]) {
            (Primitive::Int(_), Value::StdStruct(Primitive::Int(n))) => Ok(
                Primitive::Int(Int { number: n.number }),
            ),
            (Primitive::Bool(_), Value::StdStruct(Primitive::Bool(b))) => Ok(
                Primitive::Bool(Bool { value: b.value }),
            ),
            (Primitive::Char(_), Value::StdStruct(Primitive::Char(c))) => Ok(
                Primitive::Char(Char { value: c.value }),
            ),
            (Primitive::Str(_), Value::StdStruct(Primitive::Str(s))) => Ok(
                Primitive::Str(StringType { value: s.value.clone() }),
            ),
            _ => Err(Error::InvalidArgument),
        }
    }

    /// Operator dispatch: hand the operator to this primitive's own
    /// protocol method.
    pub fn binop(&self, op: Operator, other: &Value) -> (r: Result<Value, Error>)
        ensures
            result_view(r) == prim_binop(op, self@, other@),
    {
        match self {
            Primitive::Int(a) => match op {
                Operator::Add => a.add(other),
                Operator::Subtract => a.sub(other),
                Operator::Multiply => a.mul(other),
                Operator::Divide => a.div(other),
                Operator::Modulo => a.modulo(other),
                Operator::Equal => a.eq(other),
                Operator::NotEqual => a.neq(other),
                Operator::Less => a.less(other),
                Operator::LessEqual => a.less_eq(other),
                Operator::Greater => a.greater(other),
                Operator::GreaterEqual => a.greater_eq(other),
                _ => Err(Error::UnsupportedOperation(op)),
            },
            Primitive::Bool(a) => match op {
                Operator::Add => a.add(other),
                Operator::Subtract => a.sub(other),
                Operator::Multiply => a.mul(other),
                Operator::Divide => a.div(other),
                Operator::Modulo => a.modulo(other),
                Operator::Equal => a.eq(other),
                Operator::NotEqual => a.neq(other),
                Operator::Less => a.less(other),
                Operator::LessEqual => a.less_eq(other),
                Operator::Greater => a.greater(other),
                Operator::GreaterEqual => a.greater_eq(other),
                _ => Err(Error::UnsupportedOperation(op)),
            },
            Primitive::Char(a) => match op {
                Operator::Add => a.add(other),
                Operator::Subtract => a.sub(other),
                Operator::Multiply => a.mul(other),
                Operator::Divide => a.div(other),
                Operator::Modulo => a.modulo(other),
                Operator::Equal => a.eq(other),
                Operator::NotEqual => a.neq(other),
                Operator::Less => a.less(other),
                Operator::LessEqual => a.less_eq(other),
                Operator::Greater => a.greater(other),
                Operator::GreaterEqual => a.greater_eq(other),
                _ => Err(Error::UnsupportedOperation(op)),
            },
            Primitive::Str(a) => match op {
                Operator::Add => a.add(other),
                Operator::Subtract => a.sub(other),
                Operator::Multiply => a.mul(other),
                Operator::Divide => a.div(other),
                Operator::Modulo => a.modulo(other),
                Operator::Equal => a.eq(other),
                Operator::NotEqual => a.neq(other),
                Operator::Less => a.less(other),
                Operator::LessEqual => a.less_eq(other),
                Operator::Greater => a.greater(other),
                Operator::GreaterEqual => a.greater_eq(other),
                _ => Err(Error::UnsupportedOperation(op)),
            },
        }
    }
}

// ---------------------------------------------------------------------------
// Built-in functions
// ---------------------------------------------------------------------------

/// The `toString` built-in function: any value's external representation
/// as a string primitive.
#[derive(Debug, Clone, PartialEq, Eq, Structural)]
pub struct ToString {}

impl ToString {
    pub fn new() -> (r: ToString) {
        ToString {  }
    }

    /// The name this built-in function is registered under.
    pub fn get_name(&self) -> (r: String)
        ensures
            r@ == "toString"@,
    {
        String::from_str("toString")
    }

    /// Run the built-in: exactly one argument, whose external
    /// representation becomes a string primitive; the string type must be
    /// registered.
    pub fn run(&self, program: &crate::program::Program, args: &Vec<Value>) -> (r: Result<
        Value,
        Error,
    >)
        ensures
            ({
                let out = crate::semantics::eval_builtin(
                    program@,
                    crate::semantics::BuiltinView::ToStr,
                    crate::value::values_view(args@),
                );
                match out {
                    crate::semantics::Outcome::Normal(v) => r matches Ok(rv) && value_view(rv)
                        == v,
                    crate::semantics::Outcome::Failed(e) => r matches Err(err) && err@ == e,
                    _ => false,
                }
            }),
    {
        proof {
            crate::value::lemma_values_view_index(args@);
        }
        if args.len() != 1 {
            return Err(Error::ArityMismatch(String::from_str("toString")));
        }
        let sname = String::from_str("string");
        proof {
            assert(crate::program::prims_view(program.std_structs@).skip(0)
                =~= crate::program::prims_view(program.std_structs@));
        }
        let proto = crate::program::find_type(&program.std_structs, &sname, 0);
        match proto {
            Some(_) => {
                let ext = args[0].get_value();
                let s = crate::jsonrep::json_text(&ext);
                Ok(Value::StdStruct(Primitive::Str(StringType { value: s })))
            },
            None => Err(Error::UndefinedName(sname)),
        }
    }
}

/// A registered built-in function.
#[derive(Debug, Clone, PartialEq, Eq, Structural)]
pub enum BuiltinFunction {
    ToString(ToString),
}

impl View for BuiltinFunction {
    type V = crate::semantics::BuiltinView;

    open spec fn view(&self) -> crate::semantics::BuiltinView {
        crate::semantics::BuiltinView::ToStr
    }
}

impl BuiltinFunction {
    /// The name this built-in function is registered under.
    pub fn get_name(&self) -> (r: String)
        ensures
            r@ == crate::semantics::builtin_name(self@),
    {
        match self {
            BuiltinFunction::ToString(t) => t.get_name(),
        }
    }

    /// An equal registry entry.
    pub fn duplicate(&self) -> (r: BuiltinFunction)
        ensures
            r@ == self@,
    {
        match self {
            BuiltinFunction::ToString(_) => BuiltinFunction::ToString(ToString {  }),
        }
    }
}

/// The default built-in functions: `toString`.
pub fn get_std_functions() -> (r: Vec<BuiltinFunction>)
    ensures
        r@.len() == 1,
        r@[0]@ == crate::semantics::BuiltinView::ToStr,
{
    let mut v: Vec<BuiltinFunction> = Vec::new();
    v.push(BuiltinFunction::ToString(ToString::new()));
    v
}

/// The default built-in library: the integer, string, character and
/// boolean types, as prototype instances keyed by their names.
pub fn get_std_lib() -> (r: Vec<Primitive>)
    ensures
        r@.len() == 4,
        r@[0]@ == PrimView::Int(0),
        r@[1]@ == PrimView::Str(Seq::<char>::empty()),
        r@[2]@ == PrimView::Char(' '),
        r@[3]@ == PrimView::Bool(false),
{
    let mut v: Vec<Primitive> = Vec::new();
    v.push(Primitive::Int(Int { number: 0 }));
    v.push(Primitive::Str(StringType { value: String::new() }));
    v.push(Primitive::Char(Char { value: ' ' }));
    v.push(Primitive::Bool(Bool { value: false }));
    v
}

} // verus!
