//! The runtime value model and its mathematical view.
//!
//! A [`Value`] is a primitive (an instance of a registered built-in type),
//! a record (an instance of a user-declared struct type), an ordered array,
//! or the unit value `Null`.  Values are immutable; records and arrays are
//! shared behind `Rc` so duplication never copies payloads.
//!
//! Every value has an *external representation* ([`ExternalValue`]): a
//! JSON-compatible canonical form used for equality and host interop.
//!
//! Contracts speak about values through the ghost mirrors [`ValueView`],
//! [`PrimView`] and [`ExtView`].

use std::rc::Rc;
use vstd::prelude::*;
use vstd::string::StringExecFns;

verus! {

/// The 64-bit signed integer built-in type, named `int`.
#[derive(Debug, Clone, Copy, PartialEq, Eq, Structural)]
pub struct Int {
    pub number: i64,
}

/// The boolean built-in type, named `bool`.
#[derive(Debug, Clone, Copy, PartialEq, Eq, Structural)]
pub struct Bool {
    pub value: bool,
}

/// The single-character built-in type, named `char`.
#[derive(Debug, Clone, Copy, PartialEq, Eq, Structural)]
pub struct Char {
    pub value: char,
}

/// The string built-in type, named `string`.
#[derive(Debug, PartialEq)]
pub struct StringType {
    pub value: String,
}

/// An instance of one of the registered built-in types.
#[derive(Debug, PartialEq)]
pub enum Primitive {
    Int(Int),
    Bool(Bool),
    Char(Char),
    Str(StringType),
}

/// A named field of a record value.
#[derive(Debug, PartialEq)]
pub struct Input {
    pub name: String,
    pub value: Value,
}

/// A record value: the name of its record type and its ordered,
/// fully-evaluated fields.
#[derive(Debug, PartialEq)]
pub struct Struct {
    pub name: String,
    pub fields: Vec<Input>,
}

/// A runtime value.
#[derive(Debug, PartialEq)]
pub enum Value {
    StdStruct(Primitive),
    Struct(Rc<Struct>),
    Array(Rc<Vec<Value>>),
    Null,
}

/// The JSON-compatible external representation of a value: null, boolean,
/// number, string, or ordered array.
#[derive(Debug, PartialEq)]
pub enum ExternalValue {
    Null,
    Boolean(bool),
    Integer(i64),
    Text(String),
    Array(Vec<ExternalValue>),
}

// ---------------------------------------------------------------------------
// Ghost mirrors
// ---------------------------------------------------------------------------

/// Ghost mirror of a primitive's payload.
pub enum PrimView {
    Int(i64),
    Bool(bool),
    Char(char),
    Str(Seq<char>),
}

/// Ghost mirror of a record field.
#[verifier::ext_equal]
pub struct FieldView {
    pub name: Seq<char>,
    pub value: ValueView,
}

/// Ghost mirror of a record value.
#[verifier::ext_equal]
pub struct RecordView {
    pub name: Seq<char>,
    pub fields: Seq<FieldView>,
}

/// Ghost mirror of a runtime value.
#[verifier::ext_equal]
pub enum ValueView {
    Prim(PrimView),
    Rec(RecordView),
    Arr(Seq<ValueView>),
    Null,
}

/// Ghost mirror of an external representation.
#[verifier::ext_equal]
pub enum ExtView {
    Null,
    Boolean(bool),
    Integer(i64),
    Text(Seq<char>),
    Array(Seq<ExtView>),
}

pub open spec fn prim_view(p: Primitive) -> PrimView {
    match p {
        Primitive::Int(i) => PrimView::Int(i.number),
        Primitive::Bool(b) => PrimView::Bool(b.value),
        Primitive::Char(c) => PrimView::Char(c.value),
        Primitive::Str(s) => PrimView::Str(s.value@),
    }
}

pub open spec fn value_view(v: Value) -> ValueView
    decreases v,
{
    match v {
        Value::StdStruct(p) => ValueView::Prim(prim_view(p)),
        Value::Struct(rc) => ValueView::Rec(
            RecordView { name: (*rc).name@, fields: fields_view((*rc).fields@) },
        ),
        Value::Array(rc) => ValueView::Arr(values_view((*rc)@)),
        Value::Null => ValueView::Null,
    }
}

pub open spec fn fields_view(fs: Seq<Input>) -> Seq<FieldView>
    decreases fs,
{
    if fs.len() == 0 {
        Seq::empty()
    } else {
        fields_view(fs.drop_last()).push(
            FieldView { name: fs.last().name@, value: value_view(fs.last().value) },
        )
    }
}

pub open spec fn values_view(vs: Seq<Value>) -> Seq<ValueView>
    decreases vs,
{
    if vs.len() == 0 {
        Seq::empty()
    } else {
        values_view(vs.drop_last()).push(value_view(vs.last()))
    }
}

pub open spec fn ext_view(e: ExternalValue) -> ExtView
    decreases e,
{
    match e {
        ExternalValue::Null => ExtView::Null,
        ExternalValue::Boolean(b) => ExtView::Boolean(b),
        ExternalValue::Integer(i) => ExtView::Integer(i),
        ExternalValue::Text(s) => ExtView::Text(s@),
        ExternalValue::Array(items) => ExtView::Array(ext_views(items@)),
    }
}

pub open spec fn ext_views(items: Seq<ExternalValue>) -> Seq<ExtView>
    decreases items,
{
    if items.len() == 0 {
        Seq::empty()
    } else {
        ext_views(items.drop_last()).push(ext_view(items.last()))
    }
}

impl View for Primitive {
    type V = PrimView;

    open spec fn view(&self) -> PrimView {
        prim_view(*self)
    }
}

impl View for Value {
    type V = ValueView;

    open spec fn view(&self) -> ValueView {
        value_view(*self)
    }
}

impl View for ExternalValue {
    type V = ExtView;

    open spec fn view(&self) -> ExtView {
        ext_view(*self)
    }
}

// ---------------------------------------------------------------------------
// Type names and external representations, at the spec level
// ---------------------------------------------------------------------------

/// The unique name of the built-in type a primitive belongs to.
pub open spec fn prim_name(p: PrimView) -> Seq<char> {
    match p {
        PrimView::Int(_) => "int"@,
        PrimView::Bool(_) => "bool"@,
        PrimView::Char(_) => "char"@,
        PrimView::Str(_) => "string"@,
    }
}

/// The name a value reports: its type name for primitives, its record type
/// name for records, and the fixed names of the array and unit kinds.
pub open spec fn value_name(v: ValueView) -> Seq<char> {
    match v {
        ValueView::Prim(p) => prim_name(p),
        ValueView::Rec(r) => r.name,
        ValueView::Arr(_) => "Array"@,
        ValueView::Null => "Null"@,
    }
}

/// External representation of a primitive: its JSON-compatible payload.
/// A character is represented as the one-character string.
pub open spec fn prim_ext(p: PrimView) -> ExtView {
    match p {
        PrimView::Int(i) => ExtView::Integer(i),
        PrimView::Bool(b) => ExtView::Boolean(b),
        PrimView::Char(c) => ExtView::Text(seq![c]),
        PrimView::Str(s) => ExtView::Text(s),
    }
}

/// External representation of a value.  Records serialize as the ordered
/// array of their fields' representations (names omitted); arrays
/// element-wise; the unit value as null.
pub open spec fn ext_of(v: ValueView) -> ExtView
    decreases v,
{
    match v {
        ValueView::Prim(p) => prim_ext(p),
        ValueView::Rec(r) => ExtView::Array(ext_of_fields(r.fields)),
        ValueView::Arr(items) => ExtView::Array(ext_of_values(items)),
        ValueView::Null => ExtView::Null,
    }
}

pub open spec fn ext_of_fields(fs: Seq<FieldView>) -> Seq<ExtView>
    decreases fs,
{
    if fs.len() == 0 {
        Seq::empty()
    } else {
        ext_of_fields(fs.drop_last()).push(ext_of(fs.last().value))
    }
}

pub open spec fn ext_of_values(vs: Seq<ValueView>) -> Seq<ExtView>
    decreases vs,
{
    if vs.len() == 0 {
        Seq::empty()
    } else {
        ext_of_values(vs.drop_last()).push(ext_of(vs.last()))
    }
}

/// Value equality: primitives are equal iff they have the same type name
/// and the same canonical external representation; records iff same name
/// and field-wise equal; arrays element-wise; the unit value only equals
/// itself.
pub open spec fn value_eq(a: ValueView, b: ValueView) -> bool
    decreases a,
{
    match (a, b) {
        (ValueView::Prim(p), ValueView::Prim(q)) =>
            prim_name(p) == prim_name(q) && prim_ext(p) == prim_ext(q),
        (ValueView::Rec(r), ValueView::Rec(s)) =>
            r.name == s.name && r.fields.len() == s.fields.len()
            && (forall|i: int| 0 <= i < r.fields.len() ==>
                r.fields[i].name == s.fields[i].name
                && value_eq(r.fields[i].value, #[trigger] s.fields[i].value)),
        (ValueView::Arr(x), ValueView::Arr(y)) =>
            x.len() == y.len()
            && (forall|i: int| 0 <= i < x.len() ==> value_eq(x[i], #[trigger] y[i])),
        (ValueView::Null, ValueView::Null) => true,
        _ => false,
    }
}

// ---------------------------------------------------------------------------
// Pointwise descriptions of the recursive view functions
// ---------------------------------------------------------------------------

pub proof fn lemma_fields_view_index(fs: Seq<Input>)
    ensures
        fields_view(fs).len() == fs.len(),
        forall|i: int|
            0 <= i < fs.len() ==> #[trigger] fields_view(fs)[i] == (FieldView {
                name: fs[i].name@,
                value: value_view(fs[i].value),
            }),
    decreases fs,
{
    if fs.len() > 0 {
        lemma_fields_view_index(fs.drop_last());
    }
}

pub proof fn lemma_values_view_index(vs: Seq<Value>)
    ensures
        values_view(vs).len() == vs.len(),
        forall|i: int|
            0 <= i < vs.len() ==> #[trigger] values_view(vs)[i] == value_view(vs[i]),
    decreases vs,
{
    if vs.len() > 0 {
        lemma_values_view_index(vs.drop_last());
    }
}

pub proof fn lemma_ext_views_index(items: Seq<ExternalValue>)
    ensures
        ext_views(items).len() == items.len(),
        forall|i: int|
            0 <= i < items.len() ==> #[trigger] ext_views(items)[i] == ext_view(items[i]),
    decreases items,
{
    if items.len() > 0 {
        lemma_ext_views_index(items.drop_last());
    }
}

pub proof fn lemma_ext_of_fields_index(fs: Seq<FieldView>)
    ensures
        ext_of_fields(fs).len() == fs.len(),
        forall|i: int|
            0 <= i < fs.len() ==> #[trigger] ext_of_fields(fs)[i] == ext_of(fs[i].value),
    decreases fs,
{
    if fs.len() > 0 {
        lemma_ext_of_fields_index(fs.drop_last());
    }
}

pub proof fn lemma_ext_of_values_index(vs: Seq<ValueView>)
    ensures
        ext_of_values(vs).len() == vs.len(),
        forall|i: int|
            0 <= i < vs.len() ==> #[trigger] ext_of_values(vs)[i] == ext_of(vs[i]),
    decreases vs,
{
    if vs.len() > 0 {
        lemma_ext_of_values_index(vs.drop_last());
    }
}

/// The four built-in type names are pairwise distinct.
pub proof fn lemma_prim_names_distinct()
    ensures
        "int"@ != "bool"@,
        "int"@ != "char"@,
        "int"@ != "string"@,
        "bool"@ != "char"@,
        "bool"@ != "string"@,
        "char"@ != "string"@,
{
    reveal_strlit("int");
    reveal_strlit("bool");
    reveal_strlit("char");
    reveal_strlit("string");
    assert("int"@.len() == 3);
    assert("bool"@.len() == 4);
    assert("char"@.len() == 4);
    assert("string"@.len() == 6);
    assert("bool"@[0] != "char"@[0]);
}

// ---------------------------------------------------------------------------
// Shared handles
// ---------------------------------------------------------------------------

/// Relies on std's `Rc::clone`: returns a second handle to the same value.
#[verifier::external_body]
pub(crate) fn rc_clone<T>(rc: &Rc<T>) -> (r: Rc<T>)
    ensures
        r == *rc,
{
    Rc::clone(rc)
}

// ---------------------------------------------------------------------------
// Executable operations on values
// ---------------------------------------------------------------------------

impl Int {
    /// The name of the integer built-in type.
    pub fn get_name(&self) -> (r: String)
        ensures
            r@ == "int"@,
    {
        String::from_str("int")
    }
}

impl Bool {
    /// The name of the boolean built-in type.
    pub fn get_name(&self) -> (r: String)
        ensures
            r@ == "bool"@,
    {
        String::from_str("bool")
    }
}

impl Char {
    /// The name of the character built-in type.
    pub fn get_name(&self) -> (r: String)
        ensures
            r@ == "char"@,
    {
        String::from_str("char")
    }
}

impl StringType {
    /// The name of the string built-in type.
    pub fn get_name(&self) -> (r: String)
        ensures
            r@ == "string"@,
    {
        String::from_str("string")
    }
}

impl Primitive {
    /// The name of the built-in type this primitive belongs to.
    pub fn get_name(&self) -> (r: String)
        ensures
            r@ == prim_name(self@),
    {
        match self {
            Primitive::Int(i) => i.get_name(),
            Primitive::Bool(b) => b.get_name(),
            Primitive::Char(c) => c.get_name(),
            Primitive::Str(s) => s.get_name(),
        }
    }

    /// An equal primitive, freshly built.
    pub fn duplicate(&self) -> (r: Primitive)
        ensures
            r == *self,
    {
        match self {
            Primitive::Int(i) => Primitive::Int(Int { number: i.number }),
            Primitive::Bool(b) => Primitive::Bool(Bool { value: b.value }),
            Primitive::Char(c) => Primitive::Char(Char { value: c.value }),
            Primitive::Str(s) => Primitive::Str(StringType { value: s.value.clone() }),
        }
    }
}

impl Value {
    /// The name a value reports for dispatch and diagnostics.
    pub fn get_name(&self) -> (r: String)
        ensures
            r@ == value_name(self@),
    {
        match self {
            Value::StdStruct(p) => p.get_name(),
            Value::Struct(rc) => rc.name.clone(),
            Value::Array(_) => String::from_str("Array"),
            Value::Null => String::from_str("Null"),
        }
    }

    /// An equal value.  Records and arrays share their payload with the
    /// original; primitives are copied.
    pub fn duplicate(&self) -> (r: Value)
        ensures
            r == *self,
    {
        match self {
            Value::StdStruct(p) => Value::StdStruct(p.duplicate()),
            Value::Struct(rc) => Value::Struct(rc_clone(rc)),
            Value::Array(rc) => Value::Array(rc_clone(rc)),
            Value::Null => Value::Null,
        }
    }

    /// The canonical external representation of this value.
    pub fn get_value(&self) -> (r: ExternalValue)
        ensures
            r@ == ext_of(self@),
        decreases value_view(*self),
    {
        match self {
            Value::StdStruct(p) => match p {
                Primitive::Int(i) => ExternalValue::Integer(i.number),
                Primitive::Bool(b) => ExternalValue::Boolean(b.value),
                Primitive::Char(c) => ExternalValue::Text(char_to_string(c.value)),
                Primitive::Str(s) => ExternalValue::Text(s.value.clone()),
            },
            Value::Struct(rc) => {
                let fields = &rc.fields;
                let n = fields.len();
                let mut out: Vec<ExternalValue> = Vec::new();
                let mut i: usize = 0;
                while i < n
                    invariant
                        n == fields@.len(),
                        i <= n,
                        out@.len() == i,
                        *self == Value::Struct(*rc),
                        forall|j: int|
                            0 <= j < i ==> #[trigger] ext_view(out@[j]) == ext_of(
                                value_view(fields@[j].value),
                            ),
                    decreases n - i,
                {
                    proof {
                        lemma_fields_view_index(fields@);
                        let x = value_view(*self);
                        let fv = fields_view(fields@);
                        assert(decreases_to!(x => x->Rec_0));
                        assert(decreases_to!(x->Rec_0 => x->Rec_0.fields));
                        assert(x->Rec_0.fields == fv);
                        assert(decreases_to!(fv => fv[i as int]));
                        assert(decreases_to!(fv[i as int] => fv[i as int].value));
                        assert(decreases_to!(x => value_view(fields@[i as int].value)));
                    }
                    let e = fields[i].value.get_value();
                    out.push(e);
                    i = i + 1;
                }
                proof {
                    lemma_fields_view_index(rc.fields@);
                    lemma_ext_of_fields_index(fields_view(rc.fields@));
                    lemma_ext_views_index(out@);
                    assert(ext_views(out@) =~= ext_of_fields(fields_view(rc.fields@)));
                }
                ExternalValue::Array(out)
            },
            Value::Array(rc) => {
                let items: &Vec<Value> = &*rc;
                let n = items.len();
                let mut out: Vec<ExternalValue> = Vec::new();
                let mut i: usize = 0;
                while i < n
                    invariant
                        n == items@.len(),
                        i <= n,
                        out@.len() == i,
                        *self == Value::Array(*rc),
                        forall|j: int|
                            0 <= j < i ==> #[trigger] ext_view(out@[j]) == ext_of(
                                value_view(items@[j]),
                            ),
                    decreases n - i,
                {
                    proof {
                        lemma_values_view_index(items@);
                        let x = value_view(*self);
                        let vv = values_view(items@);
                        assert(decreases_to!(x => x->Arr_0));
                        assert(x->Arr_0 == vv);
                        assert(decreases_to!(vv => vv[i as int]));
                        assert(decreases_to!(x => value_view(items@[i as int])));
                    }
                    let e = items[i].get_value();
                    out.push(e);
                    i = i + 1;
                }
                proof {
                    lemma_values_view_index((*rc)@);
                    lemma_ext_of_values_index(values_view((*rc)@));
                    lemma_ext_views_index(out@);
                    assert(ext_views(out@) =~= ext_of_values(values_view((*rc)@)));
                }
                ExternalValue::Array(out)
            },
            Value::Null => ExternalValue::Null,
        }
    }
}

impl Value {
    /// Value equality as the language defines it: primitives by type name
    /// and external representation, records by name and fields, arrays
    /// element-wise, the unit value only to itself.
    pub fn equals(&self, other: &Value) -> (r: bool)
        ensures
            r == value_eq(self@, other@),
        decreases value_view(*self),
    {
        match (self, other) {
            (Value::StdStruct(p), Value::StdStruct(q)) => {
                proof {
                    lemma_prim_names_distinct();
                }
                match (p, q) {
                    (Primitive::Int(a), Primitive::Int(b)) => a.number == b.number,
                    (Primitive::Bool(a), Primitive::Bool(b)) => a.value == b.value,
                    (Primitive::Char(a), Primitive::Char(b)) => {
                        proof {
                            if a.value != b.value {
                                assert(seq![a.value][0] != seq![b.value][0]);
                            }
                        }
                        a.value == b.value
                    },
                    (Primitive::Str(a), Primitive::Str(b)) => a.value == b.value,
                    _ => false,
                }
            },
            (Value::Struct(a), Value::Struct(b)) => {
                proof {
                    lemma_fields_view_index(a.fields@);
                    lemma_fields_view_index(b.fields@);
                }
                if !(a.name == b.name) {
                    return false;
                }
                let n = a.fields.len();
                if n != b.fields.len() {
                    return false;
                }
                let mut i: usize = 0;
                while i < n
                    invariant
                        i <= n,
                        n == a.fields@.len(),
                        forall|j: int|
                            0 <= j < i ==> a.fields@[j].name@ == b.fields@[j].name@
                                && value_eq(
                                value_view(a.fields@[j].value),
                                #[trigger] value_view(b.fields@[j].value),
                            ),
                    decreases n - i,
                {
                    if !(a.fields[i].name == b.fields[i].name) {
                        proof {
                            let fa = fields_view(a.fields@);
                            let fb = fields_view(b.fields@);
                            assert(fb[i as int].value == value_view(b.fields@[i as int].value));
                            assert(fa[i as int].name != fb[i as int].name);
                        }
                        return false;
                    }
                    proof {
                        let x = value_view(*self);
                        let fv = fields_view(a.fields@);
                        assert(decreases_to!(x => x->Rec_0));
                        assert(decreases_to!(x->Rec_0 => x->Rec_0.fields));
                        assert(x->Rec_0.fields == fv);
                        assert(decreases_to!(fv => fv[i as int]));
                        assert(decreases_to!(fv[i as int] => fv[i as int].value));
                        assert(decreases_to!(x => value_view(a.fields@[i as int].value)));
                    }
                    if !a.fields[i].value.equals(&b.fields[i].value) {
                        proof {
                            let fa = fields_view(a.fields@);
                            let fb = fields_view(b.fields@);
                            assert(fb[i as int].value == value_view(b.fields@[i as int].value));
                            assert(!value_eq(fa[i as int].value, fb[i as int].value));
                        }
                        return false;
                    }
                    i = i + 1;
                }
                true
            },
            (Value::Array(a), Value::Array(b)) => {
                proof {
                    lemma_values_view_index((**a)@);
                    lemma_values_view_index((**b)@);
                }
                let xs: &Vec<Value> = &*a;
                let ys: &Vec<Value> = &*b;
                let n = xs.len();
                if n != ys.len() {
                    return false;
                }
                let mut i: usize = 0;
                while i < n
                    invariant
                        i <= n,
                        n == xs@.len(),
                        forall|j: int|
                            0 <= j < i ==> value_eq(
                                value_view(xs@[j]),
                                #[trigger] value_view(ys@[j]),
                            ),
                    decreases n - i,
                {
                    proof {
                        let x = value_view(*self);
                        let vv = values_view(xs@);
                        assert(decreases_to!(x => x->Arr_0));
                        assert(x->Arr_0 == vv);
                        assert(decreases_to!(vv => vv[i as int]));
                        assert(decreases_to!(x => value_view(xs@[i as int])));
                    }
                    if !xs[i].equals(&ys[i]) {
                        proof {
                            let va = values_view(xs@);
                            let vb = values_view(ys@);
                            assert(vb[i as int] == value_view(ys@[i as int]));
                            assert(!value_eq(va[i as int], vb[i as int]));
                        }
                        return false;
                    }
                    i = i + 1;
                }
                true
            },
            (Value::Null, Value::Null) => true,
            _ => false,
        }
    }
}

/// Relies on std's `char::to_string`: the one-character string holding `c`.
#[verifier::external_body]
pub(crate) fn char_to_string(c: char) -> (r: String)
    ensures
        r@ == seq![c],
{
    c.to_string()
}

} // verus!
