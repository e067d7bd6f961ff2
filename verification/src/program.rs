//! The live program: four name-keyed registries plus the variable
//! bindings, and the tree-walking evaluator over them.
//!
//! The registries are association lists with unique keys (registration
//! checks for duplicates; prototype registration overwrites by name).
//! Every evaluator method is proved to return exactly what the
//! specification-level interpreter in [`crate::semantics`] says.

use crate::builtins::BuiltinFunction;
use crate::error::Error;
use crate::ir::{Action, Item};
use crate::semantics::{
    builtin_name, lookup_builtin, lookup_fun, lookup_struct, lookup_type, lookup_var, set_builtin,
    set_type, set_var, BuiltinView, FunView, Outcome, StateView, StructView,
};
use crate::value::{
    prim_name, prim_view, rc_clone, value_view, Input, PrimView, Primitive, Value, ValueView,
};
use std::rc::Rc;
use vstd::prelude::*;

verus! {

/// A variable binding.
#[derive(Debug, PartialEq)]
pub struct Variable {
    pub name: String,
    pub value: Value,
}

/// A declared function as the registry stores it: name, ordered
/// parameter names, shared body.
#[derive(Debug, PartialEq)]
pub struct Function {
    pub name: String,
    pub params: Vec<String>,
    pub body: Rc<Vec<Action>>,
}

/// The program state: registered built-in types, registered built-in
/// functions, declared functions, declared record types, and the
/// variable bindings.
#[derive(Debug)]
pub struct Program {
    pub std_structs: Vec<Primitive>,
    pub std_functions: Vec<BuiltinFunction>,
    pub functions: Vec<Function>,
    pub structs: Vec<crate::ir::Struct>,
    pub variables: Vec<Variable>,
}

// ---------------------------------------------------------------------------
// Views
// ---------------------------------------------------------------------------

pub open spec fn strings_view(ss: Seq<String>) -> Seq<Seq<char>>
    decreases ss.len(),
{
    if ss.len() == 0 {
        Seq::empty()
    } else {
        seq![ss[0]@] + strings_view(ss.skip(1))
    }
}

pub open spec fn prims_view(ps: Seq<Primitive>) -> Seq<PrimView>
    decreases ps.len(),
{
    if ps.len() == 0 {
        Seq::empty()
    } else {
        seq![prim_view(ps[0])] + prims_view(ps.skip(1))
    }
}

pub open spec fn builtins_view(bs: Seq<BuiltinFunction>) -> Seq<BuiltinView>
    decreases bs.len(),
{
    if bs.len() == 0 {
        Seq::empty()
    } else {
        seq![bs[0]@] + builtins_view(bs.skip(1))
    }
}

pub open spec fn fun_entry_view(f: Function) -> FunView {
    FunView { name: f.name@, params: strings_view(f.params@), body: f.body@ }
}

pub open spec fn functions_view(fs: Seq<Function>) -> Seq<FunView>
    decreases fs.len(),
{
    if fs.len() == 0 {
        Seq::empty()
    } else {
        seq![fun_entry_view(fs[0])] + functions_view(fs.skip(1))
    }
}

pub open spec fn struct_entry_view(s: crate::ir::Struct) -> StructView {
    StructView { name: s.name@, fields: crate::semantics::item_names(s.fields@) }
}

pub open spec fn structs_view(ss: Seq<crate::ir::Struct>) -> Seq<StructView>
    decreases ss.len(),
{
    if ss.len() == 0 {
        Seq::empty()
    } else {
        seq![struct_entry_view(ss[0])] + structs_view(ss.skip(1))
    }
}

pub open spec fn vars_view(vs: Seq<Variable>) -> Seq<(Seq<char>, ValueView)>
    decreases vs.len(),
{
    if vs.len() == 0 {
        Seq::empty()
    } else {
        seq![(vs[0].name@, value_view(vs[0].value))] + vars_view(vs.skip(1))
    }
}

impl View for Program {
    type V = StateView;

    open spec fn view(&self) -> StateView {
        StateView {
            types: prims_view(self.std_structs@),
            builtins: builtins_view(self.std_functions@),
            functions: functions_view(self.functions@),
            structs: structs_view(self.structs@),
            vars: vars_view(self.variables@),
        }
    }
}

// ---------------------------------------------------------------------------
// Pointwise descriptions of the view lists
// ---------------------------------------------------------------------------

pub proof fn lemma_strings_view_index(ss: Seq<String>)
    ensures
        strings_view(ss).len() == ss.len(),
        forall|i: int| 0 <= i < ss.len() ==> #[trigger] strings_view(ss)[i] == ss[i]@,
    decreases ss.len(),
{
    if ss.len() > 0 {
        lemma_strings_view_index(ss.skip(1));
        assert(forall|i: int|
            1 <= i < ss.len() ==> strings_view(ss)[i] == strings_view(ss.skip(1))[i - 1]);
        assert(forall|i: int| 1 <= i < ss.len() ==> ss.skip(1)[i - 1] == ss[i]);
    }
}

pub proof fn lemma_prims_view_index(ps: Seq<Primitive>)
    ensures
        prims_view(ps).len() == ps.len(),
        forall|i: int| 0 <= i < ps.len() ==> #[trigger] prims_view(ps)[i] == prim_view(ps[i]),
    decreases ps.len(),
{
    if ps.len() > 0 {
        lemma_prims_view_index(ps.skip(1));
        assert(forall|i: int|
            1 <= i < ps.len() ==> prims_view(ps)[i] == prims_view(ps.skip(1))[i - 1]);
        assert(forall|i: int| 1 <= i < ps.len() ==> ps.skip(1)[i - 1] == ps[i]);
    }
}

pub proof fn lemma_builtins_view_index(bs: Seq<BuiltinFunction>)
    ensures
        builtins_view(bs).len() == bs.len(),
        forall|i: int| 0 <= i < bs.len() ==> #[trigger] builtins_view(bs)[i] == bs[i]@,
    decreases bs.len(),
{
    if bs.len() > 0 {
        lemma_builtins_view_index(bs.skip(1));
        assert(forall|i: int|
            1 <= i < bs.len() ==> builtins_view(bs)[i] == builtins_view(bs.skip(1))[i - 1]);
        assert(forall|i: int| 1 <= i < bs.len() ==> bs.skip(1)[i - 1] == bs[i]);
    }
}

pub proof fn lemma_functions_view_index(fs: Seq<Function>)
    ensures
        functions_view(fs).len() == fs.len(),
        forall|i: int|
            0 <= i < fs.len() ==> #[trigger] functions_view(fs)[i] == fun_entry_view(fs[i]),
    decreases fs.len(),
{
    if fs.len() > 0 {
        lemma_functions_view_index(fs.skip(1));
        assert(forall|i: int|
            1 <= i < fs.len() ==> functions_view(fs)[i] == functions_view(fs.skip(1))[i - 1]);
        assert(forall|i: int| 1 <= i < fs.len() ==> fs.skip(1)[i - 1] == fs[i]);
    }
}

pub proof fn lemma_structs_view_index(ss: Seq<crate::ir::Struct>)
    ensures
        structs_view(ss).len() == ss.len(),
        forall|i: int|
            0 <= i < ss.len() ==> #[trigger] structs_view(ss)[i] == struct_entry_view(ss[i]),
    decreases ss.len(),
{
    if ss.len() > 0 {
        lemma_structs_view_index(ss.skip(1));
        assert(forall|i: int|
            1 <= i < ss.len() ==> structs_view(ss)[i] == structs_view(ss.skip(1))[i - 1]);
        assert(forall|i: int| 1 <= i < ss.len() ==> ss.skip(1)[i - 1] == ss[i]);
    }
}

// ---------------------------------------------------------------------------
// How overwrite-by-key relates to update and push
// ---------------------------------------------------------------------------

pub proof fn lemma_set_var_update(
    vs: Seq<(Seq<char>, ValueView)>,
    name: Seq<char>,
    v: ValueView,
    i: int,
)
    requires
        0 <= i < vs.len(),
        vs[i].0 == name,
        forall|j: int| 0 <= j < i ==> (#[trigger] vs[j]).0 != name,
    ensures
        set_var(vs, name, v) == vs.update(i, (name, v)),
    decreases i,
{
    if i == 0 {
        assert(set_var(vs, name, v) =~= vs.update(0, (name, v)));
    } else {
        assert(vs[0].0 != name);
        lemma_set_var_update(vs.skip(1), name, v, i - 1);
        assert(seq![vs[0]] + set_var(vs.skip(1), name, v) =~= vs.update(i, (name, v)));
    }
}

pub proof fn lemma_set_var_append(vs: Seq<(Seq<char>, ValueView)>, name: Seq<char>, v: ValueView)
    requires
        forall|j: int| 0 <= j < vs.len() ==> (#[trigger] vs[j]).0 != name,
    ensures
        set_var(vs, name, v) == vs.push((name, v)),
    decreases vs.len(),
{
    if vs.len() == 0 {
        assert(set_var(vs, name, v) =~= vs.push((name, v)));
    } else {
        lemma_set_var_append(vs.skip(1), name, v);
        assert(seq![vs[0]] + set_var(vs.skip(1), name, v) =~= vs.push((name, v)));
    }
}

pub proof fn lemma_set_type_update(ts: Seq<PrimView>, p: PrimView, i: int)
    requires
        0 <= i < ts.len(),
        prim_name(ts[i]) == prim_name(p),
        forall|j: int| 0 <= j < i ==> prim_name(#[trigger] ts[j]) != prim_name(p),
    ensures
        set_type(ts, p) == ts.update(i, p),
    decreases i,
{
    if i == 0 {
        assert(set_type(ts, p) =~= ts.update(0, p));
    } else {
        assert(prim_name(ts[0]) != prim_name(p));
        lemma_set_type_update(ts.skip(1), p, i - 1);
        assert(seq![ts[0]] + set_type(ts.skip(1), p) =~= ts.update(i, p));
    }
}

pub proof fn lemma_set_type_append(ts: Seq<PrimView>, p: PrimView)
    requires
        forall|j: int| 0 <= j < ts.len() ==> prim_name(#[trigger] ts[j]) != prim_name(p),
    ensures
        set_type(ts, p) == ts.push(p),
    decreases ts.len(),
{
    if ts.len() == 0 {
        assert(set_type(ts, p) =~= ts.push(p));
    } else {
        lemma_set_type_append(ts.skip(1), p);
        assert(seq![ts[0]] + set_type(ts.skip(1), p) =~= ts.push(p));
    }
}

pub proof fn lemma_set_builtin_update(bs: Seq<BuiltinView>, b: BuiltinView, i: int)
    requires
        0 <= i < bs.len(),
        builtin_name(bs[i]) == builtin_name(b),
        forall|j: int| 0 <= j < i ==> builtin_name(#[trigger] bs[j]) != builtin_name(b),
    ensures
        set_builtin(bs, b) == bs.update(i, b),
    decreases i,
{
    if i == 0 {
        assert(set_builtin(bs, b) =~= bs.update(0, b));
    } else {
        assert(builtin_name(bs[0]) != builtin_name(b));
        lemma_set_builtin_update(bs.skip(1), b, i - 1);
        assert(seq![bs[0]] + set_builtin(bs.skip(1), b) =~= bs.update(i, b));
    }
}

pub proof fn lemma_set_builtin_append(bs: Seq<BuiltinView>, b: BuiltinView)
    requires
        forall|j: int| 0 <= j < bs.len() ==> builtin_name(#[trigger] bs[j]) != builtin_name(b),
    ensures
        set_builtin(bs, b) == bs.push(b),
    decreases bs.len(),
{
    if bs.len() == 0 {
        assert(set_builtin(bs, b) =~= bs.push(b));
    } else {
        lemma_set_builtin_append(bs.skip(1), b);
        assert(seq![bs[0]] + set_builtin(bs.skip(1), b) =~= bs.push(b));
    }
}

pub proof fn lemma_vars_view_index(vs: Seq<Variable>)
    ensures
        vars_view(vs).len() == vs.len(),
        forall|i: int|
            0 <= i < vs.len() ==> #[trigger] vars_view(vs)[i] == (
            vs[i].name@,
            value_view(vs[i].value),
        ),
    decreases vs.len(),
{
    if vs.len() > 0 {
        lemma_vars_view_index(vs.skip(1));
        assert(forall|i: int|
            1 <= i < vs.len() ==> vars_view(vs)[i] == vars_view(vs.skip(1))[i - 1]);
        assert(forall|i: int| 1 <= i < vs.len() ==> vs.skip(1)[i - 1] == vs[i]);
    }
}

// ---------------------------------------------------------------------------
// Cloning registry entries
// ---------------------------------------------------------------------------

fn clone_strings(ss: &Vec<String>) -> (r: Vec<String>)
    ensures
        r@ == ss@,
{
    let mut out: Vec<String> = Vec::new();
    let n = ss.len();
    let mut i: usize = 0;
    while i < n
        invariant
            i <= n,
            n == ss@.len(),
            out@.len() == i,
            forall|j: int| 0 <= j < i ==> out@[j] == ss@[j],
        decreases n - i,
    {
        out.push(ss[i].clone());
        i = i + 1;
    }
    proof {
        assert(out@ =~= ss@);
    }
    out
}

fn clone_items(items: &Vec<Item>) -> (r: Vec<Item>)
    ensures
        r@ == items@,
{
    let mut out: Vec<Item> = Vec::new();
    let n = items.len();
    let mut i: usize = 0;
    while i < n
        invariant
            i <= n,
            n == items@.len(),
            out@.len() == i,
            forall|j: int| 0 <= j < i ==> out@[j] == items@[j],
        decreases n - i,
    {
        let it = &items[i];
        out.push(
            Item {
                name: it.name.clone(),
                typing: crate::ir::Typing {
                    name: it.typing.name.clone(),
                    array_dimensions: it.typing.array_dimensions,
                },
            },
        );
        i = i + 1;
    }
    proof {
        assert(out@ =~= items@);
    }
    out
}

// ---------------------------------------------------------------------------
// Name resolution over the registries
// ---------------------------------------------------------------------------

pub(crate) fn find_type(ts: &Vec<Primitive>, name: &String, i: usize) -> (r: Option<Primitive>)
    requires
        i <= ts@.len(),
    ensures
        match lookup_type(prims_view(ts@).skip(i as int), name@) {
            Some(p) => r matches Some(q) && q@ == p,
            None => r is None,
        },
    decreases ts@.len() - i,
{
    proof {
        lemma_prims_view_index(ts@);
    }
    if i == ts.len() {
        proof {
            assert(prims_view(ts@).skip(i as int) =~= Seq::<PrimView>::empty());
        }
        None
    } else {
        proof {
            assert(prims_view(ts@).skip(i as int)[0] == prims_view(ts@)[i as int]);
        }
        let n = ts[i].get_name();
        if n == *name {
            Some(ts[i].duplicate())
        } else {
            proof {
                assert(prims_view(ts@).skip(i as int).skip(1) =~= prims_view(ts@).skip(
                    i as int + 1,
                ));
            }
            find_type(ts, name, i + 1)
        }
    }
}

fn find_builtin(bs: &Vec<BuiltinFunction>, name: &String, i: usize) -> (r: Option<
    BuiltinFunction,
>)
    requires
        i <= bs@.len(),
    ensures
        match lookup_builtin(builtins_view(bs@).skip(i as int), name@) {
            Some(b) => r matches Some(q) && q@ == b,
            None => r is None,
        },
    decreases bs@.len() - i,
{
    proof {
        lemma_builtins_view_index(bs@);
    }
    if i == bs.len() {
        proof {
            assert(builtins_view(bs@).skip(i as int) =~= Seq::<BuiltinView>::empty());
        }
        None
    } else {
        proof {
            assert(builtins_view(bs@).skip(i as int)[0] == builtins_view(bs@)[i as int]);
        }
        let n = bs[i].get_name();
        if n == *name {
            Some(bs[i].duplicate())
        } else {
            proof {
                assert(builtins_view(bs@).skip(i as int).skip(1) =~= builtins_view(bs@).skip(
                    i as int + 1,
                ));
            }
            find_builtin(bs, name, i + 1)
        }
    }
}

fn find_function(fs: &Vec<Function>, name: &String, i: usize) -> (r: Option<Function>)
    requires
        i <= fs@.len(),
    ensures
        match lookup_fun(functions_view(fs@).skip(i as int), name@) {
            Some(fv) => r matches Some(g) && fun_entry_view(g) == fv,
            None => r is None,
        },
    decreases fs@.len() - i,
{
    proof {
        lemma_functions_view_index(fs@);
    }
    if i == fs.len() {
        proof {
            assert(functions_view(fs@).skip(i as int) =~= Seq::<FunView>::empty());
        }
        None
    } else {
        proof {
            assert(functions_view(fs@).skip(i as int)[0] == functions_view(fs@)[i as int]);
        }
        if fs[i].name == *name {
            let f = &fs[i];
            Some(
                Function {
                    name: f.name.clone(),
                    params: clone_strings(&f.params),
                    body: rc_clone(&f.body),
                },
            )
        } else {
            proof {
                assert(functions_view(fs@).skip(i as int).skip(1) =~= functions_view(fs@).skip(
                    i as int + 1,
                ));
            }
            find_function(fs, name, i + 1)
        }
    }
}

fn find_struct(ss: &Vec<crate::ir::Struct>, name: &String, i: usize) -> (r: Option<
    crate::ir::Struct,
>)
    requires
        i <= ss@.len(),
    ensures
        match lookup_struct(structs_view(ss@).skip(i as int), name@) {
            Some(sv) => r matches Some(sd) && struct_entry_view(sd) == sv,
            None => r is None,
        },
    decreases ss@.len() - i,
{
    proof {
        lemma_structs_view_index(ss@);
    }
    if i == ss.len() {
        proof {
            assert(structs_view(ss@).skip(i as int) =~= Seq::<StructView>::empty());
        }
        None
    } else {
        proof {
            assert(structs_view(ss@).skip(i as int)[0] == structs_view(ss@)[i as int]);
        }
        if ss[i].name == *name {
            let s = &ss[i];
            Some(crate::ir::Struct { name: s.name.clone(), fields: clone_items(&s.fields) })
        } else {
            proof {
                assert(structs_view(ss@).skip(i as int).skip(1) =~= structs_view(ss@).skip(
                    i as int + 1,
                ));
            }
            find_struct(ss, name, i + 1)
        }
    }
}

fn find_variable(vs: &Vec<Variable>, name: &String, i: usize) -> (r: Option<Value>)
    requires
        i <= vs@.len(),
    ensures
        match lookup_var(vars_view(vs@).skip(i as int), name@) {
            Some(v) => r matches Some(out) && value_view(out) == v,
            None => r is None,
        },
    decreases vs@.len() - i,
{
    proof {
        lemma_vars_view_index(vs@);
    }
    if i == vs.len() {
        proof {
            assert(vars_view(vs@).skip(i as int) =~= Seq::<(Seq<char>, ValueView)>::empty());
        }
        None
    } else {
        proof {
            assert(vars_view(vs@).skip(i as int)[0] == vars_view(vs@)[i as int]);
        }
        if vs[i].name == *name {
            Some(vs[i].value.duplicate())
        } else {
            proof {
                assert(vars_view(vs@).skip(i as int).skip(1) =~= vars_view(vs@).skip(
                    i as int + 1,
                ));
            }
            find_variable(vs, name, i + 1)
        }
    }
}

// ---------------------------------------------------------------------------
// Binding and registration
// ---------------------------------------------------------------------------

fn set_variable_binding(vs: &mut Vec<Variable>, name: String, v: Value)
    ensures
        vars_view(final(vs)@) == set_var(vars_view(old(vs)@), name@, value_view(v)),
{
    let n = vs.len();
    let mut i: usize = 0;
    while i < n
        invariant
            i <= n,
            n == vs@.len(),
            vs@ == old(vs)@,
            forall|j: int| 0 <= j < i ==> (#[trigger] vs@[j]).name@ != name@,
        decreases n - i,
    {
        if vs[i].name == name {
            vs.set(i, Variable { name, value: v });
            proof {
                lemma_vars_view_index(old(vs)@);
                lemma_set_var_update(vars_view(old(vs)@), name@, value_view(v), i as int);
                lemma_vars_view_index(vs@);
                assert(vars_view(vs@) =~= vars_view(old(vs)@).update(
                    i as int,
                    (name@, value_view(v)),
                ));
            }
            return;
        }
        i = i + 1;
    }
    proof {
        lemma_vars_view_index(vs@);
        lemma_set_var_append(vars_view(old(vs)@), name@, value_view(v));
    }
    vs.push(Variable { name, value: v });
    proof {
        lemma_vars_view_index(old(vs)@);
        lemma_vars_view_index(vs@);
        assert(vars_view(vs@) =~= vars_view(old(vs)@).push((name@, value_view(v))));
    }
}

/// The parameter names of a declaration, extracted in order.
fn param_names(items: &Vec<Item>) -> (r: Vec<String>)
    ensures
        strings_view(r@) == crate::semantics::item_names(items@),
{
    let mut out: Vec<String> = Vec::new();
    let n = items.len();
    let mut i: usize = 0;
    proof {
        lemma_item_names_index(items@);
    }
    while i < n
        invariant
            i <= n,
            n == items@.len(),
            out@.len() == i,
            forall|j: int| 0 <= j < i ==> out@[j]@ == items@[j].name@,
        decreases n - i,
    {
        out.push(items[i].name.clone());
        i = i + 1;
    }
    proof {
        lemma_strings_view_index(out@);
        assert(strings_view(out@) =~= crate::semantics::item_names(items@));
    }
    out
}

pub proof fn lemma_item_names_index(items: Seq<Item>)
    ensures
        crate::semantics::item_names(items).len() == items.len(),
        forall|i: int|
            0 <= i < items.len() ==> #[trigger] crate::semantics::item_names(items)[i]
                == items[i].name@,
    decreases items.len(),
{
    if items.len() > 0 {
        lemma_item_names_index(items.skip(1));
        assert(forall|i: int|
            1 <= i < items.len() ==> crate::semantics::item_names(items)[i]
                == crate::semantics::item_names(items.skip(1))[i - 1]);
        assert(forall|i: int| 1 <= i < items.len() ==> items.skip(1)[i - 1] == items[i]);
    }
}

impl Program {
    /// A fresh program: all four registries and the variable bindings
    /// empty.
    pub fn new() -> (r: Program)
        ensures
            r@ == (StateView {
                types: Seq::<PrimView>::empty(),
                builtins: Seq::<BuiltinView>::empty(),
                functions: Seq::<FunView>::empty(),
                structs: Seq::<StructView>::empty(),
                vars: Seq::<(Seq<char>, ValueView)>::empty(),
            }),
    {
        Program {
            std_structs: Vec::new(),
            std_functions: Vec::new(),
            functions: Vec::new(),
            structs: Vec::new(),
            variables: Vec::new(),
        }
    }

    /// Register a built-in type prototype under its name, replacing any
    /// prototype of the same name.
    pub fn include_std_struct(&mut self, p: Primitive)
        ensures
            final(self)@ == (StateView { types: set_type(old(self)@.types, p@), ..old(self)@ }),
    {
        let key = p.get_name();
        let n = self.std_structs.len();
        let mut i: usize = 0;
        while i < n
            invariant
                i <= n,
                n == self.std_structs@.len(),
                *self == *old(self),
                forall|j: int|
                    0 <= j < i ==> prim_name(prim_view(
                        #[trigger] self.std_structs@[j],
                    )) != prim_name(p@),
            decreases n - i,
        {
            let q = self.std_structs[i].get_name();
            if q == key {
                self.std_structs.set(i, p);
                proof {
                    lemma_prims_view_index(old(self).std_structs@);
                    lemma_set_type_update(prims_view(old(self).std_structs@), p@, i as int);
                    lemma_prims_view_index(self.std_structs@);
                    assert(prims_view(self.std_structs@) =~= prims_view(
                        old(self).std_structs@,
                    ).update(i as int, p@));
                }
                return;
            }
            i = i + 1;
        }
        proof {
            lemma_prims_view_index(self.std_structs@);
            lemma_set_type_append(prims_view(old(self).std_structs@), p@);
        }
        self.std_structs.push(p);
        proof {
            lemma_prims_view_index(old(self).std_structs@);
            lemma_prims_view_index(self.std_structs@);
            assert(prims_view(self.std_structs@) =~= prims_view(old(self).std_structs@).push(
                p@,
            ));
        }
    }

    /// Register a built-in function under its name, replacing any
    /// function of the same name.
    pub fn include_std_function(&mut self, f: BuiltinFunction)
        ensures
            final(self)@ == (StateView {
                builtins: set_builtin(old(self)@.builtins, f@),
                ..old(self)@
            }),
    {
        let key = f.get_name();
        let n = self.std_functions.len();
        let mut i: usize = 0;
        while i < n
            invariant
                i <= n,
                n == self.std_functions@.len(),
                *self == *old(self),
                forall|j: int|
                    0 <= j < i ==> builtin_name((#[trigger] self.std_functions@[j])@)
                        != builtin_name(f@),
            decreases n - i,
        {
            let q = self.std_functions[i].get_name();
            if q == key {
                self.std_functions.set(i, f);
                proof {
                    lemma_builtins_view_index(old(self).std_functions@);
                    lemma_set_builtin_update(builtins_view(old(self).std_functions@), f@, i as int);
                    lemma_builtins_view_index(self.std_functions@);
                    assert(builtins_view(self.std_functions@) =~= builtins_view(
                        old(self).std_functions@,
                    ).update(i as int, f@));
                }
                return;
            }
            i = i + 1;
        }
        proof {
            lemma_builtins_view_index(self.std_functions@);
            lemma_set_builtin_append(builtins_view(old(self).std_functions@), f@);
        }
        self.std_functions.push(f);
        proof {
            lemma_builtins_view_index(old(self).std_functions@);
            lemma_builtins_view_index(self.std_functions@);
            assert(builtins_view(self.std_functions@) =~= builtins_view(
                old(self).std_functions@,
            ).push(f@));
        }
    }

    /// Register a whole built-in library: types first, then functions,
    /// in order.
    pub fn include_std_library(
        &mut self,
        structs: Vec<Primitive>,
        functions: Vec<BuiltinFunction>,
    )
        ensures
            final(self)@ == (StateView {
                types: crate::semantics::set_types(old(self)@.types, prims_view(structs@)),
                builtins: crate::semantics::set_builtins(
                    old(self)@.builtins,
                    builtins_view(functions@),
                ),
                ..old(self)@
            }),
    {
        proof {
            lemma_prims_view_index(structs@);
            lemma_builtins_view_index(functions@);
        }
        let n = structs.len();
        let mut i: usize = 0;
        while i < n
            invariant
                i <= n,
                n == structs@.len(),
                self@ == (StateView {
                    types: crate::semantics::set_types(
                        old(self)@.types,
                        prims_view(structs@).take(i as int),
                    ),
                    ..old(self)@
                }),
            decreases n - i,
        {
            proof {
                let pv = prims_view(structs@);
                assert(pv.take(i as int).push(pv[i as int]) =~= pv.take(i as int + 1));
                crate::semantics::lemma_set_types_step(
                    old(self)@.types,
                    pv.take(i as int),
                    pv[i as int],
                );
            }
            let p = structs[i].duplicate();
            self.include_std_struct(p);
            i = i + 1;
        }
        proof {
            assert(prims_view(structs@).take(n as int) =~= prims_view(structs@));
        }
        let m = functions.len();
        let mut k: usize = 0;
        while k < m
            invariant
                k <= m,
                m == functions@.len(),
                self@ == (StateView {
                    types: crate::semantics::set_types(old(self)@.types, prims_view(structs@)),
                    builtins: crate::semantics::set_builtins(
                        old(self)@.builtins,
                        builtins_view(functions@).take(k as int),
                    ),
                    ..old(self)@
                }),
            decreases m - k,
        {
            proof {
                let bv = builtins_view(functions@);
                assert(bv.take(k as int).push(bv[k as int]) =~= bv.take(k as int + 1));
                crate::semantics::lemma_set_builtins_step(
                    old(self)@.builtins,
                    bv.take(k as int),
                    bv[k as int],
                );
            }
            let f = functions[k].duplicate();
            self.include_std_function(f);
            k = k + 1;
        }
        proof {
            assert(builtins_view(functions@).take(m as int) =~= builtins_view(functions@));
        }
    }

    /// Declare a user function: the name must be new among the declared
    /// functions; on success the declaration is appended.
    pub fn run_function(&mut self, function: &crate::ir::Function) -> (r: Result<(), Error>)
        ensures
            ({
                let (s, out) = crate::semantics::decl_function(old(self)@, *function);
                final(self)@ == s && match out {
                    Outcome::Normal(_) => r is Ok,
                    Outcome::Failed(e) => r matches Err(err) && err@ == e,
                    _ => false,
                }
            }),
    {
        let existing = find_function(&self.functions, &function.name, 0);
        proof {
            assert(functions_view(self.functions@).skip(0) =~= functions_view(self.functions@));
        }
        if existing.is_some() {
            return Err(Error::DuplicateDefinition(function.name.clone()));
        }
        let entry = Function {
            name: function.name.clone(),
            params: param_names(&function.params),
            body: rc_clone(&function.body),
        };
        proof {
            lemma_functions_view_index(self.functions@);
            lemma_functions_view_index(self.functions@.push(entry));
            assert(functions_view(self.functions@.push(entry)) =~= functions_view(
                self.functions@,
            ).push(fun_entry_view(entry)));
        }
        self.functions.push(entry);
        Ok(())
    }

    /// Declare a record type: the name must collide neither with another
    /// record type nor with a registered built-in type.
    pub fn run_struct(&mut self, s: &crate::ir::Struct) -> (r: Result<(), Error>)
        ensures
            ({
                let (st, out) = crate::semantics::decl_struct(old(self)@, *s);
                final(self)@ == st && match out {
                    Outcome::Normal(_) => r is Ok,
                    Outcome::Failed(e) => r matches Err(err) && err@ == e,
                    _ => false,
                }
            }),
    {
        let dup_struct = find_struct(&self.structs, &s.name, 0);
        let dup_type = find_type(&self.std_structs, &s.name, 0);
        proof {
            assert(structs_view(self.structs@).skip(0) =~= structs_view(self.structs@));
            assert(prims_view(self.std_structs@).skip(0) =~= prims_view(self.std_structs@));
        }
        if dup_struct.is_some() || dup_type.is_some() {
            return Err(Error::DuplicateDefinition(s.name.clone()));
        }
        let entry = crate::ir::Struct { name: s.name.clone(), fields: clone_items(&s.fields) };
        proof {
            lemma_structs_view_index(self.structs@);
            lemma_structs_view_index(self.structs@.push(entry));
            assert(structs_view(self.structs@.push(entry)) =~= structs_view(self.structs@).push(
                struct_entry_view(entry),
            ));
        }
        self.structs.push(entry);
        Ok(())
    }

    /// The value bound to a variable after a run, if any.
    pub fn get_variable(&self, name: &String) -> (r: Option<Value>)
        ensures
            match lookup_var(self@.vars, name@) {
                Some(v) => r matches Some(out) && value_view(out) == v,
                None => r is None,
            },
    {
        proof {
            assert(vars_view(self.variables@).skip(0) =~= vars_view(self.variables@));
        }
        find_variable(&self.variables, name, 0)
    }
}

// ---------------------------------------------------------------------------
// Looking a name up as a value
// ---------------------------------------------------------------------------

/// Unit-valued fields for each declared field name.
pub open spec fn null_fields(names: Seq<Seq<char>>) -> Seq<crate::value::FieldView>
    decreases names.len(),
{
    if names.len() == 0 {
        Seq::empty()
    } else {
        seq![crate::value::FieldView { name: names[0], value: ValueView::Null }] + null_fields(
            names.skip(1),
        )
    }
}

pub proof fn lemma_null_fields_index(names: Seq<Seq<char>>)
    ensures
        null_fields(names).len() == names.len(),
        forall|i: int|
            0 <= i < names.len() ==> #[trigger] null_fields(names)[i] == (
            crate::value::FieldView { name: names[i], value: ValueView::Null }),
    decreases names.len(),
{
    if names.len() > 0 {
        lemma_null_fields_index(names.skip(1));
        assert(forall|i: int|
            1 <= i < names.len() ==> null_fields(names)[i] == null_fields(names.skip(1))[i - 1]);
        assert(forall|i: int| 1 <= i < names.len() ==> names.skip(1)[i - 1] == names[i]);
    }
}

/// What a name denotes as a value: a registered type's prototype, a
/// declared record type as a record of unit fields, or the unit value for
/// an unknown name (unknown names in expression position are not errors).
pub open spec fn lookup_value(st: StateView, name: Seq<char>) -> ValueView {
    match lookup_type(st.types, name) {
        Some(p) => ValueView::Prim(p),
        None => match lookup_struct(st.structs, name) {
            Some(s) => ValueView::Rec(
                crate::value::RecordView { name: s.name, fields: null_fields(s.fields) },
            ),
            None => ValueView::Null,
        },
    }
}

impl Program {
    /// The value a name denotes: a registered built-in type's prototype,
    /// a declared record type with unit fields, or the unit value.
    pub fn get_value(&self, name: &String) -> (r: Value)
        ensures
            value_view(r) == lookup_value(self@, name@),
    {
        proof {
            assert(prims_view(self.std_structs@).skip(0) =~= prims_view(self.std_structs@));
            assert(structs_view(self.structs@).skip(0) =~= structs_view(self.structs@));
        }
        match find_type(&self.std_structs, name, 0) {
            Some(p) => Value::StdStruct(p),
            None => match find_struct(&self.structs, name, 0) {
                Some(sd) => {
                    proof {
                        lemma_item_names_index(sd.fields@);
                    }
                    let n = sd.fields.len();
                    let mut fields: Vec<Input> = Vec::new();
                    let mut i: usize = 0;
                    while i < n
                        invariant
                            i <= n,
                            n == sd.fields@.len(),
                            fields@.len() == i,
                            forall|j: int|
                                0 <= j < i ==> (#[trigger] fields@[j]).name@
                                    == sd.fields@[j].name@ && fields@[j].value == Value::Null,
                        decreases n - i,
                    {
                        fields.push(
                            Input { name: sd.fields[i].name.clone(), value: Value::Null },
                        );
                        i = i + 1;
                    }
                    proof {
                        crate::value::lemma_fields_view_index(fields@);
                        lemma_null_fields_index(crate::semantics::item_names(sd.fields@));
                        assert(crate::value::fields_view(fields@) =~= null_fields(
                            crate::semantics::item_names(sd.fields@),
                        ));
                    }
                    Value::Struct(Rc::new(crate::value::Struct { name: sd.name.clone(), fields }))
                },
                None => Value::Null,
            },
        }
    }
}

// ---------------------------------------------------------------------------
// The evaluator
// ---------------------------------------------------------------------------

/// The budget a plain `run` gives one program: a bound on nesting, call
/// depth and loop iterations together.
pub const DEFAULT_FUEL: u64 = 1000000;

/// What evaluating one construct yields.
#[derive(Debug, PartialEq)]
pub enum EvalOutcome {
    Normal(Value),
    Return(Value),
    Break,
    Continue,
    Failed(Error),
}

impl View for EvalOutcome {
    type V = Outcome;

    open spec fn view(&self) -> Outcome {
        match self {
            EvalOutcome::Normal(v) => Outcome::Normal(value_view(*v)),
            EvalOutcome::Return(v) => Outcome::Return(value_view(*v)),
            EvalOutcome::Break => Outcome::Break,
            EvalOutcome::Continue => Outcome::Continue,
            EvalOutcome::Failed(e) => Outcome::Failed(e@),
        }
    }
}

/// An equal literal, freshly built.
fn dup_literal(lit: &crate::ir::Literal) -> (r: crate::ir::Literal)
    ensures
        r == *lit,
{
    match lit {
        crate::ir::Literal::Integer(n) => crate::ir::Literal::Integer(*n),
        crate::ir::Literal::String(s) => crate::ir::Literal::String(s.clone()),
        crate::ir::Literal::Character(c) => crate::ir::Literal::Character(*c),
        crate::ir::Literal::Boolean(b) => crate::ir::Literal::Boolean(*b),
    }
}

/// The fixed name of the built-in type a literal belongs to.
fn literal_type_name_exec(lit: &crate::ir::Literal) -> (r: String)
    ensures
        r@ == crate::semantics::literal_type_name(*lit),
{
    match lit {
        crate::ir::Literal::Integer(_) => String::from_str("int"),
        crate::ir::Literal::String(_) => String::from_str("string"),
        crate::ir::Literal::Character(_) => String::from_str("char"),
        crate::ir::Literal::Boolean(_) => String::from_str("bool"),
    }
}

/// An equal list of bindings: names copied, values shared.
fn copy_variables(vs: &Vec<Variable>) -> (r: Vec<Variable>)
    ensures
        r@ == vs@,
{
    let mut out: Vec<Variable> = Vec::new();
    let n = vs.len();
    let mut i: usize = 0;
    while i < n
        invariant
            i <= n,
            n == vs@.len(),
            out@.len() == i,
            forall|j: int| 0 <= j < i ==> out@[j] == vs@[j],
        decreases n - i,
    {
        out.push(Variable { name: vs[i].name.clone(), value: vs[i].value.duplicate() });
        i = i + 1;
    }
    proof {
        assert(out@ =~= vs@);
    }
    out
}

/// Whether a declared field list carries this name.
fn contains_name(items: &Vec<Item>, name: &String) -> (r: bool)
    ensures
        r == crate::semantics::item_names(items@).contains(name@),
{
    proof {
        lemma_item_names_index(items@);
    }
    let n = items.len();
    let mut i: usize = 0;
    while i < n
        invariant
            i <= n,
            n == items@.len(),
            forall|j: int| 0 <= j < i ==> (#[trigger] items@[j]).name@ != name@,
        decreases n - i,
    {
        if items[i].name == *name {
            proof {
                assert(crate::semantics::item_names(items@)[i as int] == name@);
            }
            return true;
        }
        i = i + 1;
    }
    proof {
        assert forall|j: int| 0 <= j < items@.len() implies crate::semantics::item_names(
            items@,
        )[j] != name@ by {}
    }
    false
}

pub proof fn lemma_zip_fields_index(names: Seq<Seq<char>>, args: Seq<ValueView>)
    requires
        names.len() == args.len(),
    ensures
        crate::semantics::zip_fields(names, args).len() == names.len(),
        forall|i: int|
            0 <= i < names.len() ==> #[trigger] crate::semantics::zip_fields(names, args)[i] == (
            crate::value::FieldView { name: names[i], value: args[i] }),
    decreases names.len(),
{
    if names.len() > 0 {
        lemma_zip_fields_index(names.skip(1), args.skip(1));
        assert(forall|i: int|
            1 <= i < names.len() ==> crate::semantics::zip_fields(names, args)[i]
                == crate::semantics::zip_fields(names.skip(1), args.skip(1))[i - 1]);
        assert(forall|i: int| 1 <= i < names.len() ==> names.skip(1)[i - 1] == names[i]);
        assert(forall|i: int| 1 <= i < args.len() ==> args.skip(1)[i - 1] == args[i]);
    }
}

/// One of the eleven value operators applied to two evaluated operands.
fn apply_binop_exec(op: crate::ir::Operator, l: Value, r: Value) -> (out: EvalOutcome)
    ensures
        out@ == crate::semantics::apply_binop(op, value_view(l), value_view(r)),
{
    match &l {
        Value::StdStruct(p) => match p.binop(op, &r) {
            Ok(v) => EvalOutcome::Normal(v),
            Err(e) => EvalOutcome::Failed(e),
        },
        _ => {
            if op == crate::ir::Operator::Subtract {
                if let Value::StdStruct(Primitive::Int(b)) = &r {
                    if b.number == 0 {
                        return EvalOutcome::Normal(l);
                    }
                }
                EvalOutcome::Failed(Error::TypeMismatch)
            } else {
                EvalOutcome::Failed(Error::TypeMismatch)
            }
        },
    }
}

impl Program {
    /// A literal becomes a primitive through the registered prototype of
    /// its type.
    fn eval_literal_exec(&self, lit: &crate::ir::Literal) -> (out: EvalOutcome)
        ensures
            out@ == crate::semantics::eval_literal(self@, *lit),
    {
        let tyname = literal_type_name_exec(lit);
        proof {
            assert(prims_view(self.std_structs@).skip(0) =~= prims_view(self.std_structs@));
        }
        match find_type(&self.std_structs, &tyname, 0) {
            Some(p) => match p.clone_with_value(
                crate::ir::VariableData::Literal(dup_literal(lit)),
            ) {
                Ok(prim) => EvalOutcome::Normal(Value::StdStruct(prim)),
                Err(e) => EvalOutcome::Failed(e),
            },
            None => EvalOutcome::Failed(Error::UndefinedName(tyname)),
        }
    }

    /// Evaluate one expression.
    pub fn eval_expr(&mut self, e: &crate::ir::Expression, fuel: u64) -> (out: EvalOutcome)
        ensures
            ({
                let (s, o) = crate::semantics::eval_expr(old(self)@, *e, fuel as nat);
                final(self)@ == s && out@ == o
            }),
        decreases fuel, 0nat,
    {
        if fuel == 0 {
            return EvalOutcome::Failed(Error::OutOfFuel);
        }
        let f = fuel - 1;
        match e {
            crate::ir::Expression::Literal(lit) => self.eval_literal_exec(lit),
            crate::ir::Expression::Variable(name) => {
                proof {
                    assert(vars_view(self.variables@).skip(0) =~= vars_view(self.variables@));
                }
                match find_variable(&self.variables, name, 0) {
                    Some(v) => EvalOutcome::Normal(v),
                    None => EvalOutcome::Normal(Value::Null),
                }
            },
            crate::ir::Expression::Operation(op) => self.eval_operation(op, f),
            crate::ir::Expression::FunctionCall(fc) => {
                proof {
                    assert(fc.args@.skip(0) =~= fc.args@);
                }
                match self.eval_args(&fc.args, 0, f) {
                    Ok(vals) => self.eval_call(&fc.name, vals, f),
                    Err(out) => out,
                }
            },
        }
    }

    /// Evaluate an argument list, left to right, from position `i`.
    fn eval_args(&mut self, es: &Vec<crate::ir::Expression>, i: usize, fuel: u64) -> (r: Result<
        Vec<Value>,
        EvalOutcome,
    >)
        requires
            i <= es@.len(),
        ensures
            ({
                let (s, rr) = crate::semantics::eval_exprs(
                    old(self)@,
                    es@.skip(i as int),
                    fuel as nat,
                );
                final(self)@ == s && match rr {
                    Ok(vs) => r matches Ok(out) && crate::value::values_view(out@) == vs,
                    Err(o) => r matches Err(oo) && oo@ == o,
                }
            }),
        decreases fuel, es@.len() - i,
    {
        if fuel == 0 {
            return Err(EvalOutcome::Failed(Error::OutOfFuel));
        }
        if i == es.len() {
            proof {
                assert(es@.skip(i as int) =~= Seq::<crate::ir::Expression>::empty());
            }
            return Ok(Vec::new());
        }
        proof {
            assert(es@.skip(i as int)[0] == es@[i as int]);
        }
        let out = self.eval_expr(&es[i], fuel - 1);
        match out {
            EvalOutcome::Normal(v) => {
                proof {
                    assert(es@.skip(i as int).skip(1) =~= es@.skip(i as int + 1));
                }
                match self.eval_args(es, i + 1, fuel) {
                    Ok(mut vs) => {
                        proof {
                            crate::value::lemma_values_view_index(vs@);
                        }
                        let ghost before = vs@;
                        vs.insert(0, v);
                        proof {
                            crate::value::lemma_values_view_index(vs@);
                            assert(crate::value::values_view(vs@) =~= seq![value_view(v)]
                                + crate::value::values_view(before));
                        }
                        Ok(vs)
                    },
                    Err(o) => Err(o),
                }
            },
            _ => Err(out),
        }
    }

    /// Evaluate one operation node.
    fn eval_operation(&mut self, op: &crate::ir::Operation, fuel: u64) -> (out: EvalOutcome)
        ensures
            ({
                let (s, o) = crate::semantics::eval_operation(old(self)@, *op, fuel as nat);
                final(self)@ == s && out@ == o
            }),
        decreases fuel, 0nat,
    {
        if fuel == 0 {
            return EvalOutcome::Failed(Error::OutOfFuel);
        }
        let f = fuel - 1;
        match op.operator {
            crate::ir::Operator::Break => EvalOutcome::Break,
            crate::ir::Operator::Continue => EvalOutcome::Continue,
            crate::ir::Operator::Return => {
                let out = self.eval_expr(&*op.left, f);
                match out {
                    EvalOutcome::Normal(v) => EvalOutcome::Return(v),
                    _ => out,
                }
            },
            crate::ir::Operator::Expression => self.eval_expr(&*op.left, f),
            crate::ir::Operator::Assignment => match &*op.left {
                crate::ir::Expression::Variable(name) => {
                    let out = self.eval_expr(&*op.right, f);
                    match out {
                        EvalOutcome::Normal(v) => {
                            let copy = v.duplicate();
                            set_variable_binding(&mut self.variables, name.clone(), v);
                            EvalOutcome::Normal(copy)
                        },
                        _ => out,
                    }
                },
                _ => EvalOutcome::Failed(
                    Error::UnsupportedOperation(crate::ir::Operator::Assignment),
                ),
            },
            crate::ir::Operator::Comma => {
                let out = self.eval_expr(&*op.left, f);
                match out {
                    EvalOutcome::Normal(l) => {
                        let out2 = self.eval_expr(&*op.right, f);
                        match out2 {
                            EvalOutcome::Normal(_) => EvalOutcome::Normal(l),
                            _ => out2,
                        }
                    },
                    _ => out,
                }
            },
            crate::ir::Operator::ArrayAccess
            | crate::ir::Operator::MemberAccess
            | crate::ir::Operator::Conditional => {
                let out = self.eval_expr(&*op.left, f);
                match out {
                    EvalOutcome::Normal(_) => {
                        let out2 = self.eval_expr(&*op.right, f);
                        match out2 {
                            EvalOutcome::Normal(_) => EvalOutcome::Failed(
                                Error::UnsupportedOperation(op.operator),
                            ),
                            _ => out2,
                        }
                    },
                    _ => out,
                }
            },
            crate::ir::Operator::And | crate::ir::Operator::Or => {
                let out = self.eval_expr(&*op.left, f);
                match out {
                    EvalOutcome::Normal(l) => {
                        let out2 = self.eval_expr(&*op.right, f);
                        match out2 {
                            EvalOutcome::Normal(r) => {
                                let l_is_bool = matches!(
                                    &l,
                                    Value::StdStruct(Primitive::Bool(_))
                                );
                                let r_is_bool = matches!(
                                    &r,
                                    Value::StdStruct(Primitive::Bool(_))
                                );
                                if !l_is_bool || !r_is_bool {
                                    EvalOutcome::Failed(Error::TypeMismatch)
                                } else if op.operator == crate::ir::Operator::And {
                                    apply_binop_exec(crate::ir::Operator::Add, l, r)
                                } else {
                                    apply_binop_exec(crate::ir::Operator::Subtract, l, r)
                                }
                            },
                            _ => out2,
                        }
                    },
                    _ => out,
                }
            },
            _ => {
                let out = self.eval_expr(&*op.left, f);
                match out {
                    EvalOutcome::Normal(l) => {
                        let out2 = self.eval_expr(&*op.right, f);
                        match out2 {
                            EvalOutcome::Normal(r) => apply_binop_exec(op.operator, l, r),
                            _ => out2,
                        }
                    },
                    _ => out,
                }
            },
        }
    }

    /// Resolve and perform a call-shaped expression.
    fn eval_call(&mut self, name: &String, args: Vec<Value>, fuel: u64) -> (out: EvalOutcome)
        ensures
            ({
                let (s, o) = crate::semantics::eval_call(
                    old(self)@,
                    name@,
                    crate::value::values_view(args@),
                    fuel as nat,
                );
                final(self)@ == s && out@ == o
            }),
        decreases fuel, 4nat,
    {
        if fuel == 0 {
            return EvalOutcome::Failed(Error::OutOfFuel);
        }
        proof {
            assert(functions_view(self.functions@).skip(0) =~= functions_view(self.functions@));
            assert(builtins_view(self.std_functions@).skip(0) =~= builtins_view(
                self.std_functions@,
            ));
            assert(structs_view(self.structs@).skip(0) =~= structs_view(self.structs@));
            assert(prims_view(self.std_structs@).skip(0) =~= prims_view(self.std_structs@));
            crate::value::lemma_values_view_index(args@);
        }
        match find_function(&self.functions, name, 0) {
            Some(fun) => match fun.run(self, args, fuel) {
                Ok(v) => EvalOutcome::Normal(v),
                Err(e) => EvalOutcome::Failed(e),
            },
            None => match find_builtin(&self.std_functions, name, 0) {
                Some(b) => match b {
                    BuiltinFunction::ToString(t) => match t.run(self, &args) {
                        Ok(v) => EvalOutcome::Normal(v),
                        Err(e) => EvalOutcome::Failed(e),
                    },
                },
                None => match find_struct(&self.structs, name, 0) {
                    Some(sd) => {
                        proof {
                            lemma_item_names_index(sd.fields@);
                        }
                        if args.len() != sd.fields.len() {
                            return EvalOutcome::Failed(Error::ArityMismatch(name.clone()));
                        }
                        let n = sd.fields.len();
                        let mut fields: Vec<Input> = Vec::new();
                        let mut i: usize = 0;
                        while i < n
                            invariant
                                i <= n,
                                n == sd.fields@.len(),
                                n == args@.len(),
                                fields@.len() == i,
                                forall|j: int|
                                    0 <= j < i ==> (#[trigger] fields@[j]).name@
                                        == sd.fields@[j].name@ && fields@[j].value
                                        == args@[j],
                            decreases n - i,
                        {
                            fields.push(
                                Input {
                                    name: sd.fields[i].name.clone(),
                                    value: args[i].duplicate(),
                                },
                            );
                            i = i + 1;
                        }
                        proof {
                            crate::value::lemma_fields_view_index(fields@);
                            lemma_zip_fields_index(
                                crate::semantics::item_names(sd.fields@),
                                crate::value::values_view(args@),
                            );
                            assert(crate::value::fields_view(fields@)
                                =~= crate::semantics::zip_fields(
                                crate::semantics::item_names(sd.fields@),
                                crate::value::values_view(args@),
                            ));
                        }
                        EvalOutcome::Normal(
                            Value::Struct(Rc::new(crate::value::Struct {
                                name: sd.name.clone(),
                                fields,
                            })),
                        )
                    },
                    None => match find_type(&self.std_structs, name, 0) {
                        Some(proto) => match proto.from_value(&args) {
                            Ok(p) => EvalOutcome::Normal(Value::StdStruct(p)),
                            Err(e) => EvalOutcome::Failed(e),
                        },
                        None => EvalOutcome::Failed(Error::UndefinedName(name.clone())),
                    },
                },
            },
        }
    }

    /// Evaluate one action.
    pub fn eval_action(&mut self, a: &Action, fuel: u64) -> (out: EvalOutcome)
        ensures
            ({
                let (s, o) = crate::semantics::eval_action(old(self)@, *a, fuel as nat);
                final(self)@ == s && out@ == o
            }),
        decreases fuel, 1nat,
    {
        if fuel == 0 {
            return EvalOutcome::Failed(Error::OutOfFuel);
        }
        let f = fuel - 1;
        match a {
            Action::Function(fd) => match self.run_function(fd) {
                Ok(_) => EvalOutcome::Normal(Value::Null),
                Err(e) => EvalOutcome::Failed(e),
            },
            Action::Struct(sd) => match self.run_struct(sd) {
                Ok(_) => EvalOutcome::Normal(Value::Null),
                Err(e) => EvalOutcome::Failed(e),
            },
            Action::Variable(vd) => {
                let out = self.eval_vardata(&vd.data, f);
                match out {
                    EvalOutcome::Normal(v) => {
                        set_variable_binding(&mut self.variables, vd.name.clone(), v);
                        EvalOutcome::Normal(Value::Null)
                    },
                    _ => out,
                }
            },
            Action::Operation(op) => self.eval_operation(op, f),
            Action::Expression(e) => self.eval_expr(e, f),
            Action::Conditional(c) => {
                if c.repeats {
                    self.eval_loop(c, f)
                } else {
                    let out = self.eval_expr(&c.condition, f);
                    match out {
                        EvalOutcome::Normal(v) => match &v {
                            Value::StdStruct(Primitive::Bool(b)) => {
                                if b.value {
                                    self.eval_actions(&c.then_actions, f)
                                } else {
                                    self.eval_actions(&c.else_actions, f)
                                }
                            },
                            _ => EvalOutcome::Failed(Error::TypeMismatch),
                        },
                        _ => out,
                    }
                }
            },
        }
    }

    /// Evaluate an action sequence.
    pub fn eval_actions(&mut self, acts: &Vec<Action>, fuel: u64) -> (out: EvalOutcome)
        ensures
            ({
                let (s, o) = crate::semantics::eval_seq(old(self)@, acts@, fuel as nat);
                final(self)@ == s && out@ == o
            }),
        decreases fuel, acts@.len(),
    {
        if fuel == 0 {
            return EvalOutcome::Failed(Error::OutOfFuel);
        }
        let n = acts.len();
        if n == 0 {
            return EvalOutcome::Normal(Value::Null);
        }
        let mut i: usize = 0;
        proof {
            assert(acts@.skip(0) =~= acts@);
        }
        loop
            invariant
                i < n,
                n == acts@.len(),
                fuel >= 1,
                crate::semantics::eval_seq(old(self)@, acts@, fuel as nat)
                    == crate::semantics::eval_seq(self@, acts@.skip(i as int), fuel as nat),
            decreases n - i,
        {
            proof {
                assert(acts@.skip(i as int)[0] == acts@[i as int]);
            }
            let out = self.eval_action(&acts[i], fuel - 1);
            match out {
                EvalOutcome::Normal(v) => {
                    if i == n - 1 {
                        proof {
                            assert(acts@.skip(i as int).len() == 1);
                        }
                        return EvalOutcome::Normal(v);
                    }
                    proof {
                        assert(acts@.skip(i as int).skip(1) =~= acts@.skip(i as int + 1));
                    }
                    i = i + 1;
                },
                _ => {
                    return out;
                },
            }
        }
    }

    /// Run a loop iteratively: condition, body, again; `Break` ends it.
    fn eval_loop(&mut self, c: &crate::ir::Conditional, fuel: u64) -> (out: EvalOutcome)
        ensures
            ({
                let (s, o) = crate::semantics::eval_loop(old(self)@, *c, fuel as nat);
                final(self)@ == s && out@ == o
            }),
        decreases fuel, 0nat,
    {
        let mut fl = fuel;
        loop
            invariant
                fl <= fuel,
                crate::semantics::eval_loop(old(self)@, *c, fuel as nat)
                    == crate::semantics::eval_loop(self@, *c, fl as nat),
            decreases fl,
        {
            if fl == 0 {
                return EvalOutcome::Failed(Error::OutOfFuel);
            }
            let f = fl - 1;
            let out = self.eval_expr(&c.condition, f);
            match out {
                EvalOutcome::Normal(v) => match &v {
                    Value::StdStruct(Primitive::Bool(b)) => {
                        if b.value {
                            let out2 = self.eval_actions(&c.then_actions, f);
                            match out2 {
                                EvalOutcome::Normal(_) => {
                                    fl = f;
                                },
                                EvalOutcome::Continue => {
                                    fl = f;
                                },
                                EvalOutcome::Break => {
                                    return EvalOutcome::Normal(Value::Null);
                                },
                                _ => {
                                    return out2;
                                },
                            }
                        } else {
                            return EvalOutcome::Normal(Value::Null);
                        }
                    },
                    _ => {
                        return EvalOutcome::Failed(Error::TypeMismatch);
                    },
                },
                _ => {
                    return out;
                },
            }
        }
    }

    /// Evaluate the payload of a variable declaration.
    fn eval_vardata(&mut self, d: &crate::ir::VariableData, fuel: u64) -> (out: EvalOutcome)
        ensures
            ({
                let (s, o) = crate::semantics::eval_vardata(old(self)@, *d, fuel as nat);
                final(self)@ == s && out@ == o
            }),
        decreases fuel, 1nat,
    {
        if fuel == 0 {
            return EvalOutcome::Failed(Error::OutOfFuel);
        }
        let f = fuel - 1;
        match d {
            crate::ir::VariableData::Literal(lit) => self.eval_literal_exec(lit),
            crate::ir::VariableData::Expression(b) => self.eval_expr(&*b, f),
            crate::ir::VariableData::Null => EvalOutcome::Normal(Value::Null),
            crate::ir::VariableData::Array(ds) => {
                proof {
                    assert(ds@.skip(0) =~= ds@);
                }
                match self.eval_vardata_items(ds, 0, f) {
                    Ok(vals) => EvalOutcome::Normal(Value::Array(Rc::new(vals))),
                    Err(out) => out,
                }
            },
            crate::ir::VariableData::StructInstance(name, pairs) => {
                proof {
                    assert(structs_view(self.structs@).skip(0) =~= structs_view(self.structs@));
                }
                match find_struct(&self.structs, name, 0) {
                    Some(sd) => {
                        proof {
                            assert(pairs@.skip(0) =~= pairs@);
                        }
                        match self.eval_pairs(pairs, &sd, 0, f) {
                        Ok(fields) => EvalOutcome::Normal(
                            Value::Struct(Rc::new(crate::value::Struct {
                                name: name.clone(),
                                fields,
                            })),
                        ),
                        Err(out) => out,
                        }
                    },
                    None => EvalOutcome::Failed(Error::UndefinedName(name.clone())),
                }
            },
        }
    }

    /// Evaluate array elements from position `i`.
    fn eval_vardata_items(
        &mut self,
        ds: &Vec<crate::ir::VariableData>,
        i: usize,
        fuel: u64,
    ) -> (r: Result<Vec<Value>, EvalOutcome>)
        requires
            i <= ds@.len(),
        ensures
            ({
                let (s, rr) = crate::semantics::eval_vardata_list(
                    old(self)@,
                    ds@.skip(i as int),
                    fuel as nat,
                );
                final(self)@ == s && match rr {
                    Ok(vs) => r matches Ok(out) && crate::value::values_view(out@) == vs,
                    Err(o) => r matches Err(oo) && oo@ == o,
                }
            }),
        decreases fuel, ds@.len() - i,
    {
        if fuel == 0 {
            return Err(EvalOutcome::Failed(Error::OutOfFuel));
        }
        if i == ds.len() {
            proof {
                assert(ds@.skip(i as int) =~= Seq::<crate::ir::VariableData>::empty());
            }
            return Ok(Vec::new());
        }
        proof {
            assert(ds@.skip(i as int)[0] == ds@[i as int]);
        }
        let out = self.eval_vardata(&ds[i], fuel - 1);
        match out {
            EvalOutcome::Normal(v) => {
                proof {
                    assert(ds@.skip(i as int).skip(1) =~= ds@.skip(i as int + 1));
                }
                match self.eval_vardata_items(ds, i + 1, fuel) {
                    Ok(mut vs) => {
                        proof {
                            crate::value::lemma_values_view_index(vs@);
                        }
                        let ghost before = vs@;
                        vs.insert(0, v);
                        proof {
                            crate::value::lemma_values_view_index(vs@);
                            assert(crate::value::values_view(vs@) =~= seq![value_view(v)]
                                + crate::value::values_view(before));
                        }
                        Ok(vs)
                    },
                    Err(o) => Err(o),
                }
            },
            _ => Err(out),
        }
    }

    /// Evaluate the supplied fields of a struct instance from position
    /// `i`, keeping only those present in the declaration.
    fn eval_pairs(
        &mut self,
        pairs: &Vec<(String, crate::ir::VariableData)>,
        sd: &crate::ir::Struct,
        i: usize,
        fuel: u64,
    ) -> (r: Result<Vec<Input>, EvalOutcome>)
        requires
            i <= pairs@.len(),
        ensures
            ({
                let (s, rr) = crate::semantics::eval_field_pairs(
                    old(self)@,
                    pairs@.skip(i as int),
                    crate::semantics::item_names(sd.fields@),
                    fuel as nat,
                );
                final(self)@ == s && match rr {
                    Ok(fs) => r matches Ok(out) && crate::value::fields_view(out@) == fs,
                    Err(o) => r matches Err(oo) && oo@ == o,
                }
            }),
        decreases fuel, pairs@.len() - i,
    {
        if fuel == 0 {
            return Err(EvalOutcome::Failed(Error::OutOfFuel));
        }
        if i == pairs.len() {
            proof {
                assert(pairs@.skip(i as int) =~= Seq::<(String, crate::ir::VariableData)>::empty());
            }
            return Ok(Vec::new());
        }
        proof {
            assert(pairs@.skip(i as int)[0] == pairs@[i as int]);
            assert(pairs@.skip(i as int).skip(1) =~= pairs@.skip(i as int + 1));
        }
        let declared = contains_name(&sd.fields, &pairs[i].0);
        if !declared {
            self.eval_pairs(pairs, sd, i + 1, fuel)
        } else {
            let out = self.eval_vardata(&pairs[i].1, fuel - 1);
            match out {
                EvalOutcome::Normal(v) => match self.eval_pairs(pairs, sd, i + 1, fuel) {
                    Ok(mut fs) => {
                        proof {
                            crate::value::lemma_fields_view_index(fs@);
                        }
                        let ghost before = fs@;
                        let entry = Input { name: pairs[i].0.clone(), value: v };
                        fs.insert(0, entry);
                        proof {
                            crate::value::lemma_fields_view_index(fs@);
                            assert(crate::value::fields_view(fs@) =~= seq![
                                crate::value::FieldView {
                                    name: pairs@[i as int].0@,
                                    value: value_view(fs@[0].value),
                                },
                            ] + crate::value::fields_view(before));
                        }
                        Ok(fs)
                    },
                    Err(o) => Err(o),
                },
                _ => Err(out),
            }
        }
    }

    /// Run a whole program with an explicit evaluation budget.
    pub fn run_with_fuel(&mut self, actions: &Vec<Action>, fuel: u64) -> (r: Result<Value, Error>)
        ensures
            ({
                let (s, rr) = crate::semantics::run_actions(old(self)@, actions@, fuel as nat);
                final(self)@ == s && match rr {
                    Ok(v) => r matches Ok(out) && value_view(out) == v,
                    Err(e) => r matches Err(err) && err@ == e,
                }
            }),
    {
        if fuel == 0 {
            return Err(Error::OutOfFuel);
        }
        let n = actions.len();
        if n == 0 {
            return Ok(Value::Null);
        }
        let mut i: usize = 0;
        proof {
            assert(actions@.skip(0) =~= actions@);
        }
        loop
            invariant
                i < n,
                n == actions@.len(),
                fuel >= 1,
                crate::semantics::run_actions(old(self)@, actions@, fuel as nat)
                    == crate::semantics::run_actions(
                    self@,
                    actions@.skip(i as int),
                    fuel as nat,
                ),
            decreases n - i,
        {
            proof {
                assert(actions@.skip(i as int)[0] == actions@[i as int]);
            }
            let bare = matches!(&actions[i], Action::Expression(_) | Action::Operation(_));
            let ghost pre = self@;
            let out = self.eval_action(&actions[i], fuel - 1);
            proof {
                assert(crate::semantics::eval_action(
                    pre,
                    actions@[i as int],
                    (fuel - 1) as nat,
                ) == (self@, out@));
            }
            match out {
                EvalOutcome::Normal(v) => {
                    if bare {
                        return Ok(v);
                    }
                    if i == n - 1 {
                        proof {
                            assert(actions@.skip(i as int).skip(1) =~= actions@.skip(
                                i as int + 1,
                            ));
                            assert(actions@.skip(i as int + 1).len() == 0);
                            assert(crate::semantics::run_actions(
                                pre,
                                actions@.skip(i as int),
                                fuel as nat,
                            ) == crate::semantics::run_actions(
                                self@,
                                actions@.skip(i as int + 1),
                                fuel as nat,
                            ));
                        }
                        return Ok(Value::Null);
                    }
                    proof {
                        assert(actions@.skip(i as int).skip(1) =~= actions@.skip(i as int + 1));
                    }
                    i = i + 1;
                },
                EvalOutcome::Return(v) => {
                    return Ok(v);
                },
                EvalOutcome::Break => {
                    return Err(Error::UnsupportedOperation(crate::ir::Operator::Break));
                },
                EvalOutcome::Continue => {
                    return Err(Error::UnsupportedOperation(crate::ir::Operator::Continue));
                },
                EvalOutcome::Failed(e) => {
                    return Err(e);
                },
            }
        }
    }

    /// Run a whole program: declarations register in order, and the first
    /// bare expression or operation ends the run with its value (unit if
    /// none occurs).
    pub fn run(&mut self, actions: &Vec<Action>) -> (r: Result<Value, Error>)
        ensures
            ({
                let (s, rr) = crate::semantics::run_actions(
                    old(self)@,
                    actions@,
                    DEFAULT_FUEL as nat,
                );
                final(self)@ == s && match rr {
                    Ok(v) => r matches Ok(out) && value_view(out) == v,
                    Err(e) => r matches Err(err) && err@ == e,
                }
            }),
    {
        self.run_with_fuel(actions, DEFAULT_FUEL)
    }
}

impl Function {
    /// Run this declared function against a program: bind the arguments
    /// over a copy of the caller's bindings, run the body, give the
    /// caller its bindings back.
    pub fn run(&self, program: &mut Program, args: Vec<Value>, fuel: u64) -> (r: Result<
        Value,
        Error,
    >)
        ensures
            ({
                let (s, rr) = crate::semantics::call_fun(
                    old(program)@,
                    fun_entry_view(*self),
                    crate::value::values_view(args@),
                    fuel as nat,
                );
                final(program)@ == s && match rr {
                    Ok(v) => r matches Ok(out) && value_view(out) == v,
                    Err(e) => r matches Err(err) && err@ == e,
                }
            }),
        decreases fuel, 3nat,
    {
        if fuel == 0 {
            return Err(Error::OutOfFuel);
        }
        proof {
            crate::value::lemma_values_view_index(args@);
            lemma_strings_view_index(self.params@);
        }
        if args.len() != self.params.len() {
            return Err(Error::ArityMismatch(self.name.clone()));
        }
        let saved = copy_variables(&program.variables);
        let n = self.params.len();
        let mut i: usize = 0;
        proof {
            assert(strings_view(self.params@).skip(0) =~= strings_view(self.params@));
            assert(crate::value::values_view(args@).skip(0) =~= crate::value::values_view(args@));
        }
        while i < n
            invariant
                i <= n,
                n == self.params@.len(),
                n == args@.len(),
                program@ == (StateView { vars: program@.vars, ..old(program)@ }),
                crate::semantics::bind_params(
                    old(program)@.vars,
                    strings_view(self.params@),
                    crate::value::values_view(args@),
                ) == crate::semantics::bind_params(
                    program@.vars,
                    strings_view(self.params@).skip(i as int),
                    crate::value::values_view(args@).skip(i as int),
                ),
            decreases n - i,
        {
            proof {
                let pv = strings_view(self.params@);
                let av = crate::value::values_view(args@);
                assert(pv.skip(i as int)[0] == pv[i as int]);
                assert(av.skip(i as int)[0] == av[i as int]);
                assert(pv.skip(i as int).skip(1) =~= pv.skip(i as int + 1));
                assert(av.skip(i as int).skip(1) =~= av.skip(i as int + 1));
            }
            set_variable_binding(
                &mut program.variables,
                self.params[i].clone(),
                args[i].duplicate(),
            );
            i = i + 1;
        }
        proof {
            assert(strings_view(self.params@).skip(n as int) =~= Seq::<Seq<char>>::empty());
            assert(crate::value::values_view(args@).skip(n as int)
                =~= Seq::<ValueView>::empty());
        }
        let out = program.eval_actions(&*self.body, fuel - 1);
        program.variables = saved;
        match out {
            EvalOutcome::Normal(v) => Ok(v),
            EvalOutcome::Return(v) => Ok(v),
            EvalOutcome::Break => Ok(Value::Null),
            EvalOutcome::Continue => Ok(Value::Null),
            EvalOutcome::Failed(e) => Err(e),
        }
    }
}

} // verus!
