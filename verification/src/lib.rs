//! Runtime for a small, C-like embeddable scripting language.
//!
//! The crate consumes a lowered intermediate representation of a program
//! (declarations, expressions, control flow) and executes it by recursive
//! tree-walking over a dynamically extensible value model.  Every public
//! operation carries a contract stating exactly what it computes, and the
//! evaluator is proved to implement the specification-level interpreter
//! defined in [`semantics`].

#![verifier::loop_isolation(false)]

use vstd::prelude::*;

pub mod builtins;
pub mod error;
pub mod ir;
pub mod jsonrep;
pub mod laws;
pub mod lowering;
pub mod tokens;
pub mod program;
pub mod semantics;
pub mod value;

use crate::error::Error;
use crate::ir::Action;
use crate::program::{Program, DEFAULT_FUEL};
use crate::value::{value_view, Value};

verus! {

/// Check whether a parsed program lowers cleanly: `None` when every
/// construct has a lowering, otherwise the first reason one does not.
pub fn check(tokens: Vec<crate::tokens::Token>) -> (r: Option<crate::lowering::LowerError>)
    ensures
        r == crate::lowering::tokens_error(tokens@),
{
    match crate::lowering::lower_tokens(tokens) {
        Ok(_) => None,
        Err(e) => Some(e),
    }
}

/// Run a lowered program under the default built-in library and the
/// default evaluation budget, yielding the value of its first bare
/// expression (unit if none) or the first error.
pub fn run(actions: &Vec<Action>) -> (r: Result<Value, Error>)
    ensures
        ({
            let (s, rr) = crate::semantics::run_actions(
                crate::semantics::initial_state(),
                actions@,
                DEFAULT_FUEL as nat,
            );
            match rr {
                Ok(v) => r matches Ok(out) && value_view(out) == v,
                Err(e) => r matches Err(err) && err@ == e,
            }
        }),
{
    let mut program = Program::new();
    let lib = crate::builtins::get_std_lib();
    let fns = crate::builtins::get_std_functions();
    proof {
        crate::program::lemma_prims_view_index(lib@);
        assert(crate::program::prims_view(lib@) =~= seq![
            crate::value::PrimView::Int(0),
            crate::value::PrimView::Str(Seq::<char>::empty()),
            crate::value::PrimView::Char(' '),
            crate::value::PrimView::Bool(false),
        ]);
        crate::program::lemma_builtins_view_index(fns@);
        assert(crate::program::builtins_view(fns@) =~= seq![
            crate::semantics::BuiltinView::ToStr,
        ]);
    }
    program.include_std_library(lib, fns);
    proof {
        assert(program@ =~= crate::semantics::initial_state());
    }
    program.run(actions)
}

} // verus!
