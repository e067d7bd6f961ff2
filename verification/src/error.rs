//! The error taxonomy of the runtime.
//!
//! Every failure is surfaced as a descriptive [`Error`] value that aborts
//! the run; nothing panics and there is no local recovery.

use crate::ir::Operator;
use vstd::prelude::*;

verus! {

/// A runtime error.  Each variant is tied by the evaluator's contracts to
/// exactly the situations that raise it.
#[derive(Debug, PartialEq)]
pub enum Error {
    /// A declaration re-used a name already taken in its namespace.
    DuplicateDefinition(String),
    /// A call-shaped expression named nothing in any of the four
    /// namespaces, or a literal's built-in type is not registered.
    UndefinedName(String),
    /// A call or record instantiation supplied the wrong number of
    /// arguments; carries the name that was called.
    ArityMismatch(String),
    /// A constructor received no argument where one was required.
    MissingArgument,
    /// A constructor received more than its one argument.
    TooManyArguments,
    /// An operand or constructor argument had an unacceptable type or value.
    InvalidArgument,
    /// A literal constructor received a literal of the wrong kind.
    InvalidLiteral,
    /// A non-primitive operand where a primitive was required, or a
    /// non-boolean where a boolean was required.
    TypeMismatch,
    /// Integer division by zero.
    DivisionByZero,
    /// Integer modulo by zero.
    ModuloByZero,
    /// The operator has no meaning for its operands.
    UnsupportedOperation(Operator),
    /// The evaluation budget was exhausted (nesting, call depth or loop
    /// iterations); the host can retry with a larger budget.
    OutOfFuel,
}

/// Ghost mirror of [`Error`].
pub enum ErrorView {
    DuplicateDefinition(Seq<char>),
    UndefinedName(Seq<char>),
    ArityMismatch(Seq<char>),
    MissingArgument,
    TooManyArguments,
    InvalidArgument,
    InvalidLiteral,
    TypeMismatch,
    DivisionByZero,
    ModuloByZero,
    UnsupportedOperation(Operator),
    OutOfFuel,
}

impl View for Error {
    type V = ErrorView;

    open spec fn view(&self) -> ErrorView {
        match *self {
            Error::DuplicateDefinition(ref n) => ErrorView::DuplicateDefinition(n@),
            Error::UndefinedName(ref n) => ErrorView::UndefinedName(n@),
            Error::ArityMismatch(ref n) => ErrorView::ArityMismatch(n@),
            Error::MissingArgument => ErrorView::MissingArgument,
            Error::TooManyArguments => ErrorView::TooManyArguments,
            Error::InvalidArgument => ErrorView::InvalidArgument,
            Error::InvalidLiteral => ErrorView::InvalidLiteral,
            Error::TypeMismatch => ErrorView::TypeMismatch,
            Error::DivisionByZero => ErrorView::DivisionByZero,
            Error::ModuloByZero => ErrorView::ModuloByZero,
            Error::UnsupportedOperation(op) => ErrorView::UnsupportedOperation(op),
            Error::OutOfFuel => ErrorView::OutOfFuel,
        }
    }
}

} // verus!
