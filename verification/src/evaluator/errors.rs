//! Why an evaluation fails.

use super::{Value, ValueView};
use crate::parser::operators::PrefixOperator;
use vstd::prelude::*;

verus! {

/// What was attempted on two operands that do not allow it.
#[derive(Clone, Copy, PartialEq, Eq, Structural, Debug)]
pub enum Operation {
    Sum,
    Subtract,
    Multiply,
    Divide,
    Compare,
}

/// An evaluation error.
#[derive(Debug)]
pub enum EvalError {
    /// No builtin and no scope of the chain knows the name.
    UnresolvedVariable(String),
    /// The name that is called stands for a value that is no function.
    NotAFunction(String),
    /// A function was called with the wrong number of arguments: a user
    /// function with another number than it has parameters, a builtin with
    /// fewer than its minimum.
    ArityMismatch { name: String, expected: usize, given: usize },
    /// An operation on operands of types that it is not defined for.
    InvalidOperands { operation: Operation, left: Value, right: Value },
    /// An assignment of void to the name.
    AssignVoid(String),
    /// An assignment to the name of a builtin.
    AssignToBuiltin(String),
    /// The condition of a conditional or of a loop is no boolean.
    ConditionNotBoolean(Value),
    /// A prefix operator that has no meaning.
    UnsupportedPrefix(PrefixOperator),
    /// A builtin failed with this message.
    Native(String),
    /// The evaluator's budget of steps is used up.
    BudgetExhausted,
}

/// An evaluation error, with names as sequences of characters and values
/// as their views.
pub enum EvalErrorView {
    UnresolvedVariable(Seq<char>),
    NotAFunction(Seq<char>),
    ArityMismatch { name: Seq<char>, expected: usize, given: usize },
    InvalidOperands { operation: Operation, left: ValueView, right: ValueView },
    AssignVoid(Seq<char>),
    AssignToBuiltin(Seq<char>),
    ConditionNotBoolean(ValueView),
    UnsupportedPrefix(PrefixOperator),
    Native(Seq<char>),
    BudgetExhausted,
}

impl View for EvalError {
    type V = EvalErrorView;

    open spec fn view(&self) -> EvalErrorView {
        match self {
            EvalError::UnresolvedVariable(name) => EvalErrorView::UnresolvedVariable(name@),
            EvalError::NotAFunction(name) => EvalErrorView::NotAFunction(name@),
            EvalError::ArityMismatch { name, expected, given } => EvalErrorView::ArityMismatch {
                name: name@,
                expected: *expected,
                given: *given,
            },
            EvalError::InvalidOperands { operation, left, right } => {
                EvalErrorView::InvalidOperands {
                    operation: *operation,
                    left: left@,
                    right: right@,
                }
            },
            EvalError::AssignVoid(name) => EvalErrorView::AssignVoid(name@),
            EvalError::AssignToBuiltin(name) => EvalErrorView::AssignToBuiltin(name@),
            EvalError::ConditionNotBoolean(value) => EvalErrorView::ConditionNotBoolean(value@),
            EvalError::UnsupportedPrefix(operator) => EvalErrorView::UnsupportedPrefix(*operator),
            EvalError::Native(message) => EvalErrorView::Native(message@),
            EvalError::BudgetExhausted => EvalErrorView::BudgetExhausted,
        }
    }
}

} // verus!
