//! Arithmetic on values: `+`, `-`, `*` and `/`.
//!
//! Numbers are combined by the numeric unit. Two strings are joined by `+`,
//! and a string is repeated by `*` with a number. Any other pairing is an
//! error that names the operation and both operands.

use super::errors::{EvalError, EvalErrorView, Operation};
use super::{outcome_view, Value, ValueView};
use crate::number::{arithmetic_gives, truncate_gives, Arithmetic, Number, Numerics};
use vstd::prelude::*;
use vstd::string::StringExecFns;

verus! {

/// `text`, `count` times in a row.
pub open spec fn repeated(text: Seq<char>, count: nat) -> Seq<char>
    decreases count,
{
    if count == 0 {
        Seq::empty()
    } else {
        repeated(text, (count - 1) as nat) + text
    }
}

/// The operation that an arithmetic failure names.
pub open spec fn attempted(operation: Arithmetic) -> Operation {
    match operation {
        Arithmetic::Add => Operation::Sum,
        Arithmetic::Sub => Operation::Subtract,
        Arithmetic::Mul => Operation::Multiply,
        Arithmetic::Div => Operation::Divide,
    }
}

/// The failure of `operation` on `left` and `right`.
pub open spec fn invalid(operation: Operation, left: ValueView, right: ValueView) -> Result<
    ValueView,
    EvalErrorView,
> {
    Err(EvalErrorView::InvalidOperands { operation, left, right })
}

/// `result` is `text` repeated as often as a truncation of `times` by the
/// unit says.
pub open spec fn repeats<N: Numerics>(
    unit: &N,
    text: Seq<char>,
    times: Number,
    result: Result<ValueView, EvalErrorView>,
) -> bool {
    exists|count: usize| #[trigger]
        truncate_gives(unit, times, count) && result == Ok::<ValueView, EvalErrorView>(
            ValueView::Str(repeated(text, count as nat)),
        )
}

/// `result` is what `operation` gives on `left` and `right`:
/// - on two numbers, a number that the unit gives for them;
/// - for `+` on two strings, the first followed by the second;
/// - for `*` on a string and a number, the string repeated as often as
///   the unit's truncation of the number says;
/// - on anything else, the failure that names the operation and the operands.
pub open spec fn computes<N: Numerics>(
    unit: &N,
    operation: Arithmetic,
    left: ValueView,
    right: ValueView,
    result: Result<ValueView, EvalErrorView>,
) -> bool {
    match (left, right) {
        (ValueView::Number(x), ValueView::Number(y)) => match result {
            Ok(ValueView::Number(z)) => arithmetic_gives(unit, operation, x, y, z),
            _ => false,
        },
        (ValueView::Str(x), ValueView::Str(y)) if operation == Arithmetic::Add => result == Ok::<
            ValueView,
            EvalErrorView,
        >(ValueView::Str(x + y)),
        (ValueView::Str(x), ValueView::Number(y)) if operation == Arithmetic::Mul => repeats(
            unit,
            x,
            y,
            result,
        ),
        _ => result == invalid(attempted(operation), left, right),
    }
}

/// `text`, `count` times in a row.
fn repeat(text: &String, count: usize) -> (out: String)
    ensures
        out@ == repeated(text@, count as nat),
{
    let mut out = String::new();
    let mut done: usize = 0;
    while done < count
        invariant
            done <= count,
            out@ == repeated(text@, done as nat),
        decreases count - done,
    {
        out.append(text.as_str());
        done += 1;
    }
    out
}

/// The failure of `operation` on `left` and `right`.
fn refuse(operation: Operation, left: Value, right: Value) -> (result: Result<Value, EvalError>)
    ensures
        outcome_view(result) == invalid(operation, left@, right@),
{
    Err(EvalError::InvalidOperands { operation, left, right })
}

impl Value {
    /// The sum of two numbers, or two strings joined.
    pub fn add<N: Numerics>(self, other: Value, unit: &N) -> (result: Result<Value, EvalError>)
        ensures
            computes(unit, Arithmetic::Add, self@, other@, outcome_view(result)),
    {
        match (self, other) {
            (Value::Number(x), Value::Number(y)) => Ok(
                Value::Number(unit.arithmetic(Arithmetic::Add, x, y)),
            ),
            (Value::Str(x), Value::Str(y)) => Ok(Value::Str(x.concat(y.as_str()))),
            (left, right) => refuse(Operation::Sum, left, right),
        }
    }

    /// The difference of two numbers.
    pub fn sub<N: Numerics>(self, other: Value, unit: &N) -> (result: Result<Value, EvalError>)
        ensures
            computes(unit, Arithmetic::Sub, self@, other@, outcome_view(result)),
    {
        match (self, other) {
            (Value::Number(x), Value::Number(y)) => Ok(
                Value::Number(unit.arithmetic(Arithmetic::Sub, x, y)),
            ),
            (left, right) => refuse(Operation::Subtract, left, right),
        }
    }

    /// The product of two numbers, or a string repeated.
    pub fn mul<N: Numerics>(self, other: Value, unit: &N) -> (result: Result<Value, EvalError>)
        ensures
            computes(unit, Arithmetic::Mul, self@, other@, outcome_view(result)),
    {
        match (self, other) {
            (Value::Number(x), Value::Number(y)) => Ok(
                Value::Number(unit.arithmetic(Arithmetic::Mul, x, y)),
            ),
            (Value::Str(x), Value::Number(y)) => {
                let count = unit.truncate(y);
                assert(truncate_gives(unit, y, count));
                Ok(Value::Str(repeat(&x, count)))
            },
            (left, right) => refuse(Operation::Multiply, left, right),
        }
    }

    /// The quotient of two numbers.
    pub fn div<N: Numerics>(self, other: Value, unit: &N) -> (result: Result<Value, EvalError>)
        ensures
            computes(unit, Arithmetic::Div, self@, other@, outcome_view(result)),
    {
        match (self, other) {
            (Value::Number(x), Value::Number(y)) => Ok(
                Value::Number(unit.arithmetic(Arithmetic::Div, x, y)),
            ),
            (left, right) => refuse(Operation::Divide, left, right),
        }
    }
}

} // verus!
