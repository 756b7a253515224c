//! Comparisons of values: `==`, `<=`, `>=`, `>` and `<`.
//!
//! Two numbers are ordered by the numeric unit, two strings by their bytes.
//! Any other pairing is an error that names both operands.

use super::basic::invalid;
use super::errors::{EvalError, EvalErrorView, Operation};
use super::{outcome_view, Value, ValueView};
use crate::number::{order_gives, Number, Numerics, Order};
use vstd::prelude::*;
use vstd::string::StringSliceAdditionalSpecFns;

verus! {

/// The five comparisons.
#[derive(Clone, Copy, PartialEq, Eq, Structural, Debug)]
pub enum Comparison {
    Equals,
    LessThanOrEquals,
    GreaterThanOrEquals,
    GreaterThan,
    LessThan,
}

/// Whether `comparison` holds of two operands that compare as `order`
/// says. Of unordered operands none holds.
pub open spec fn holds(comparison: Comparison, order: Option<Order>) -> bool {
    match comparison {
        Comparison::Equals => order == Some(Order::Equal),
        Comparison::LessThanOrEquals => order == Some(Order::Less) || order == Some(Order::Equal),
        Comparison::GreaterThanOrEquals => order == Some(Order::Greater) || order == Some(
            Order::Equal,
        ),
        Comparison::GreaterThan => order == Some(Order::Greater),
        Comparison::LessThan => order == Some(Order::Less),
    }
}

/// How the bytes of `left` from position `from` on compare to those of
/// `right`, in dictionary order.
pub open spec fn bytes_order(left: Seq<u8>, right: Seq<u8>, from: int) -> Order
    decreases left.len() - from,
{
    if from < 0 || from >= left.len() {
        if from >= right.len() {
            Order::Equal
        } else {
            Order::Less
        }
    } else if from >= right.len() {
        Order::Greater
    } else if left[from] < right[from] {
        Order::Less
    } else if left[from] > right[from] {
        Order::Greater
    } else {
        bytes_order(left, right, from + 1)
    }
}

/// How two strings compare: as their UTF-8 bytes do, in dictionary order.
pub open spec fn text_order(left: Seq<char>, right: Seq<char>) -> Order {
    bytes_order(vstd::utf8::encode_utf8(left), vstd::utf8::encode_utf8(right), 0)
}

/// Whether `comparison` holds of two strings: equality is that of the
/// strings, the others go by [`text_order`].
pub open spec fn text_holds(comparison: Comparison, left: Seq<char>, right: Seq<char>) -> bool {
    if comparison == Comparison::Equals {
        left == right
    } else {
        holds(comparison, Some(text_order(left, right)))
    }
}

/// `result` says whether `comparison` holds of an order that the unit
/// gives for `x` and `y`.
pub open spec fn number_compares<N: Numerics>(
    unit: &N,
    comparison: Comparison,
    x: Number,
    y: Number,
    result: Result<ValueView, EvalErrorView>,
) -> bool {
    exists|order: Option<Order>|
        #[trigger] order_gives(unit, x, y, order) && result == Ok::<ValueView, EvalErrorView>(
            ValueView::Bool(holds(comparison, order)),
        )
}

/// `result` is what `comparison` gives on `left` and `right`:
/// - on two numbers, whether it holds of an order that the unit gives;
/// - on two strings, whether it holds of them;
/// - on anything else, the failure that names the operands.
pub open spec fn compares<N: Numerics>(
    unit: &N,
    comparison: Comparison,
    left: ValueView,
    right: ValueView,
    result: Result<ValueView, EvalErrorView>,
) -> bool {
    match (left, right) {
        (ValueView::Number(x), ValueView::Number(y)) => number_compares(
            unit,
            comparison,
            x,
            y,
            result,
        ),
        (ValueView::Str(x), ValueView::Str(y)) => result == Ok::<ValueView, EvalErrorView>(
            ValueView::Bool(text_holds(comparison, x, y)),
        ),
        _ => result == invalid(Operation::Compare, left, right),
    }
}

/// Whether `comparison` holds of operands in the order `order`.
fn decide(comparison: Comparison, order: Option<Order>) -> (yes: bool)
    ensures
        yes == holds(comparison, order),
{
    match order {
        None => false,
        Some(Order::Less) => match comparison {
            Comparison::LessThan | Comparison::LessThanOrEquals => true,
            _ => false,
        },
        Some(Order::Equal) => match comparison {
            Comparison::Equals
            | Comparison::LessThanOrEquals
            | Comparison::GreaterThanOrEquals => true,
            _ => false,
        },
        Some(Order::Greater) => match comparison {
            Comparison::GreaterThan | Comparison::GreaterThanOrEquals => true,
            _ => false,
        },
    }
}

/// How two byte strings compare in dictionary order.
fn order_bytes(left: &[u8], right: &[u8]) -> (order: Order)
    ensures
        order == bytes_order(left@, right@, 0),
{
    let mut at: usize = 0;
    loop
        invariant
            at <= left.len(),
            at <= right.len(),
            bytes_order(left@, right@, 0) == bytes_order(left@, right@, at as int),
        decreases left.len() - at,
    {
        if at >= left.len() {
            if at >= right.len() {
                return Order::Equal;
            }
            return Order::Less;
        }
        if at >= right.len() {
            return Order::Greater;
        }
        if left[at] < right[at] {
            return Order::Less;
        }
        if left[at] > right[at] {
            return Order::Greater;
        }
        at += 1;
    }
}

/// The comparison of two values.
pub fn compare<N: Numerics>(comparison: Comparison, x: Value, other: Value, unit: &N) -> (result:
    Result<Value, EvalError>)
    ensures
        compares(unit, comparison, x@, other@, outcome_view(result)),
{
    match (x, other) {
        (Value::Number(n), Value::Number(y)) => {
            let order = unit.order(n, y);
            assert(order_gives(unit, n, y, order));
            Ok(Value::Bool(decide(comparison, order)))
        },
        (Value::Str(s), Value::Str(y)) => {
            let yes = match comparison {
                Comparison::Equals => s == y,
                _ => decide(comparison, Some(order_bytes(s.as_str().as_bytes(), y.as_str().as_bytes()))),
            };
            Ok(Value::Bool(yes))
        },
        (left, right) => Err(
            EvalError::InvalidOperands { operation: Operation::Compare, left, right },
        ),
    }
}

/// Whether the two values are equal.
pub fn equals<N: Numerics>(x: Value, other: Value, unit: &N) -> (result: Result<Value, EvalError>)
    ensures
        compares(unit, Comparison::Equals, x@, other@, outcome_view(result)),
{
    compare(Comparison::Equals, x, other, unit)
}

/// Whether the first value is at most the second.
pub fn less_than_equals<N: Numerics>(x: Value, other: Value, unit: &N) -> (result: Result<
    Value,
    EvalError,
>)
    ensures
        compares(unit, Comparison::LessThanOrEquals, x@, other@, outcome_view(result)),
{
    compare(Comparison::LessThanOrEquals, x, other, unit)
}

/// Whether the first value is at least the second.
pub fn greater_than_equals<N: Numerics>(x: Value, other: Value, unit: &N) -> (result: Result<
    Value,
    EvalError,
>)
    ensures
        compares(unit, Comparison::GreaterThanOrEquals, x@, other@, outcome_view(result)),
{
    compare(Comparison::GreaterThanOrEquals, x, other, unit)
}

/// Whether the first value is above the second.
pub fn greater_than<N: Numerics>(x: Value, other: Value, unit: &N) -> (result: Result<
    Value,
    EvalError,
>)
    ensures
        compares(unit, Comparison::GreaterThan, x@, other@, outcome_view(result)),
{
    compare(Comparison::GreaterThan, x, other, unit)
}

/// Whether the first value is below the second.
pub fn less_than<N: Numerics>(x: Value, other: Value, unit: &N) -> (result: Result<
    Value,
    EvalError,
>)
    ensures
        compares(unit, Comparison::LessThan, x@, other@, outcome_view(result)),
{
    compare(Comparison::LessThan, x, other, unit)
}

} // verus!
