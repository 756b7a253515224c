//! Evaluation is deterministic where the host is.
//!
//! The relations of evaluation leave open only what the host answers. With
//! a host that answers every question in one way only, each of them has one
//! ending, and a whole run has one end.

use super::basic::{computes, repeated};
use super::boolean::{compares, holds, number_compares, Comparison};
use super::errors::EvalErrorView;
use super::semantics::{
    applies, assigns, binary, bind, body_runs, branches, calls, done, enters, evaluates, failed,
    gathers, gathers_next, inside, invokes, lasts, native, passes, repeats, resolve, runs,
    runs_from, second_operand, spends, stored, Context, Gathered, Outcome, State,
};
use super::{call_gives, Host, ValueView};
use crate::interpreter::{executes, executes_on, processes, FailureView, Run};
use crate::lexer::{collects, lexing_is_deterministic, LexErrorView, TokenView};
use crate::number::{
    arithmetic_gives, literal_is_determined, order_gives, truncate_gives, Arithmetic, Number,
    Order,
};
use crate::parser::grammar::expression;
use crate::parser::operators::{InfixOperator, PrefixOperator};
use crate::parser::{ExpressionView, Precedence};
use vstd::prelude::*;

verus! {

/// The host answers every question in one way only: it values a literal,
/// combines, orders and truncates numbers, and runs a builtin on given
/// arguments always with the same result.
pub open spec fn host_is_determined<H: Host>(host: &H) -> bool {
    &&& literal_is_determined(host)
    &&& forall|operation: Arithmetic, left: Number, right: Number, a: Number, b: Number|
        #[trigger] arithmetic_gives(host, operation, left, right, a) && #[trigger] arithmetic_gives(
            host,
            operation,
            left,
            right,
            b,
        ) ==> a == b
    &&& forall|left: Number, right: Number, a: Option<Order>, b: Option<Order>|
        #[trigger] order_gives(host, left, right, a) && #[trigger] order_gives(
            host,
            left,
            right,
            b,
        ) ==> a == b
    &&& forall|value: Number, a: usize, b: usize|
        #[trigger] truncate_gives(host, value, a) && #[trigger] truncate_gives(host, value, b)
            ==> a == b
    &&& forall|
        handle: usize,
        arguments: Seq<ValueView>,
        a: Result<ValueView, Seq<char>>,
        b: Result<ValueView, Seq<char>>,
    |
        #[trigger] call_gives(host, handle, arguments, a) && #[trigger] call_gives(
            host,
            handle,
            arguments,
            b,
        ) ==> a == b
}

/// An arithmetic operation on two values has one result.
proof fn computes_is_deterministic<H: Host>(
    host: &H,
    operation: Arithmetic,
    left: ValueView,
    right: ValueView,
    a: Result<ValueView, EvalErrorView>,
    b: Result<ValueView, EvalErrorView>,
)
    requires
        host_is_determined(host),
        computes(host, operation, left, right, a),
        computes(host, operation, left, right, b),
    ensures
        a == b,
{
    match (left, right) {
        (ValueView::Str(x), ValueView::Number(y)) => {
            if operation == Arithmetic::Mul {
                assert(super::basic::repeats(host, x, y, a));
                assert(super::basic::repeats(host, x, y, b));
                let first = choose|count: usize| #[trigger]
                    truncate_gives(host, y, count) && a == Ok::<ValueView, EvalErrorView>(
                        ValueView::Str(repeated(x, count as nat)),
                    );
                let second = choose|count: usize| #[trigger]
                    truncate_gives(host, y, count) && b == Ok::<ValueView, EvalErrorView>(
                        ValueView::Str(repeated(x, count as nat)),
                    );
                assert(first == second);
            }
        },
        _ => {},
    }
}

/// A comparison of two values has one result.
proof fn compares_is_deterministic<H: Host>(
    host: &H,
    comparison: Comparison,
    left: ValueView,
    right: ValueView,
    a: Result<ValueView, EvalErrorView>,
    b: Result<ValueView, EvalErrorView>,
)
    requires
        host_is_determined(host),
        compares(host, comparison, left, right, a),
        compares(host, comparison, left, right, b),
    ensures
        a == b,
{
    match (left, right) {
        (ValueView::Number(x), ValueView::Number(y)) => {
            assert(number_compares(host, comparison, x, y, a));
            assert(number_compares(host, comparison, x, y, b));
            let first = choose|order: Option<Order>| #[trigger]
                order_gives(host, x, y, order) && a == Ok::<ValueView, EvalErrorView>(
                    ValueView::Bool(holds(comparison, order)),
                );
            let second = choose|order: Option<Order>| #[trigger]
                order_gives(host, x, y, order) && b == Ok::<ValueView, EvalErrorView>(
                    ValueView::Bool(holds(comparison, order)),
                );
            assert(first == second);
        },
        _ => {},
    }
}

/// An infix operator on two values has one result.
proof fn applies_is_deterministic<H: Host>(
    host: &H,
    operator: InfixOperator,
    left: ValueView,
    right: ValueView,
    a: Result<ValueView, EvalErrorView>,
    b: Result<ValueView, EvalErrorView>,
)
    requires
        host_is_determined(host),
        applies(host, operator, left, right, a),
        applies(host, operator, left, right, b),
    ensures
        a == b,
{
    match operator {
        InfixOperator::Add => computes_is_deterministic(host, Arithmetic::Add, left, right, a, b),
        InfixOperator::Sub => computes_is_deterministic(host, Arithmetic::Sub, left, right, a, b),
        InfixOperator::Mul => computes_is_deterministic(host, Arithmetic::Mul, left, right, a, b),
        InfixOperator::Div => computes_is_deterministic(host, Arithmetic::Div, left, right, a, b),
        InfixOperator::Equals => compares_is_deterministic(
            host,
            Comparison::Equals,
            left,
            right,
            a,
            b,
        ),
        InfixOperator::LessThan => compares_is_deterministic(
            host,
            Comparison::LessThan,
            left,
            right,
            a,
            b,
        ),
        InfixOperator::LessThanOrEquals => compares_is_deterministic(
            host,
            Comparison::LessThanOrEquals,
            left,
            right,
            a,
            b,
        ),
        InfixOperator::GreaterThan => compares_is_deterministic(
            host,
            Comparison::GreaterThan,
            left,
            right,
            a,
            b,
        ),
        InfixOperator::GreaterThanOrEquals => compares_is_deterministic(
            host,
            Comparison::GreaterThanOrEquals,
            left,
            right,
            a,
            b,
        ),
    }
}

/// The call of a builtin on given values has one result.
proof fn native_is_deterministic<H: Host>(
    host: &H,
    handle: usize,
    values: Seq<ValueView>,
    a: Result<ValueView, EvalErrorView>,
    b: Result<ValueView, EvalErrorView>,
)
    requires
        host_is_determined(host),
        native(host, handle, values, a),
        native(host, handle, values, b),
    ensures
        a == b,
{
    let first: Result<ValueView, Seq<char>> = match a {
        Ok(value) => Ok(value),
        Err(EvalErrorView::Native(message)) => Err(message),
        Err(_) => Err(Seq::empty()),
    };
    let second: Result<ValueView, Seq<char>> = match b {
        Ok(value) => Ok(value),
        Err(EvalErrorView::Native(message)) => Err(message),
        Err(_) => Err(Seq::empty()),
    };
    assert(call_gives(host, handle, values, first));
    assert(call_gives(host, handle, values, second));
    assert(first == second);
}

/// The evaluation of an expression from a state has one ending.
proof fn evaluates_is_deterministic<H: Host>(
    context: Context<H>,
    expression: ExpressionView,
    before: State,
    a: Outcome,
    b: Outcome,
)
    requires
        host_is_determined(&context.host),
        evaluates(context, expression, before, a),
        evaluates(context, expression, before, b),
    ensures
        a == b,
    decreases before.budget, 0int, 0int,
{
    if before.budget != 0 {
        let start = State { budget: (before.budget - 1) as nat, ..before };
        match expression {
            ExpressionView::Prefix(operator, operand) => {
                if operator == PrefixOperator::Positive {
                    evaluates_is_deterministic(context, *operand, start, a, b);
                }
            },
            ExpressionView::Infix(operator, left, right) => {
                binary_is_deterministic(context, operator, *left, *right, start, a, b);
            },
            ExpressionView::Assignment(name, value) => {
                assigns_is_deterministic(context, name, *value, start, a, b);
            },
            ExpressionView::If(condition, consequence, alternative) => {
                branches_is_deterministic(context, *condition, consequence, alternative, start, a, b);
            },
            ExpressionView::While(condition, body) => {
                repeats_is_deterministic(context, *condition, body, start, a, b);
            },
            ExpressionView::FunctionCall(name, arguments) => {
                calls_is_deterministic(context, name, arguments, start, a, b);
            },
            _ => {},
        }
    }
}

/// An infix operator with its operands has one ending.
proof fn binary_is_deterministic<H: Host>(
    context: Context<H>,
    operator: InfixOperator,
    left: ExpressionView,
    right: ExpressionView,
    before: State,
    a: Outcome,
    b: Outcome,
)
    requires
        host_is_determined(&context.host),
        binary(context, operator, left, right, before, a),
        binary(context, operator, left, right, before, b),
    ensures
        a == b,
    decreases before.budget, 5int, 0int,
{
    let first_a = choose|first: Outcome| #[trigger]
        lasts(before, first) && evaluates(context, left, before, first) && (
        match first.result {
            Err(_) => a == first,
            Ok(value) => second_operand(context, operator, value, right, first.state, a),
        });
    let first_b = choose|first: Outcome| #[trigger]
        lasts(before, first) && evaluates(context, left, before, first) && (
        match first.result {
            Err(_) => b == first,
            Ok(value) => second_operand(context, operator, value, right, first.state, b),
        });
    evaluates_is_deterministic(context, left, before, first_a, first_b);
    if let Ok(value) = first_a.result {
        second_operand_is_deterministic(context, operator, value, right, first_a.state, a, b);
    }
}

/// The right operand and the operator have one ending.
proof fn second_operand_is_deterministic<H: Host>(
    context: Context<H>,
    operator: InfixOperator,
    left: ValueView,
    right: ExpressionView,
    before: State,
    a: Outcome,
    b: Outcome,
)
    requires
        host_is_determined(&context.host),
        second_operand(context, operator, left, right, before, a),
        second_operand(context, operator, left, right, before, b),
    ensures
        a == b,
    decreases before.budget, 4int, 0int,
{
    let second_a = choose|second: Outcome| #[trigger]
        lasts(before, second) && evaluates(context, right, before, second) && (match second.result {
            Err(_) => a == second,
            Ok(value) => a.state == second.state && applies(
                &context.host,
                operator,
                left,
                value,
                a.result,
            ),
        });
    let second_b = choose|second: Outcome| #[trigger]
        lasts(before, second) && evaluates(context, right, before, second) && (match second.result {
            Err(_) => b == second,
            Ok(value) => b.state == second.state && applies(
                &context.host,
                operator,
                left,
                value,
                b.result,
            ),
        });
    evaluates_is_deterministic(context, right, before, second_a, second_b);
    if let Ok(value) = second_a.result {
        applies_is_deterministic(&context.host, operator, left, value, a.result, b.result);
    }
}

/// An assignment has one ending.
proof fn assigns_is_deterministic<H: Host>(
    context: Context<H>,
    name: Seq<char>,
    value: ExpressionView,
    before: State,
    a: Outcome,
    b: Outcome,
)
    requires
        host_is_determined(&context.host),
        assigns(context, name, value, before, a),
        assigns(context, name, value, before, b),
    ensures
        a == b,
    decreases before.budget, 5int, 0int,
{
    let right_a = choose|right: Outcome| #[trigger]
        lasts(before, right) && evaluates(context, value, before, right) && a == stored(
            context,
            name,
            right,
        );
    let right_b = choose|right: Outcome| #[trigger]
        lasts(before, right) && evaluates(context, value, before, right) && b == stored(
            context,
            name,
            right,
        );
    evaluates_is_deterministic(context, value, before, right_a, right_b);
}

/// A conditional has one ending.
proof fn branches_is_deterministic<H: Host>(
    context: Context<H>,
    condition: ExpressionView,
    consequence: Seq<ExpressionView>,
    alternative: Option<Seq<ExpressionView>>,
    before: State,
    a: Outcome,
    b: Outcome,
)
    requires
        host_is_determined(&context.host),
        branches(context, condition, consequence, alternative, before, a),
        branches(context, condition, consequence, alternative, before, b),
    ensures
        a == b,
    decreases before.budget, 5int, 0int,
{
    let test_a = choose|test: Outcome| #[trigger]
        lasts(before, test) && evaluates(context, condition, before, test) && (
        match test.result {
            Err(_) => a == test,
            Ok(ValueView::Bool(true)) => runs(context, consequence, test.state, a),
            Ok(ValueView::Bool(false)) => match alternative {
                Some(block) => runs(context, block, test.state, a),
                None => a == done(ValueView::Void, test.state),
            },
            Ok(other) => a == failed(EvalErrorView::ConditionNotBoolean(other), test.state),
        });
    let test_b = choose|test: Outcome| #[trigger]
        lasts(before, test) && evaluates(context, condition, before, test) && (
        match test.result {
            Err(_) => b == test,
            Ok(ValueView::Bool(true)) => runs(context, consequence, test.state, b),
            Ok(ValueView::Bool(false)) => match alternative {
                Some(block) => runs(context, block, test.state, b),
                None => b == done(ValueView::Void, test.state),
            },
            Ok(other) => b == failed(EvalErrorView::ConditionNotBoolean(other), test.state),
        });
    evaluates_is_deterministic(context, condition, before, test_a, test_b);
    match test_a.result {
        Ok(ValueView::Bool(true)) => {
            runs_is_deterministic(context, consequence, test_a.state, a, b);
        },
        Ok(ValueView::Bool(false)) => {
            if let Some(block) = alternative {
                runs_is_deterministic(context, block, test_a.state, a, b);
            }
        },
        _ => {},
    }
}

/// A block has one ending.
proof fn runs_is_deterministic<H: Host>(
    context: Context<H>,
    block: Seq<ExpressionView>,
    before: State,
    a: Outcome,
    b: Outcome,
)
    requires
        host_is_determined(&context.host),
        runs(context, block, before, a),
        runs(context, block, before, b),
    ensures
        a == b,
    decreases before.budget, 2int, 0int,
{
    if block.len() != 0 {
        runs_from_is_deterministic(context, block, 0, before, a, b);
    }
}

/// The rest of a block has one ending.
proof fn runs_from_is_deterministic<H: Host>(
    context: Context<H>,
    block: Seq<ExpressionView>,
    from: int,
    before: State,
    a: Outcome,
    b: Outcome,
)
    requires
        host_is_determined(&context.host),
        runs_from(context, block, from, before, a),
        runs_from(context, block, from, before, b),
    ensures
        a == b,
    decreases before.budget, 1int, block.len() - from,
{
    let item_a = choose|item: Outcome| #[trigger]
        lasts(before, item) && evaluates(context, block[from], before, item) && (
        if item.result is Err || !(0 <= from < block.len() - 1) {
            a == item
        } else {
            runs_from(context, block, from + 1, item.state, a)
        });
    let item_b = choose|item: Outcome| #[trigger]
        lasts(before, item) && evaluates(context, block[from], before, item) && (
        if item.result is Err || !(0 <= from < block.len() - 1) {
            b == item
        } else {
            runs_from(context, block, from + 1, item.state, b)
        });
    evaluates_is_deterministic(context, block[from], before, item_a, item_b);
    if !(item_a.result is Err || !(0 <= from < block.len() - 1)) {
        runs_from_is_deterministic(context, block, from + 1, item_a.state, a, b);
    }
}

/// A loop has one ending.
proof fn repeats_is_deterministic<H: Host>(
    context: Context<H>,
    condition: ExpressionView,
    body: Seq<ExpressionView>,
    before: State,
    a: Outcome,
    b: Outcome,
)
    requires
        host_is_determined(&context.host),
        repeats(context, condition, body, before, a),
        repeats(context, condition, body, before, b),
    ensures
        a == b,
    decreases before.budget, 3int, 0int,
{
    let test_a = choose|test: Outcome| #[trigger]
        lasts(before, test) && evaluates(context, condition, before, test) && (match test.result {
            Err(_) => a == test,
            Ok(ValueView::Bool(false)) => a == done(ValueView::Void, test.state),
            Ok(ValueView::Bool(true)) => test.state.budget < before.budget && passes(
                context,
                condition,
                body,
                test.state,
                a,
            ),
            Ok(other) => a == failed(EvalErrorView::ConditionNotBoolean(other), test.state),
        });
    let test_b = choose|test: Outcome| #[trigger]
        lasts(before, test) && evaluates(context, condition, before, test) && (match test.result {
            Err(_) => b == test,
            Ok(ValueView::Bool(false)) => b == done(ValueView::Void, test.state),
            Ok(ValueView::Bool(true)) => test.state.budget < before.budget && passes(
                context,
                condition,
                body,
                test.state,
                b,
            ),
            Ok(other) => b == failed(EvalErrorView::ConditionNotBoolean(other), test.state),
        });
    evaluates_is_deterministic(context, condition, before, test_a, test_b);
    if test_a.result == Ok::<ValueView, EvalErrorView>(ValueView::Bool(true)) {
        passes_is_deterministic(context, condition, body, test_a.state, a, b);
    }
}

/// A pass of a loop and the loop after it have one ending.
proof fn passes_is_deterministic<H: Host>(
    context: Context<H>,
    condition: ExpressionView,
    body: Seq<ExpressionView>,
    before: State,
    a: Outcome,
    b: Outcome,
)
    requires
        host_is_determined(&context.host),
        passes(context, condition, body, before, a),
        passes(context, condition, body, before, b),
    ensures
        a == b,
    decreases before.budget, 4int, 0int,
{
    let pass_a = choose|pass: Outcome| #[trigger]
        lasts(before, pass) && runs(context, body, before, pass) && (
        match pass.result {
            Err(_) => a == pass,
            Ok(_) => repeats(context, condition, body, pass.state, a),
        });
    let pass_b = choose|pass: Outcome| #[trigger]
        lasts(before, pass) && runs(context, body, before, pass) && (
        match pass.result {
            Err(_) => b == pass,
            Ok(_) => repeats(context, condition, body, pass.state, b),
        });
    runs_is_deterministic(context, body, before, pass_a, pass_b);
    if pass_a.result is Ok {
        repeats_is_deterministic(context, condition, body, pass_a.state, a, b);
    }
}

/// The evaluation of arguments has one ending.
proof fn gathers_is_deterministic<H: Host>(
    context: Context<H>,
    arguments: Seq<ExpressionView>,
    from: int,
    before: State,
    values: Seq<ValueView>,
    a: Gathered,
    b: Gathered,
)
    requires
        host_is_determined(&context.host),
        gathers(context, arguments, from, before, values, a),
        gathers(context, arguments, from, before, values, b),
    ensures
        a == b,
    decreases before.budget, 1int, 2 * (arguments.len() - from) + 1,
{
    if 0 <= from < arguments.len() {
        gathers_next_is_deterministic(context, arguments, from, before, values, a, b);
    }
}

/// The evaluation of an argument and of those after it has one ending.
proof fn gathers_next_is_deterministic<H: Host>(
    context: Context<H>,
    arguments: Seq<ExpressionView>,
    from: int,
    before: State,
    values: Seq<ValueView>,
    a: Gathered,
    b: Gathered,
)
    requires
        host_is_determined(&context.host),
        gathers_next(context, arguments, from, before, values, a),
        gathers_next(context, arguments, from, before, values, b),
    ensures
        a == b,
    decreases before.budget, 1int, 2 * (arguments.len() - from),
{
    let item_a = choose|item: Outcome| #[trigger]
        lasts(before, item) && evaluates(context, arguments[from], before, item) && (
        match item.result {
            Err(error) => a == (Gathered { result: Err(error), state: item.state }),
            Ok(value) => 0 <= from < arguments.len() && gathers(
                context,
                arguments,
                from + 1,
                item.state,
                values.push(value),
                a,
            ),
        });
    let item_b = choose|item: Outcome| #[trigger]
        lasts(before, item) && evaluates(context, arguments[from], before, item) && (
        match item.result {
            Err(error) => b == (Gathered { result: Err(error), state: item.state }),
            Ok(value) => 0 <= from < arguments.len() && gathers(
                context,
                arguments,
                from + 1,
                item.state,
                values.push(value),
                b,
            ),
        });
    evaluates_is_deterministic(context, arguments[from], before, item_a, item_b);
    if let Ok(value) = item_a.result {
        gathers_is_deterministic(context, arguments, from + 1, item_a.state, values.push(value), a, b);
    }
}

/// A call has one ending.
proof fn calls_is_deterministic<H: Host>(
    context: Context<H>,
    name: Seq<char>,
    arguments: Seq<ExpressionView>,
    before: State,
    a: Outcome,
    b: Outcome,
)
    requires
        host_is_determined(&context.host),
        calls(context, name, arguments, before, a),
        calls(context, name, arguments, before, b),
    ensures
        a == b,
    decreases before.budget, 6int, 0int,
{
    match resolve(context, before.variables, name) {
        Ok(ValueView::BuiltinFunction(minimum, handle)) => {
            if !(arguments.len() < minimum) {
                invokes_is_deterministic(context, handle, arguments, before, a, b);
            }
        },
        Ok(ValueView::Function(parameters, body)) => {
            if !(arguments.len() != parameters.len()) {
                enters_is_deterministic(context, parameters, body, arguments, before, a, b);
            }
        },
        _ => {},
    }
}

/// The call of a builtin has one ending.
proof fn invokes_is_deterministic<H: Host>(
    context: Context<H>,
    handle: usize,
    arguments: Seq<ExpressionView>,
    before: State,
    a: Outcome,
    b: Outcome,
)
    requires
        host_is_determined(&context.host),
        invokes(context, handle, arguments, before, a),
        invokes(context, handle, arguments, before, b),
    ensures
        a == b,
    decreases before.budget, 5int, 0int,
{
    let passed_a = choose|passed: Gathered| #[trigger]
        spends(before, passed) && gathers(context, arguments, 0, before, Seq::empty(), passed) && (
        match passed.result {
            Err(error) => a == failed(error, passed.state),
            Ok(values) => a.state == passed.state && native(
                &context.host,
                handle,
                values,
                a.result,
            ),
        });
    let passed_b = choose|passed: Gathered| #[trigger]
        spends(before, passed) && gathers(context, arguments, 0, before, Seq::empty(), passed) && (
        match passed.result {
            Err(error) => b == failed(error, passed.state),
            Ok(values) => b.state == passed.state && native(
                &context.host,
                handle,
                values,
                b.result,
            ),
        });
    gathers_is_deterministic(context, arguments, 0, before, Seq::empty(), passed_a, passed_b);
    if let Ok(values) = passed_a.result {
        native_is_deterministic(&context.host, handle, values, a.result, b.result);
    }
}

/// The call of a user function has one ending.
proof fn enters_is_deterministic<H: Host>(
    context: Context<H>,
    parameters: Seq<Seq<char>>,
    body: Seq<ExpressionView>,
    arguments: Seq<ExpressionView>,
    before: State,
    a: Outcome,
    b: Outcome,
)
    requires
        host_is_determined(&context.host),
        enters(context, parameters, body, arguments, before, a),
        enters(context, parameters, body, arguments, before, b),
    ensures
        a == b,
    decreases before.budget, 5int, 0int,
{
    let passed_a = choose|passed: Gathered| #[trigger]
        spends(before, passed) && gathers(context, arguments, 0, before, Seq::empty(), passed) && (
        match passed.result {
            Err(error) => a == failed(error, passed.state),
            Ok(values) => body_runs(context, parameters, body, values, passed.state, a),
        });
    let passed_b = choose|passed: Gathered| #[trigger]
        spends(before, passed) && gathers(context, arguments, 0, before, Seq::empty(), passed) && (
        match passed.result {
            Err(error) => b == failed(error, passed.state),
            Ok(values) => body_runs(context, parameters, body, values, passed.state, b),
        });
    gathers_is_deterministic(context, arguments, 0, before, Seq::empty(), passed_a, passed_b);
    if let Ok(values) = passed_a.result {
        body_runs_is_deterministic(context, parameters, body, values, passed_a.state, a, b);
    }
}

/// The body of a called function has one ending.
proof fn body_runs_is_deterministic<H: Host>(
    context: Context<H>,
    parameters: Seq<Seq<char>>,
    body: Seq<ExpressionView>,
    values: Seq<ValueView>,
    before: State,
    a: Outcome,
    b: Outcome,
)
    requires
        host_is_determined(&context.host),
        body_runs(context, parameters, body, values, before, a),
        body_runs(context, parameters, body, values, before, b),
    ensures
        a == b,
    decreases before.budget, 3int, 0int,
{
    let inner_a = choose|inner: Outcome| #[trigger]
        lasts(before, inner) && runs(
            inside(context, before.variables),
            body,
            State { variables: bind(parameters, values, parameters.len()), budget: before.budget },
            inner,
        ) && a == (Outcome {
            result: inner.result,
            state: State { variables: before.variables, budget: inner.state.budget },
        });
    let inner_b = choose|inner: Outcome| #[trigger]
        lasts(before, inner) && runs(
            inside(context, before.variables),
            body,
            State { variables: bind(parameters, values, parameters.len()), budget: before.budget },
            inner,
        ) && b == (Outcome {
            result: inner.result,
            state: State { variables: before.variables, budget: inner.state.budget },
        });
    runs_is_deterministic(
        inside(context, before.variables),
        body,
        State { variables: bind(parameters, values, parameters.len()), budget: before.budget },
        inner_a,
        inner_b,
    );
}

/// Evaluation is deterministic: with a host that answers every question
/// in one way only, two evaluations of one expression from one state, in
/// one context, end with the same result in the same state.
pub proof fn evaluation_is_deterministic<H: Host>(
    context: Context<H>,
    expression: ExpressionView,
    before: State,
    first: Outcome,
    second: Outcome,
)
    requires
        host_is_determined(&context.host),
        evaluates(context, expression, before, first),
        evaluates(context, expression, before, second),
    ensures
        first == second,
{
    evaluates_is_deterministic(context, expression, before, first, second);
}

/// The expressions of given tokens, run one after the other, have one end.
proof fn executes_is_deterministic<H: Host>(
    context: Context<H>,
    tokens: Seq<TokenView>,
    at: int,
    before: State,
    a: Run,
    b: Run,
)
    requires
        host_is_determined(&context.host),
        executes(context, tokens, at, before, a),
        executes(context, tokens, at, before, b),
    ensures
        a == b,
    decreases tokens.len() - at, 1int,
{
    let parsed = expression(tokens, at, Precedence::Lowest);
    if let Ok(Some(statement)) = parsed.result {
        executes_on_is_deterministic(context, tokens, parsed.position, statement, before, a, b);
    }
}

/// The evaluation of a statement and the run after it have one end.
proof fn executes_on_is_deterministic<H: Host>(
    context: Context<H>,
    tokens: Seq<TokenView>,
    next: int,
    statement: ExpressionView,
    before: State,
    a: Run,
    b: Run,
)
    requires
        host_is_determined(&context.host),
        executes_on(context, tokens, next, statement, before, a),
        executes_on(context, tokens, next, statement, before, b),
    ensures
        a == b,
    decreases tokens.len() - next, 2int,
{
    let value_a = choose|value: Outcome| #[trigger]
        lasts(before, value) && evaluates(context, statement, before, value) && (
        match value.result {
            Err(error) => a == (Run { result: Err(FailureView::Eval(error)), state: value.state }),
            Ok(_) => executes(context, tokens, next, value.state, a),
        });
    let value_b = choose|value: Outcome| #[trigger]
        lasts(before, value) && evaluates(context, statement, before, value) && (
        match value.result {
            Err(error) => b == (Run { result: Err(FailureView::Eval(error)), state: value.state }),
            Ok(_) => executes(context, tokens, next, value.state, b),
        });
    evaluates_is_deterministic(context, statement, before, value_a, value_b);
    if value_a.result is Ok {
        executes_is_deterministic(context, tokens, next, value_a.state, a, b);
    }
}

/// A run is deterministic: with a host that answers every question in one
/// way only, two runs of one text from one state, in one context, return
/// the same result and leave the same state. The tokens of the text depend
/// on the text alone.
pub proof fn run_is_deterministic<H: Host>(
    context: Context<H>,
    text: Seq<char>,
    before: State,
    first: Run,
    second: Run,
)
    requires
        host_is_determined(&context.host),
        processes(context, text, before, first),
        processes(context, text, before, second),
    ensures
        first == second,
{
    let lexed_a = choose|lexed: Result<Seq<TokenView>, LexErrorView>| #[trigger]
        collects(&context.host, text, 0, Seq::empty(), lexed) && (match lexed {
            Err(error) => first == (Run { result: Err(FailureView::Lex(error)), state: before }),
            Ok(tokens) => executes(context, tokens, 0, before, first),
        });
    let lexed_b = choose|lexed: Result<Seq<TokenView>, LexErrorView>| #[trigger]
        collects(&context.host, text, 0, Seq::empty(), lexed) && (match lexed {
            Err(error) => second == (Run { result: Err(FailureView::Lex(error)), state: before }),
            Ok(tokens) => executes(context, tokens, 0, before, second),
        });
    lexing_is_deterministic(&context.host, text, 0, Seq::empty(), lexed_a, lexed_b);
    if let Ok(tokens) = lexed_a {
        executes_is_deterministic(context, tokens, 0, before, first, second);
    }
}

} // verus!
