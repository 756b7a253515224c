//! What holds of every evaluation.

use super::errors::EvalErrorView;
use super::semantics::{
    arity_mismatch, assigns, body_runs, calls, evaluates, failed, inside, invokes, lasts, passes,
    repeats, resolve, runs, Context, Outcome, State,
};
use super::{Host, ValueView};
use crate::parser::ExpressionView;
use vstd::prelude::*;

verus! {

/// Steps are spent and never given back: an evaluation leaves no more
/// steps than it found, and fewer where it succeeds.
pub proof fn steps_are_spent<H: Host>(
    context: Context<H>,
    expression: ExpressionView,
    before: State,
    ending: Outcome,
)
    requires
        evaluates(context, expression, before, ending),
    ensures
        ending.state.budget <= before.budget,
        ending.result is Ok ==> ending.state.budget < before.budget,
{
}

/// Arity of user functions: a call with another number of arguments than
/// the function has parameters fails with an arity error, and evaluates
/// nothing.
pub proof fn user_function_takes_exactly_its_parameters<H: Host>(
    context: Context<H>,
    name: Seq<char>,
    arguments: Seq<ExpressionView>,
    parameters: Seq<Seq<char>>,
    body: Seq<ExpressionView>,
    before: State,
    ending: Outcome,
)
    requires
        before.budget > 0,
        resolve(context, before.variables, name) == Ok::<ValueView, EvalErrorView>(
            ValueView::Function(parameters, body),
        ),
        arguments.len() != parameters.len(),
        evaluates(context, ExpressionView::FunctionCall(name, arguments), before, ending),
    ensures
        ending == failed(
            arity_mismatch(name, parameters.len() as usize, arguments.len()),
            State { budget: (before.budget - 1) as nat, ..before },
        ),
{
    assert(calls(
        context,
        name,
        arguments,
        State { budget: (before.budget - 1) as nat, ..before },
        ending,
    ));
}

/// Arity of builtins, too few: a call with fewer arguments than the
/// minimum of the builtin fails with an arity error, and evaluates nothing.
pub proof fn builtin_takes_at_least_its_minimum<H: Host>(
    context: Context<H>,
    name: Seq<char>,
    arguments: Seq<ExpressionView>,
    minimum: usize,
    handle: usize,
    before: State,
    ending: Outcome,
)
    requires
        before.budget > 0,
        resolve(context, before.variables, name) == Ok::<ValueView, EvalErrorView>(
            ValueView::BuiltinFunction(minimum, handle),
        ),
        arguments.len() < minimum,
        evaluates(context, ExpressionView::FunctionCall(name, arguments), before, ending),
    ensures
        ending == failed(
            arity_mismatch(name, minimum, arguments.len()),
            State { budget: (before.budget - 1) as nat, ..before },
        ),
{
    assert(calls(
        context,
        name,
        arguments,
        State { budget: (before.budget - 1) as nat, ..before },
        ending,
    ));
}

/// Arity of builtins, enough or more: a call with at least the minimum of
/// arguments evaluates them all and calls the builtin on their values.
pub proof fn builtin_takes_more_than_its_minimum<H: Host>(
    context: Context<H>,
    name: Seq<char>,
    arguments: Seq<ExpressionView>,
    minimum: usize,
    handle: usize,
    before: State,
    ending: Outcome,
)
    requires
        before.budget > 0,
        resolve(context, before.variables, name) == Ok::<ValueView, EvalErrorView>(
            ValueView::BuiltinFunction(minimum, handle),
        ),
        arguments.len() >= minimum,
        evaluates(context, ExpressionView::FunctionCall(name, arguments), before, ending),
    ensures
        invokes(
            context,
            handle,
            arguments,
            State { budget: (before.budget - 1) as nat, ..before },
            ending,
        ),
{
    assert(calls(
        context,
        name,
        arguments,
        State { budget: (before.budget - 1) as nat, ..before },
        ending,
    ));
}

/// Void is not assigned: where the right-hand side of an assignment ends
/// with the value void, the assignment fails and binds nothing.
pub proof fn void_is_not_assigned<H: Host>(
    context: Context<H>,
    name: Seq<char>,
    value: ExpressionView,
    before: State,
    right: Outcome,
)
    requires
        before.budget > 0,
        evaluates(context, value, State { budget: (before.budget - 1) as nat, ..before }, right),
        right.result == Ok::<ValueView, EvalErrorView>(ValueView::Void),
    ensures
        evaluates(
            context,
            ExpressionView::Assignment(name, Box::new(value)),
            before,
            failed(EvalErrorView::AssignVoid(name), right.state),
        ),
{
    let start = State { budget: (before.budget - 1) as nat, ..before };
    let ending = failed(EvalErrorView::AssignVoid(name), right.state);
    assert(lasts(start, right));
    assert(assigns(context, name, value, start, ending));
}

/// A conditional without a branch to take is void: with a false condition
/// and no second block, its value is void and nothing else is evaluated.
pub proof fn conditional_without_branch_is_void<H: Host>(
    context: Context<H>,
    condition: ExpressionView,
    consequence: Seq<ExpressionView>,
    before: State,
    test: Outcome,
)
    requires
        before.budget > 0,
        evaluates(
            context,
            condition,
            State { budget: (before.budget - 1) as nat, ..before },
            test,
        ),
        test.result == Ok::<ValueView, EvalErrorView>(ValueView::Bool(false)),
    ensures
        evaluates(
            context,
            ExpressionView::If(Box::new(condition), consequence, None),
            before,
            Outcome { result: Ok(ValueView::Void), state: test.state },
        ),
{
    let start = State { budget: (before.budget - 1) as nat, ..before };
    let ending = Outcome { result: Ok(ValueView::Void), state: test.state };
    assert(lasts(start, test));
    assert(super::semantics::branches(context, condition, consequence, None, start, ending));
}

/// A loop has no scope of its own: after a pass of the body, the loop
/// goes on from the state that the body left, with every variable that
/// the body bound.
pub proof fn loop_goes_on_where_its_body_ended<H: Host>(
    context: Context<H>,
    condition: ExpressionView,
    body: Seq<ExpressionView>,
    before: State,
    test: Outcome,
    pass: Outcome,
    ending: Outcome,
)
    requires
        evaluates(context, condition, before, test),
        test.result == Ok::<ValueView, EvalErrorView>(ValueView::Bool(true)),
        runs(context, body, test.state, pass),
        pass.result is Ok,
        repeats(context, condition, body, pass.state, ending),
    ensures
        repeats(context, condition, body, before, ending),
{
    assert(lasts(before, test));
    assert(lasts(test.state, pass)) by {
        if body.len() == 0 {
        }
    }
    assert(passes(context, condition, body, test.state, ending));
}

/// The scope of a call ends with the call: whatever the body of a user
/// function binds, the variables of the caller are after the call what
/// they were before the body ran.
pub proof fn call_keeps_the_variables_of_the_caller<H: Host>(
    context: Context<H>,
    parameters: Seq<Seq<char>>,
    body: Seq<ExpressionView>,
    values: Seq<ValueView>,
    before: State,
    ending: Outcome,
)
    requires
        body_runs(context, parameters, body, values, before, ending),
    ensures
        ending.state.variables == before.variables,
{
}

/// A function sees the scope of its definition, not that of its call: the
/// body of a function that is called from inside a scope with a scope
/// around it runs inside that outer scope, whatever the variables of the
/// caller are. With other variables in the caller the body ends the same.
pub proof fn body_does_not_see_the_caller<H: Host>(
    context: Context<H>,
    parameters: Seq<Seq<char>>,
    body: Seq<ExpressionView>,
    values: Seq<ValueView>,
    before: State,
    others: Map<Seq<char>, ValueView>,
    ending: Outcome,
)
    requires
        context.parent is Some,
        body_runs(context, parameters, body, values, before, ending),
    ensures
        inside(context, before.variables) == inside(context, others),
        body_runs(
            context,
            parameters,
            body,
            values,
            State { variables: others, ..before },
            Outcome { state: State { variables: others, ..ending.state }, ..ending },
        ),
{
    let inner = choose|inner: Outcome| #[trigger]
        lasts(before, inner) && runs(
            inside(context, before.variables),
            body,
            State { variables: super::semantics::bind(parameters, values, parameters.len()), budget: before.budget },
            inner,
        ) && ending == (Outcome {
            result: inner.result,
            state: State { variables: before.variables, budget: inner.state.budget },
        });
    assert(lasts(State { variables: others, ..before }, inner));
}

} // verus!
