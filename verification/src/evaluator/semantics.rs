//! What evaluation means: the relation between an expression, the state
//! before it, and the state and result after it.
//!
//! The numeric unit and the builtins may answer one question in several
//! ways, so evaluation is stated as a relation: [`evaluates`] holds of
//! every ending that the answers of the host allow, and of no other.
//!
//! Every evaluation of an expression costs one step of the budget, so that
//! each evaluation ends.

use super::basic::computes;
use super::boolean::{compares, Comparison};
use super::errors::EvalErrorView;
use super::registry::builtin_of;
use super::{call_gives, Host, ValueView};
use crate::number::Arithmetic;
use crate::parser::operators::{InfixOperator, PrefixOperator};
use crate::parser::ExpressionView;
use vstd::prelude::*;

verus! {

/// A scope as the evaluator sees it from inside: its variables, and the
/// scope around it.
pub struct ScopeView {
    pub variables: Map<Seq<char>, ValueView>,
    pub parent: Option<Box<ScopeView>>,
}

/// What stays fixed while a scope evaluates: the host, the table of
/// builtins, and the scope around.
pub struct Context<H> {
    pub host: H,
    pub table: Map<Seq<char>, (usize, usize)>,
    pub parent: Option<ScopeView>,
}

/// What an evaluation changes: the variables of the scope, and the steps
/// that are left.
pub struct State {
    pub variables: Map<Seq<char>, ValueView>,
    pub budget: nat,
}

/// How an evaluation ends: its result, and the state it leaves.
pub struct Outcome {
    pub result: Result<ValueView, EvalErrorView>,
    pub state: State,
}

/// How the evaluation of arguments ends: their values in order, or the
/// first failure, and the state that is left.
pub struct Gathered {
    pub result: Result<Seq<ValueView>, EvalErrorView>,
    pub state: State,
}

/// The ending `after` has no more steps left than the state `before`.
pub open spec fn lasts(before: State, after: Outcome) -> bool {
    after.state.budget <= before.budget
}

/// The arguments left no more steps in `after` than the state `before` has.
pub open spec fn spends(before: State, after: Gathered) -> bool {
    after.state.budget <= before.budget
}

/// The ending with `value` in `state`.
pub open spec fn done(value: ValueView, state: State) -> Outcome {
    Outcome { result: Ok(value), state }
}

/// The ending with `error` in `state`.
pub open spec fn failed(error: EvalErrorView, state: State) -> Outcome {
    Outcome { result: Err(error), state }
}

/// The value of `name` in the chain of scopes that starts at `scope`: that
/// of the innermost scope that has the name.
pub open spec fn found(scope: Option<ScopeView>, name: Seq<char>) -> Option<ValueView>
    decreases scope,
{
    match scope {
        None => None,
        Some(inner) => if inner.variables.contains_key(name) {
            Some(inner.variables[name])
        } else {
            match inner.parent {
                Some(outer) => found(Some(*outer), name),
                None => None,
            }
        },
    }
}

/// What `name` stands for: a builtin first, then a variable of the current
/// scope, then one of the scopes around, the innermost first.
pub open spec fn resolve<H>(
    context: Context<H>,
    variables: Map<Seq<char>, ValueView>,
    name: Seq<char>,
) -> Result<ValueView, EvalErrorView> {
    match builtin_of(context.table, name) {
        Some(builtin) => Ok(builtin),
        None => if variables.contains_key(name) {
            Ok(variables[name])
        } else {
            match found(context.parent, name) {
                Some(value) => Ok(value),
                None => Err(EvalErrorView::UnresolvedVariable(name)),
            }
        },
    }
}

/// `result` is what the infix operator gives on `left` and `right`.
pub open spec fn applies<H: Host>(
    host: &H,
    operator: InfixOperator,
    left: ValueView,
    right: ValueView,
    result: Result<ValueView, EvalErrorView>,
) -> bool {
    match operator {
        InfixOperator::Add => computes(host, Arithmetic::Add, left, right, result),
        InfixOperator::Sub => computes(host, Arithmetic::Sub, left, right, result),
        InfixOperator::Mul => computes(host, Arithmetic::Mul, left, right, result),
        InfixOperator::Div => computes(host, Arithmetic::Div, left, right, result),
        InfixOperator::Equals => compares(host, Comparison::Equals, left, right, result),
        InfixOperator::LessThan => compares(host, Comparison::LessThan, left, right, result),
        InfixOperator::LessThanOrEquals => compares(
            host,
            Comparison::LessThanOrEquals,
            left,
            right,
            result,
        ),
        InfixOperator::GreaterThan => compares(host, Comparison::GreaterThan, left, right, result),
        InfixOperator::GreaterThanOrEquals => compares(
            host,
            Comparison::GreaterThanOrEquals,
            left,
            right,
            result,
        ),
    }
}

/// How an assignment to `name` ends once its right-hand side has ended as
/// `value` says: a failure stays; void is not assigned; the name of a
/// builtin is not assigned to; otherwise the name is bound in the current
/// scope and the value is the result.
pub open spec fn stored<H>(context: Context<H>, name: Seq<char>, value: Outcome) -> Outcome {
    match value.result {
        Err(_) => value,
        Ok(ValueView::Void) => failed(EvalErrorView::AssignVoid(name), value.state),
        Ok(bound) => if builtin_of(context.table, name) is Some {
            failed(EvalErrorView::AssignToBuiltin(name), value.state)
        } else {
            done(
                bound,
                State { variables: value.state.variables.insert(name, bound), ..value.state },
            )
        },
    }
}

/// `result` is what the builtin `handle` gives on `values`: the value it
/// returns, or its message as a failure.
pub open spec fn native<H: Host>(
    host: &H,
    handle: usize,
    values: Seq<ValueView>,
    result: Result<ValueView, EvalErrorView>,
) -> bool {
    match result {
        Ok(value) => call_gives(host, handle, values, Ok(value)),
        Err(EvalErrorView::Native(message)) => call_gives(host, handle, values, Err(message)),
        Err(_) => false,
    }
}

/// The variables of a call: the first `count` parameters, each bound to
/// the value at its place.
pub open spec fn bind(names: Seq<Seq<char>>, values: Seq<ValueView>, count: nat) -> Map<
    Seq<char>,
    ValueView,
>
    decreases count,
{
    if count == 0 {
        Map::empty()
    } else {
        bind(names, values, (count - 1) as nat).insert(names[count - 1], values[count - 1])
    }
}

/// The context of the body of a function that is called from a scope with
/// `variables` in `context`: the scope around the body is the outermost
/// scope of the caller's chain, which is the caller where it has none around
/// it, and otherwise the one around the caller.
pub open spec fn inside<H>(context: Context<H>, variables: Map<Seq<char>, ValueView>) -> Context<
    H,
> {
    Context {
        parent: match context.parent {
            None => Some(ScopeView { variables, parent: None }),
            Some(outer) => Some(outer),
        },
        ..context
    }
}

/// The evaluation of `expression` from the state `before` can end as
/// `ending` says.
///
/// Without a step left it fails and changes nothing. Otherwise it takes
/// one step, gives none back, and then:
/// - a literal is its value, and a function literal is the function of its
///   parameters and body;
/// - an identifier is what it resolves to;
/// - `+` before an operand is the operand; the other prefix operators fail;
/// - an infix operator evaluates its left and then its right operand, and
///   is applied to the two values;
/// - the other expressions are as [`assigns`], [`branches`], [`repeats`]
///   and [`calls`] say.
pub open spec fn evaluates<H: Host>(
    context: Context<H>,
    expression: ExpressionView,
    before: State,
    ending: Outcome,
) -> bool
    decreases before.budget, 0int, 0int,
{
    if before.budget == 0 {
        ending == failed(EvalErrorView::BudgetExhausted, before)
    } else {
        let start = State { budget: (before.budget - 1) as nat, ..before };
        lasts(start, ending) && match expression {
            ExpressionView::Void => ending == done(ValueView::Void, start),
            ExpressionView::Num(number) => ending == done(ValueView::Number(number), start),
            ExpressionView::Str(string) => ending == done(ValueView::Str(string), start),
            ExpressionView::Bool(truth) => ending == done(ValueView::Bool(truth), start),
            ExpressionView::Function(parameters, body) => ending == done(
                ValueView::Function(parameters, body),
                start,
            ),
            ExpressionView::Id(name) => ending == (Outcome {
                result: resolve(context, start.variables, name),
                state: start,
            }),
            ExpressionView::Prefix(operator, operand) => match operator {
                PrefixOperator::Positive => evaluates(context, *operand, start, ending),
                _ => ending == failed(EvalErrorView::UnsupportedPrefix(operator), start),
            },
            ExpressionView::Infix(operator, left, right) => binary(
                context,
                operator,
                *left,
                *right,
                start,
                ending,
            ),
            ExpressionView::Assignment(name, value) => assigns(
                context,
                name,
                *value,
                start,
                ending,
            ),
            ExpressionView::If(condition, consequence, alternative) => branches(
                context,
                *condition,
                consequence,
                alternative,
                start,
                ending,
            ),
            ExpressionView::While(condition, body) => repeats(
                context,
                *condition,
                body,
                start,
                ending,
            ),
            ExpressionView::FunctionCall(name, arguments) => calls(
                context,
                name,
                arguments,
                start,
                ending,
            ),
        }
    }
}

/// An infix operator: the left operand is evaluated first. If it fails,
/// so does the whole; otherwise the right operand follows.
pub open spec fn binary<H: Host>(
    context: Context<H>,
    operator: InfixOperator,
    left: ExpressionView,
    right: ExpressionView,
    before: State,
    ending: Outcome,
) -> bool
    decreases before.budget, 5int, 0int,
{
    exists|first: Outcome| #[trigger]
        lasts(before, first) && evaluates(context, left, before, first) && (
        match first.result {
            Err(_) => ending == first,
            Ok(value) => second_operand(context, operator, value, right, first.state, ending),
        })
}

/// The right operand of an infix operator whose left operand is `left`: if
/// it fails, so does the whole; otherwise the operator is applied.
pub open spec fn second_operand<H: Host>(
    context: Context<H>,
    operator: InfixOperator,
    left: ValueView,
    right: ExpressionView,
    before: State,
    ending: Outcome,
) -> bool
    decreases before.budget, 4int, 0int,
{
    exists|second: Outcome| #[trigger]
        lasts(before, second) && evaluates(context, right, before, second) && (match second.result {
            Err(_) => ending == second,
            Ok(value) => ending.state == second.state && applies(
                &context.host,
                operator,
                left,
                value,
                ending.result,
            ),
        })
}

/// An assignment: the right-hand side is evaluated, and the value is
/// stored as [`stored`] says.
pub open spec fn assigns<H: Host>(
    context: Context<H>,
    name: Seq<char>,
    value: ExpressionView,
    before: State,
    ending: Outcome,
) -> bool
    decreases before.budget, 5int, 0int,
{
    exists|right: Outcome| #[trigger]
        lasts(before, right) && evaluates(context, value, before, right) && ending == stored(
            context,
            name,
            right,
        )
}

/// A conditional: the condition is evaluated. If it is true, the first
/// block is evaluated; if it is false, the second block, or nothing with
/// the result void where there is none. A condition that is no boolean is
/// a failure.
pub open spec fn branches<H: Host>(
    context: Context<H>,
    condition: ExpressionView,
    consequence: Seq<ExpressionView>,
    alternative: Option<Seq<ExpressionView>>,
    before: State,
    ending: Outcome,
) -> bool
    decreases before.budget, 5int, 0int,
{
    exists|test: Outcome| #[trigger]
        lasts(before, test) && evaluates(context, condition, before, test) && (
        match test.result {
            Err(_) => ending == test,
            Ok(ValueView::Bool(true)) => runs(context, consequence, test.state, ending),
            Ok(ValueView::Bool(false)) => match alternative {
                Some(block) => runs(context, block, test.state, ending),
                None => ending == done(ValueView::Void, test.state),
            },
            Ok(other) => ending == failed(EvalErrorView::ConditionNotBoolean(other), test.state),
        })
}

/// A block: its expressions are evaluated in order in the current scope.
/// The first failure ends the block; otherwise the result is that of the
/// last expression, and void for an empty block.
pub open spec fn runs<H: Host>(
    context: Context<H>,
    block: Seq<ExpressionView>,
    before: State,
    ending: Outcome,
) -> bool
    decreases before.budget, 2int, 0int,
{
    if block.len() == 0 {
        ending == done(ValueView::Void, before)
    } else {
        lasts(before, ending) && runs_from(context, block, 0, before, ending)
    }
}

/// The expressions of a block from the one at `from` on.
pub open spec fn runs_from<H: Host>(
    context: Context<H>,
    block: Seq<ExpressionView>,
    from: int,
    before: State,
    ending: Outcome,
) -> bool
    decreases before.budget, 1int, block.len() - from,
{
    exists|item: Outcome| #[trigger]
        lasts(before, item) && evaluates(context, block[from], before, item) && (
        if item.result is Err || !(0 <= from < block.len() - 1) {
            ending == item
        } else {
            runs_from(context, block, from + 1, item.state, ending)
        })
}

/// A loop: the condition is evaluated before each pass. If it is false,
/// the loop ends with the result void; if it is true, the body is
/// evaluated in the current scope and the loop goes on. A failure of the
/// condition or of the body ends the loop, and so does a condition that is
/// no boolean.
pub open spec fn repeats<H: Host>(
    context: Context<H>,
    condition: ExpressionView,
    body: Seq<ExpressionView>,
    before: State,
    ending: Outcome,
) -> bool
    decreases before.budget, 3int, 0int,
{
    exists|test: Outcome| #[trigger]
        lasts(before, test) && evaluates(context, condition, before, test) && (match test.result {
            Err(_) => ending == test,
            Ok(ValueView::Bool(false)) => ending == done(ValueView::Void, test.state),
            Ok(ValueView::Bool(true)) => test.state.budget < before.budget && passes(
                context,
                condition,
                body,
                test.state,
                ending,
            ),
            Ok(other) => ending == failed(EvalErrorView::ConditionNotBoolean(other), test.state),
        })
}

/// One pass of a loop whose condition was true, and the loop after it.
pub open spec fn passes<H: Host>(
    context: Context<H>,
    condition: ExpressionView,
    body: Seq<ExpressionView>,
    before: State,
    ending: Outcome,
) -> bool
    decreases before.budget, 4int, 0int,
{
    exists|pass: Outcome| #[trigger]
        lasts(before, pass) && runs(context, body, before, pass) && (
        match pass.result {
            Err(_) => ending == pass,
            Ok(_) => repeats(context, condition, body, pass.state, ending),
        })
}

/// The arguments of a call from the one at `from` on, after the values in
/// `values`: each is evaluated in the caller's scope, from left to right,
/// and the first failure ends the evaluation.
pub open spec fn gathers<H: Host>(
    context: Context<H>,
    arguments: Seq<ExpressionView>,
    from: int,
    before: State,
    values: Seq<ValueView>,
    passed: Gathered,
) -> bool
    decreases before.budget, 1int, 2 * (arguments.len() - from) + 1,
{
    if 0 <= from < arguments.len() {
        gathers_next(context, arguments, from, before, values, passed)
    } else {
        passed == (Gathered { result: Ok(values), state: before })
    }
}

/// The argument at `from` and those after it.
pub open spec fn gathers_next<H: Host>(
    context: Context<H>,
    arguments: Seq<ExpressionView>,
    from: int,
    before: State,
    values: Seq<ValueView>,
    passed: Gathered,
) -> bool
    decreases before.budget, 1int, 2 * (arguments.len() - from),
{
    exists|item: Outcome| #[trigger]
        lasts(before, item) && evaluates(context, arguments[from], before, item) && (
        match item.result {
            Err(error) => passed == (Gathered { result: Err(error), state: item.state }),
            Ok(value) => 0 <= from < arguments.len() && gathers(
                context,
                arguments,
                from + 1,
                item.state,
                values.push(value),
                passed,
            ),
        })
}

/// The failure of a call of `name` with `given` arguments where
/// `expected` are needed.
pub open spec fn arity_mismatch(name: Seq<char>, expected: usize, given: nat) -> EvalErrorView {
    EvalErrorView::ArityMismatch { name, expected, given: given as usize }
}

/// A call: the name is resolved first.
/// - A builtin needs at least its minimum number of arguments. They are
///   evaluated, and the builtin is called on their values.
/// - A user function needs exactly as many arguments as it has
///   parameters. They are evaluated, and the body is evaluated in a new
///   scope that binds each parameter to its argument.
/// - Any other value is no function.
pub open spec fn calls<H: Host>(
    context: Context<H>,
    name: Seq<char>,
    arguments: Seq<ExpressionView>,
    before: State,
    ending: Outcome,
) -> bool
    decreases before.budget, 6int, 0int,
{
    match resolve(context, before.variables, name) {
        Err(error) => ending == failed(error, before),
        Ok(ValueView::BuiltinFunction(minimum, handle)) => if arguments.len() < minimum {
            ending == failed(arity_mismatch(name, minimum, arguments.len()), before)
        } else {
            invokes(context, handle, arguments, before, ending)
        },
        Ok(ValueView::Function(parameters, body)) => if arguments.len() != parameters.len() {
            ending == failed(
                arity_mismatch(name, parameters.len() as usize, arguments.len()),
                before,
            )
        } else {
            enters(context, parameters, body, arguments, before, ending)
        },
        Ok(_) => ending == failed(EvalErrorView::NotAFunction(name), before),
    }
}

/// The call of a builtin: the arguments are evaluated, and the result is
/// what the host gives for their values. The caller's scope is as the
/// arguments left it.
pub open spec fn invokes<H: Host>(
    context: Context<H>,
    handle: usize,
    arguments: Seq<ExpressionView>,
    before: State,
    ending: Outcome,
) -> bool
    decreases before.budget, 5int, 0int,
{
    exists|passed: Gathered| #[trigger]
        spends(before, passed) && gathers(context, arguments, 0, before, Seq::empty(), passed) && (
        match passed.result {
            Err(error) => ending == failed(error, passed.state),
            Ok(values) => ending.state == passed.state && native(
                &context.host,
                handle,
                values,
                ending.result,
            ),
        })
}

/// The call of a user function: the arguments are evaluated, then the
/// body is evaluated as [`body_runs`] says.
pub open spec fn enters<H: Host>(
    context: Context<H>,
    parameters: Seq<Seq<char>>,
    body: Seq<ExpressionView>,
    arguments: Seq<ExpressionView>,
    before: State,
    ending: Outcome,
) -> bool
    decreases before.budget, 5int, 0int,
{
    exists|passed: Gathered| #[trigger]
        spends(before, passed) && gathers(context, arguments, 0, before, Seq::empty(), passed) && (
        match passed.result {
            Err(error) => ending == failed(error, passed.state),
            Ok(values) => body_runs(context, parameters, body, values, passed.state, ending),
        })
}

/// The body of a user function, called with `values` from a scope in the
/// state `before`: it is evaluated in a new scope, which binds the
/// parameters to the values and lies inside the outermost scope of the
/// caller's chain. The result is that of the body. The caller's variables
/// stay as they are, and the steps that the body took are gone.
pub open spec fn body_runs<H: Host>(
    context: Context<H>,
    parameters: Seq<Seq<char>>,
    body: Seq<ExpressionView>,
    values: Seq<ValueView>,
    before: State,
    ending: Outcome,
) -> bool
    decreases before.budget, 3int, 0int,
{
    exists|inner: Outcome| #[trigger]
        lasts(before, inner) && runs(
            inside(context, before.variables),
            body,
            State { variables: bind(parameters, values, parameters.len()), budget: before.budget },
            inner,
        ) && ending == (Outcome {
            result: inner.result,
            state: State { variables: before.variables, budget: inner.state.budget },
        })
}

} // verus!
