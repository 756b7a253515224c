//! The evaluator: a walk over the syntax tree in a chain of scopes.

pub mod basic;
pub mod boolean;
pub mod determinism;
pub mod errors;
pub mod laws;
pub mod registry;
pub mod scope;
pub mod semantics;

use crate::number::{Number, Numerics};
use crate::parser::operators::{InfixOperator, PrefixOperator};
use crate::parser::parameters::{list_names, names_of};
use crate::parser::{block_view, Expression, ExpressionView};
use crate::shared::share;
use errors::{EvalError, EvalErrorView};
use registry::Builtins;
use scope::Variables;
use semantics::{
    assigns, binary, bind, body_runs, branches, calls, enters, evaluates, found, gathers,
    gathers_next, inside, invokes, native, passes, repeats, resolve, runs, runs_from,
    lasts, second_operand, spends, Context, Gathered, Outcome, ScopeView, State,
};
use linked_hash_set::LinkedHashSet;
use std::rc::Rc;
use vstd::prelude::*;

verus! {

/// A value at run time.
#[derive(Debug)]
pub enum Value {
    Void,
    Number(Number),
    Bool(bool),
    Str(String),
    /// A user function: the parameters and the body of its literal, shared
    /// with the syntax tree.
    Function(Rc<LinkedHashSet<String>>, Rc<Vec<Expression>>),
    /// A builtin: its minimum arity and the handle that the host knows it by.
    BuiltinFunction(usize, usize),
}

/// A value, with text as sequences of characters and a function as the
/// names of its parameters and the shape of its body.
pub enum ValueView {
    Void,
    Number(Number),
    Bool(bool),
    Str(Seq<char>),
    Function(Seq<Seq<char>>, Seq<ExpressionView>),
    BuiltinFunction(usize, usize),
}

impl View for Value {
    type V = ValueView;

    open spec fn view(&self) -> ValueView {
        match self {
            Value::Void => ValueView::Void,
            Value::Number(number) => ValueView::Number(*number),
            Value::Bool(truth) => ValueView::Bool(*truth),
            Value::Str(string) => ValueView::Str(string@),
            Value::Function(parameters, body) => ValueView::Function(
                names_of(**parameters),
                block_view(body@),
            ),
            Value::BuiltinFunction(minimum, handle) => ValueView::BuiltinFunction(
                *minimum,
                *handle,
            ),
        }
    }
}

/// The views of a sequence of values.
pub open spec fn values_view(values: Seq<Value>) -> Seq<ValueView> {
    values.map_values(|value: Value| value@)
}

/// The view of what an evaluation returns.
pub open spec fn outcome_view(result: Result<Value, errors::EvalError>) -> Result<
    ValueView,
    errors::EvalErrorView,
> {
    match result {
        Ok(value) => Ok(value@),
        Err(error) => Err(error@),
    }
}

impl Clone for Value {
    fn clone(&self) -> (copy: Self)
        ensures
            copy@ == self@,
    {
        match self {
            Value::Void => Value::Void,
            Value::Number(number) => Value::Number(*number),
            Value::Bool(truth) => Value::Bool(*truth),
            Value::Str(string) => Value::Str(string.clone()),
            Value::Function(parameters, body) => Value::Function(share(parameters), share(body)),
            Value::BuiltinFunction(minimum, handle) => Value::BuiltinFunction(*minimum, *handle),
        }
    }
}

/// The host of the interpreter: the numeric unit and the builtins.
///
/// No method promises anything. What a call of a builtin returns is
/// referred to in contracts through [`call_gives`].
pub trait Host: Numerics {
    /// Calls the builtin known by `handle` on `arguments`. A failure is a
    /// message.
    fn call(&self, handle: usize, arguments: Vec<Value>) -> Result<Value, String>;
}

/// The view of what a builtin returns.
pub open spec fn returned_view(returned: Result<Value, String>) -> Result<ValueView, Seq<char>> {
    match returned {
        Ok(value) => Ok(value@),
        Err(message) => Err(message@),
    }
}

/// `answer` is a possible result of calling the builtin `handle` of `host`
/// on `arguments`.
pub open spec fn call_gives<H: Host>(
    host: &H,
    handle: usize,
    arguments: Seq<ValueView>,
    answer: Result<ValueView, Seq<char>>,
) -> bool {
    exists|given: Vec<Value>, returned: Result<Value, String>|
        values_view(given@) == arguments && returned_view(returned) == answer
            && #[trigger] call_ensures(H::call, (host, handle, given), returned)
}

/// The ending of an evaluation that returned `result` and left `state`.
pub open spec fn ending(result: Result<Value, EvalError>, state: State) -> Outcome {
    Outcome { result: outcome_view(result), state }
}

/// The ending of an evaluation of arguments that returned `result` and
/// left `state`.
pub open spec fn gathered(result: Result<Vec<Value>, EvalError>, state: State) -> Gathered {
    Gathered {
        result: match result {
            Ok(values) => Ok(values_view(values@)),
            Err(error) => Err(error@),
        },
        state,
    }
}

/// A scope of evaluation: its variables, the scope around it, the
/// builtins, and the steps that it may still take.
pub struct Evaluator<'parent_scope, H: Host> {
    parent_scope: Option<&'parent_scope Evaluator<'parent_scope, H>>,
    builtin_functions: &'parent_scope Builtins<H>,
    variables: Variables,
    budget: u64,
}

impl<'parent_scope, H: Host> Evaluator<'parent_scope, H> {
    /// The scope with those around it.
    pub closed spec fn scope(&self) -> ScopeView
        decreases self,
    {
        ScopeView {
            variables: self.variables@,
            parent: match self.parent_scope {
                Some(parent) => Some(Box::new(parent.scope())),
                None => None,
            },
        }
    }

    /// What stays fixed while this scope evaluates.
    pub closed spec fn context(&self) -> Context<H> {
        Context {
            host: self.builtin_functions.host(),
            table: self.builtin_functions.table(),
            parent: match self.parent_scope {
                Some(parent) => Some(parent.scope()),
                None => None,
            },
        }
    }

    /// What an evaluation in this scope changes.
    pub closed spec fn state(&self) -> State {
        State { variables: self.variables@, budget: self.budget as nat }
    }

    /// A scope without variables inside `parent_scope`, with the largest
    /// budget of steps.
    pub fn new(
        parent_scope: Option<&'parent_scope Evaluator<'parent_scope, H>>,
        builtin_functions: &'parent_scope Builtins<H>,
    ) -> (evaluator: Self)
        ensures
            evaluator.state() == (State { variables: Map::empty(), budget: u64::MAX as nat }),
            evaluator.context().host == builtin_functions.host(),
            evaluator.context().table == builtin_functions.table(),
            evaluator.context().parent == match parent_scope {
                Some(parent) => Some(parent.scope()),
                None => None,
            },
    {
        Evaluator { variables: Variables::new(), parent_scope, builtin_functions, budget: u64::MAX }
    }

    /// The same scope with `budget` steps left.
    pub fn with_budget(self, budget: u64) -> (evaluator: Self)
        ensures
            evaluator.context() == self.context(),
            evaluator.state() == (State { budget: budget as nat, ..self.state() }),
    {
        Evaluator {
            variables: self.variables,
            parent_scope: self.parent_scope,
            builtin_functions: self.builtin_functions,
            budget,
        }
    }

    /// The host of the builtins, which is the numeric unit too.
    pub fn host(&self) -> (host: &'parent_scope H)
        ensures
            *host == self.context().host,
    {
        self.builtin_functions.unit()
    }

    /// The steps that are left.
    pub fn budget(&self) -> (left: u64)
        ensures
            left == self.state().budget,
    {
        self.budget
    }

    /// The value of `name` in this scope or in those around it.
    fn lookup(&self, name: &String) -> (value: Option<Value>)
        ensures
            match value {
                Some(value) => found(Some(self.scope()), name@) == Some(value@),
                None => found(Some(self.scope()), name@) is None,
            },
        decreases self,
    {
        match self.variables.get(name) {
            Some(value) => Some(value),
            None => match self.parent_scope {
                Some(ps) => ps.lookup(name),
                None => None,
            },
        }
    }

    /// What `name` stands for: a builtin, or else a variable of this scope
    /// or of those around it.
    pub fn get_value(&self, name: &String) -> (value: Result<Value, EvalError>)
        ensures
            outcome_view(value) == resolve(self.context(), self.state().variables, name@),
    {
        if let Some(builtin) = self.builtin_functions.get(name) {
            return Ok(builtin);
        }
        match self.variables.get(name) {
            Some(value) => Ok(value),
            None => match self.parent_scope {
                Some(ps) => match ps.lookup(name) {
                    Some(value) => Ok(value),
                    None => Err(EvalError::UnresolvedVariable(name.clone())),
                },
                None => Err(EvalError::UnresolvedVariable(name.clone())),
            },
        }
    }

    /// Evaluates the expressions of a block in order, in this scope.
    pub fn evaluate_block(&mut self, stmts: &Vec<Expression>) -> (result: Result<Value, EvalError>)
        ensures
            final(self).context() == old(self).context(),
            runs(
                old(self).context(),
                block_view(stmts@),
                old(self).state(),
                ending(result, final(self).state()),
            ),
            final(self).state().budget <= old(self).state().budget,
        decreases old(self).state().budget, 2int, 0int,
    {
        if stmts.len() == 0 {
            return Ok(Value::Void);
        }
        let ghost context = self.context();
        let ghost block = block_view(stmts@);
        let ghost start = self.state();
        let mut i: usize = 0;
        loop
            invariant
                context == old(self).context(),
                start == old(self).state(),
                block == block_view(stmts@),
                0 <= i < stmts.len(),
                self.context() == context,
                self.state().budget <= start.budget,
                forall|last: Outcome|
                    runs_from(context, block, i as int, self.state(), last) ==> runs_from(
                        context,
                        block,
                        0,
                        start,
                        last,
                    ),
            decreases stmts.len() - i,
        {
            let ghost before = self.state();
            let result = self.evaluate(&stmts[i]);
            let ghost item = ending(result, self.state());
            assert(lasts(before, item));
            assert(evaluates(context, block[i as int], before, item));
            if result.is_err() || i == stmts.len() - 1 {
                assert(runs_from(context, block, i as int, before, item));
                assert(runs_from(context, block, 0, start, item));
                assert(runs(context, block, start, item));
                return result;
            }
            assert forall|last: Outcome|
                runs_from(context, block, i + 1, self.state(), last) implies runs_from(
                context,
                block,
                0,
                start,
                last,
            ) by {
                assert(runs_from(context, block, i as int, before, last));
            }
            i += 1;
        }
    }

    /// Evaluates the arguments of a call from left to right, in this scope.
    fn evaluate_arguments(&mut self, params: &Vec<Expression>) -> (result: Result<
        Vec<Value>,
        EvalError,
    >)
        ensures
            final(self).context() == old(self).context(),
            gathers(
                old(self).context(),
                block_view(params@),
                0,
                old(self).state(),
                Seq::empty(),
                gathered(result, final(self).state()),
            ),
            final(self).state().budget <= old(self).state().budget,
            result matches Ok(values) ==> values@.len() == params@.len(),
        decreases old(self).state().budget, 1int, 2 * params@.len() + 1,
    {
        let ghost context = self.context();
        let ghost arguments = block_view(params@);
        let ghost start = self.state();
        let mut resolved_params: Vec<Value> = Vec::new();
        let mut i: usize = 0;
        assert(values_view(resolved_params@) =~= Seq::<ValueView>::empty());
        while i < params.len()
            invariant
                context == old(self).context(),
                start == old(self).state(),
                arguments == block_view(params@),
                0 <= i <= params.len(),
                resolved_params@.len() == i,
                self.context() == context,
                self.state().budget <= start.budget,
                forall|passed: Gathered|
                    gathers(
                        context,
                        arguments,
                        i as int,
                        self.state(),
                        values_view(resolved_params@),
                        passed,
                    ) ==> gathers(context, arguments, 0, start, Seq::empty(), passed),
            decreases params.len() - i,
        {
            let ghost before = self.state();
            let ghost values = values_view(resolved_params@);
            let result = self.evaluate(&params[i]);
            let ghost item = ending(result, self.state());
            assert(lasts(before, item));
            assert(evaluates(context, arguments[i as int], before, item));
            match result {
                Err(error) => {
                    let failure = Err(error);
                    assert(gathers_next(
                        context,
                        arguments,
                        i as int,
                        before,
                        values,
                        gathered(failure, self.state()),
                    ));
                    return failure;
                },
                Ok(value) => {
                    resolved_params.push(value);
                    assert(values_view(resolved_params@) =~= values.push(value@));
                    assert forall|passed: Gathered|
                        gathers(
                            context,
                            arguments,
                            i + 1,
                            self.state(),
                            values_view(resolved_params@),
                            passed,
                        ) implies gathers(context, arguments, 0, start, Seq::empty(), passed) by {
                        assert(gathers_next(context, arguments, i as int, before, values, passed));
                        assert(gathers(context, arguments, i as int, before, values, passed));
                    }
                },
            }
            i += 1;
        }
        Ok(resolved_params)
    }

    /// Evaluates the body of a user function that is called from this
    /// scope with `values`.
    fn evaluate_body(
        &mut self,
        t_params: &LinkedHashSet<String>,
        t_stmts: &Vec<Expression>,
        values: Vec<Value>,
    ) -> (result: Result<Value, EvalError>)
        requires
            values@.len() == names_of(*t_params).len(),
        ensures
            final(self).context() == old(self).context(),
            body_runs(
                old(self).context(),
                names_of(*t_params),
                block_view(t_stmts@),
                values_view(values@),
                old(self).state(),
                ending(result, final(self).state()),
            ),
            final(self).state().budget <= old(self).state().budget,
        decreases old(self).state().budget, 3int, 0int,
    {
        let names = list_names(t_params);
        let mut variables = Variables::new();
        let mut i: usize = 0;
        while i < names.len()
            invariant
                0 <= i <= names.len(),
                names@.len() == names_of(*t_params).len(),
                values@.len() == names@.len(),
                forall|k: int| 0 <= k < names@.len() ==> (#[trigger] names@[k])@ == names_of(*t_params)[k],
                variables@ == bind(names_of(*t_params), values_view(values@), i as nat),
            decreases names.len() - i,
        {
            variables.insert(names[i].clone(), values[i].clone());
            i += 1;
        }
        let ghost context = self.context();
        let ghost before = self.state();
        let budget = self.budget;
        let (result, left) = {
            let parent: &Evaluator<'_, H> = match self.parent_scope {
                Some(ps) => ps,
                None => &*self,
            };
            let mut subeval = Evaluator {
                parent_scope: Some(parent),
                builtin_functions: self.builtin_functions,
                variables,
                budget,
            };
            assert(subeval.context() == inside(context, before.variables));
            let result = subeval.evaluate_block(t_stmts);
            assert(lasts(before, ending(result, subeval.state())));
            assert(runs(
                inside(context, before.variables),
                block_view(t_stmts@),
                State {
                    variables: bind(
                        names_of(*t_params),
                        values_view(values@),
                        names_of(*t_params).len(),
                    ),
                    budget: before.budget,
                },
                ending(result, subeval.state()),
            ));
            (result, subeval.budget)
        };
        self.budget = left;
        result
    }

    /// Evaluates a call of `name` with the arguments `params`.
    fn evaluate_call(&mut self, name: &String, params: &Vec<Expression>) -> (result: Result<
        Value,
        EvalError,
    >)
        ensures
            final(self).context() == old(self).context(),
            calls(
                old(self).context(),
                name@,
                block_view(params@),
                old(self).state(),
                ending(result, final(self).state()),
            ),
            final(self).state().budget <= old(self).state().budget,
        decreases old(self).state().budget, 6int, 0int,
    {
        let ghost context = self.context();
        let ghost before = self.state();
        let callee = match self.get_value(name) {
            Ok(callee) => callee,
            Err(error) => {
                return Err(error);
            },
        };
        match callee {
            Value::BuiltinFunction(param_count, func) => {
                if params.len() < param_count {
                    return Err(
                        EvalError::ArityMismatch {
                            name: name.clone(),
                            expected: param_count,
                            given: params.len(),
                        },
                    );
                }
                let resolved_params = match self.evaluate_arguments(params) {
                    Ok(values) => values,
                    Err(error) => {
                        let ghost passed = Gathered { result: Err(error@), state: self.state() };
                        assert(spends(before, passed));
                        let failure = Err(error);
                        assert(invokes(
                            context,
                            func,
                            block_view(params@),
                            before,
                            ending(failure, self.state()),
                        ));
                        return failure;
                    },
                };
                let ghost values = values_view(resolved_params@);
                let ghost passed = gathered(Ok(resolved_params), self.state());
                assert(spends(before, passed));
                let returned = self.builtin_functions.unit().call(func, resolved_params);
                assert(call_gives(&context.host, func, values, returned_view(returned)));
                let result = match returned {
                    Ok(value) => Ok(value),
                    Err(message) => Err(EvalError::Native(message)),
                };
                assert(native(&context.host, func, values, outcome_view(result)));
                assert(invokes(
                    context,
                    func,
                    block_view(params@),
                    before,
                    ending(result, self.state()),
                ));
                result
            },
            Value::Function(t_params, t_stmts) => {
                let param_count = crate::parser::parameters::count_names(&t_params);
                if params.len() != param_count {
                    return Err(
                        EvalError::ArityMismatch {
                            name: name.clone(),
                            expected: param_count,
                            given: params.len(),
                        },
                    );
                }
                let values = match self.evaluate_arguments(params) {
                    Ok(values) => values,
                    Err(error) => {
                        let ghost passed = Gathered { result: Err(error@), state: self.state() };
                        assert(spends(before, passed));
                        let failure = Err(error);
                        assert(enters(
                            context,
                            names_of(*t_params),
                            block_view(t_stmts@),
                            block_view(params@),
                            before,
                            ending(failure, self.state()),
                        ));
                        return failure;
                    },
                };
                let ghost passed = gathered(Ok(values), self.state());
                assert(spends(before, passed));
                let result = self.evaluate_body(&t_params, &t_stmts, values);
                assert(enters(
                    context,
                    names_of(*t_params),
                    block_view(t_stmts@),
                    block_view(params@),
                    before,
                    ending(result, self.state()),
                )) by {
                    assert(gathers(context, block_view(params@), 0, before, Seq::empty(), passed));
                }
                result
            },
            _ => Err(EvalError::NotAFunction(name.clone())),
        }
    }

    /// Applies an infix operator to two values.
    fn apply(&self, op: InfixOperator, left: Value, right: Value) -> (result: Result<
        Value,
        EvalError,
    >)
        ensures
            semantics::applies(&self.context().host, op, left@, right@, outcome_view(result)),
    {
        let unit = self.builtin_functions.unit();
        match op {
            InfixOperator::Add => left.add(right, unit),
            InfixOperator::Sub => left.sub(right, unit),
            InfixOperator::Mul => left.mul(right, unit),
            InfixOperator::Div => left.div(right, unit),
            InfixOperator::Equals => boolean::equals(left, right, unit),
            InfixOperator::GreaterThanOrEquals => boolean::greater_than_equals(left, right, unit),
            InfixOperator::LessThanOrEquals => boolean::less_than_equals(left, right, unit),
            InfixOperator::LessThan => boolean::less_than(left, right, unit),
            InfixOperator::GreaterThan => boolean::greater_than(left, right, unit),
        }
    }

    /// Evaluates an infix operator with its operands.
    fn evaluate_infix(&mut self, op: InfixOperator, l: &Expression, r: &Expression) -> (result:
        Result<Value, EvalError>)
        ensures
            final(self).context() == old(self).context(),
            binary(
                old(self).context(),
                op,
                l@,
                r@,
                old(self).state(),
                ending(result, final(self).state()),
            ),
            final(self).state().budget <= old(self).state().budget,
        decreases old(self).state().budget, 5int, 0int,
    {
        let ghost context = self.context();
        let ghost before = self.state();
        let left = match self.evaluate(l) {
            Ok(value) => value,
            Err(error) => {
                let failure = Err(error);
                assert(lasts(before, ending(failure, self.state())));
            assert(evaluates(context, l@, before, ending(failure, self.state())));
                return failure;
            },
        };
        let ghost first = ending(Ok(left), self.state());
        assert(lasts(before, first));
            assert(evaluates(context, l@, before, first));
        let right = match self.evaluate(r) {
            Ok(value) => value,
            Err(error) => {
                let failure = Err(error);
                assert(lasts(first.state, ending(failure, self.state())));
            assert(evaluates(context, r@, first.state, ending(failure, self.state())));
                assert(second_operand(
                    context,
                    op,
                    left@,
                    r@,
                    first.state,
                    ending(failure, self.state()),
                ));
                return failure;
            },
        };
        let ghost second = ending(Ok(right), self.state());
        assert(lasts(first.state, second));
            assert(evaluates(context, r@, first.state, second));
        let result = self.apply(op, left, right);
        assert(second_operand(context, op, left@, r@, first.state, ending(result, self.state())));
        result
    }

    /// Evaluates an assignment.
    fn evaluate_assignment(&mut self, name: &String, expr: &Expression) -> (result: Result<
        Value,
        EvalError,
    >)
        ensures
            final(self).context() == old(self).context(),
            assigns(
                old(self).context(),
                name@,
                expr@,
                old(self).state(),
                ending(result, final(self).state()),
            ),
            final(self).state().budget <= old(self).state().budget,
        decreases old(self).state().budget, 5int, 0int,
    {
        let ghost context = self.context();
        let ghost before = self.state();
        let evaluated = self.evaluate(expr);
        let ghost right = ending(evaluated, self.state());
        assert(lasts(before, right));
            assert(evaluates(context, expr@, before, right));
        let value = match evaluated {
            Ok(value) => value,
            Err(error) => {
                return Err(error);
            },
        };
        match value {
            Value::Void => Err(EvalError::AssignVoid(name.clone())),
            _ => {
                if self.builtin_functions.get(name).is_some() {
                    return Err(EvalError::AssignToBuiltin(name.clone()));
                }
                self.variables.insert(name.clone(), value.clone());
                Ok(value)
            },
        }
    }

    /// Evaluates a conditional.
    fn evaluate_if(
        &mut self,
        expr: &Expression,
        stmts: &Vec<Expression>,
        else_stmts: &Option<Vec<Expression>>,
    ) -> (result: Result<Value, EvalError>)
        ensures
            final(self).context() == old(self).context(),
            branches(
                old(self).context(),
                expr@,
                block_view(stmts@),
                match else_stmts {
                    Some(block) => Some(block_view(block@)),
                    None => None,
                },
                old(self).state(),
                ending(result, final(self).state()),
            ),
            final(self).state().budget <= old(self).state().budget,
        decreases old(self).state().budget, 5int, 0int,
    {
        let ghost context = self.context();
        let ghost before = self.state();
        let evaluated = self.evaluate(expr);
        let ghost test = ending(evaluated, self.state());
        assert(lasts(before, test));
            assert(evaluates(context, expr@, before, test));
        match evaluated {
            Err(error) => Err(error),
            Ok(Value::Bool(result)) => {
                if result {
                    self.evaluate_block(stmts)
                } else {
                    match else_stmts {
                        Some(block) => self.evaluate_block(block),
                        None => Ok(Value::Void),
                    }
                }
            },
            Ok(other) => Err(EvalError::ConditionNotBoolean(other)),
        }
    }

    /// Evaluates a loop.
    fn evaluate_while(&mut self, expr: &Expression, stmts: &Vec<Expression>) -> (result: Result<
        Value,
        EvalError,
    >)
        ensures
            final(self).context() == old(self).context(),
            repeats(
                old(self).context(),
                expr@,
                block_view(stmts@),
                old(self).state(),
                ending(result, final(self).state()),
            ),
            final(self).state().budget <= old(self).state().budget,
        decreases old(self).state().budget, 3int, 0int,
    {
        let ghost context = self.context();
        let ghost start = self.state();
        let ghost condition = expr@;
        let ghost body = block_view(stmts@);
        loop
            invariant
                context == old(self).context(),
                start == old(self).state(),
                condition == expr@,
                body == block_view(stmts@),
                self.context() == context,
                self.state().budget <= start.budget,
                forall|last: Outcome|
                    repeats(context, condition, body, self.state(), last) ==> repeats(
                        context,
                        condition,
                        body,
                        start,
                        last,
                    ),
            decreases self.state().budget,
        {
            let ghost before = self.state();
            let evaluated = self.evaluate(expr);
            let ghost test = ending(evaluated, self.state());
            assert(lasts(before, test));
            assert(evaluates(context, condition, before, test));
            match evaluated {
                Err(error) => {
                    let failure = Err(error);
                    assert(repeats(context, condition, body, before, ending(failure, self.state())));
                    return failure;
                },
                Ok(Value::Bool(v)) => {
                    if !v {
                        let result = Ok(Value::Void);
                        assert(repeats(
                            context,
                            condition,
                            body,
                            before,
                            ending(result, self.state()),
                        ));
                        return result;
                    }
                    let ghost entered = self.state();
                    let ran = self.evaluate_block(stmts);
                    let ghost pass = ending(ran, self.state());
                    assert(lasts(entered, pass));
                    assert(runs(context, body, entered, pass));
                    match ran {
                        Err(error) => {
                            let failure = Err(error);
                            assert(passes(
                                context,
                                condition,
                                body,
                                entered,
                                ending(failure, self.state()),
                            ));
                            assert(repeats(
                                context,
                                condition,
                                body,
                                before,
                                ending(failure, self.state()),
                            ));
                            return failure;
                        },
                        Ok(_) => {
                            assert forall|last: Outcome|
                                repeats(
                                    context,
                                    condition,
                                    body,
                                    self.state(),
                                    last,
                                ) implies repeats(context, condition, body, start, last) by {
                                assert(passes(context, condition, body, entered, last));
                                assert(repeats(context, condition, body, before, last));
                            }
                        },
                    }
                },
                Ok(other) => {
                    let failure = Err(EvalError::ConditionNotBoolean(other));
                    assert(repeats(context, condition, body, before, ending(failure, self.state())));
                    return failure;
                },
            }
        }
    }

    /// Evaluates `expression` in this scope: its value, or the reason why
    /// it has none.
    pub fn evaluate(&mut self, expression: &Expression) -> (result: Result<Value, EvalError>)
        ensures
            final(self).context() == old(self).context(),
            evaluates(
                old(self).context(),
                expression@,
                old(self).state(),
                ending(result, final(self).state()),
            ),
            final(self).state().budget <= old(self).state().budget,
            result is Ok ==> final(self).state().budget < old(self).state().budget,
        decreases old(self).state().budget, 0int, 0int,
    {
        if self.budget == 0 {
            return Err(EvalError::BudgetExhausted);
        }
        self.budget = self.budget - 1;
        match expression {
            Expression::Infix(op, l, r) => self.evaluate_infix(*op, l, r),
            Expression::Prefix(op, l) => match op {
                PrefixOperator::Positive => self.evaluate(l),
                _ => Err(EvalError::UnsupportedPrefix(*op)),
            },
            Expression::Id(name) => self.get_value(name),
            Expression::Assignment(name, expr) => self.evaluate_assignment(name, expr),
            Expression::Num(n) => Ok(Value::Number(*n)),
            Expression::Str(string) => Ok(Value::Str(string.clone())),
            Expression::Function(params, smts) => Ok(Value::Function(share(params), share(smts))),
            Expression::If(expr, stmts, else_stmts) => self.evaluate_if(expr, stmts, else_stmts),
            Expression::While(expr, stmts) => self.evaluate_while(expr, stmts),
            Expression::Void => Ok(Value::Void),
            Expression::Bool(val) => Ok(Value::Bool(*val)),
            Expression::FunctionCall(name, params) => self.evaluate_call(name, params),
        }
    }
}

} // verus!
