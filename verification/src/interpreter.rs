//! The whole pipeline: a text is cut into tokens, and its expressions are
//! parsed and evaluated one after the other.

use crate::evaluator::errors::{EvalError, EvalErrorView};
use crate::evaluator::semantics::{evaluates, lasts, Context, Outcome, State};
use crate::evaluator::{ending, Evaluator, Host};
use crate::lexer::{collects, LexError, LexErrorView, Lexer, TokenView};
use crate::parser::grammar::expression;
use crate::parser::{ParseError, ParseErrorView, Parser, Precedence};
use vstd::prelude::*;

verus! {

/// Why a text could not be run to its end.
#[derive(Debug)]
pub enum Failure {
    Lex(LexError),
    Parse(ParseError),
    Eval(EvalError),
}

/// A failure, with the view of its cause.
pub enum FailureView {
    Lex(LexErrorView),
    Parse(ParseErrorView),
    Eval(EvalErrorView),
}

impl View for Failure {
    type V = FailureView;

    open spec fn view(&self) -> FailureView {
        match self {
            Failure::Lex(error) => FailureView::Lex(error@),
            Failure::Parse(error) => FailureView::Parse(error@),
            Failure::Eval(error) => FailureView::Eval(error@),
        }
    }
}

/// How a run ends: with success or the first failure, and the state that
/// the evaluator is left in.
pub struct Run {
    pub result: Result<(), FailureView>,
    pub state: State,
}

/// The run that returned `result` and left `state`.
pub open spec fn run(result: Result<(), Failure>, state: State) -> Run {
    Run {
        result: match result {
            Ok(_) => Ok(()),
            Err(failure) => Err(failure@),
        },
        state,
    }
}

/// The expressions of `tokens` from position `at` on can be parsed and
/// evaluated one after the other, from the state `before`, with the run
/// `end`: the first expression is parsed; where the tokens have ended the
/// run succeeds, and where they are no expression it fails; otherwise the
/// expression is evaluated, its failure fails the run, and after its
/// success the run goes on behind it.
pub open spec fn executes<H: Host>(
    context: Context<H>,
    tokens: Seq<TokenView>,
    at: int,
    before: State,
    end: Run,
) -> bool
    decreases tokens.len() - at, 1int,
{
    let parsed = expression(tokens, at, Precedence::Lowest);
    match parsed.result {
        Err(error) => end == (Run { result: Err(FailureView::Parse(error)), state: before }),
        Ok(None) => end == (Run { result: Ok(()), state: before }),
        Ok(Some(statement)) => at < parsed.position <= tokens.len() && executes_on(
            context,
            tokens,
            parsed.position,
            statement,
            before,
            end,
        ),
    }
}

/// The evaluation of `statement`, and the run of the expressions from
/// position `next` on after it.
pub open spec fn executes_on<H: Host>(
    context: Context<H>,
    tokens: Seq<TokenView>,
    next: int,
    statement: crate::parser::ExpressionView,
    before: State,
    end: Run,
) -> bool
    decreases tokens.len() - next, 2int,
{
    exists|value: Outcome| #[trigger]
        lasts(before, value) && evaluates(context, statement, before, value) && (
        match value.result {
            Err(error) => end == (Run { result: Err(FailureView::Eval(error)), state: value.state }),
            Ok(_) => executes(context, tokens, next, value.state, end),
        })
}

/// The text `text` can be run from the state `before` with the run `end`:
/// its tokens are collected, with the host as the numeric unit; a lexical
/// failure fails the run before anything is evaluated; otherwise the
/// expressions of the tokens are run from the first.
pub open spec fn processes<H: Host>(
    context: Context<H>,
    text: Seq<char>,
    before: State,
    end: Run,
) -> bool {
    exists|lexed: Result<Seq<TokenView>, LexErrorView>| #[trigger]
        collects(&context.host, text, 0, Seq::empty(), lexed) && (match lexed {
            Err(error) => end == (Run { result: Err(FailureView::Lex(error)), state: before }),
            Ok(tokens) => executes(context, tokens, 0, before, end),
        })
}

/// Runs the text `buf` in the scope `evaluator`: every expression of the
/// text is evaluated in its turn, until the text ends or something fails.
pub fn process<'p, H: Host>(buf: String, evaluator: &mut Evaluator<'p, H>) -> (result: Result<
    (),
    Failure,
>)
    ensures
        final(evaluator).context() == old(evaluator).context(),
        processes(
            old(evaluator).context(),
            buf@,
            old(evaluator).state(),
            run(result, final(evaluator).state()),
        ),
{
    let ghost context = evaluator.context();
    let ghost start = evaluator.state();
    let collected = {
        let mut lexer = Lexer::new(buf, evaluator.host());
        lexer.collect()
    };
    let ghost lexed = crate::lexer::collected_view(collected);
    assert(collects(&context.host, buf@, 0, Seq::empty(), lexed));
    let tokens = match collected {
        Ok(tokens) => tokens,
        Err(err) => {
            return Err(Failure::Lex(err));
        },
    };
    let ghost shapes = crate::lexer::tokens_view(tokens@);
    let mut parser = Parser::new(&tokens);
    loop
        invariant
            context == old(evaluator).context(),
            start == old(evaluator).state(),
            lexed == Ok::<Seq<TokenView>, LexErrorView>(shapes),
            collects(&context.host, buf@, 0, Seq::empty(), lexed),
            parser.tokens() == shapes,
            0 <= parser.position() <= shapes.len(),
            evaluator.context() == context,
            forall|end: Run|
                executes(context, shapes, parser.position(), evaluator.state(), end) ==> executes(
                    context,
                    shapes,
                    0,
                    start,
                    end,
                ),
        decreases shapes.len() - parser.position(),
    {
        let ghost at = parser.position();
        let ghost before = evaluator.state();
        match parser.parse_expression(Precedence::Lowest) {
            Ok(Some(expr)) => {
                let evaluated = evaluator.evaluate(&expr);
                let ghost value = ending(evaluated, evaluator.state());
                assert(lasts(before, value));
                match evaluated {
                    Ok(_) => {
                        assert forall|end: Run|
                            executes(
                                context,
                                shapes,
                                parser.position(),
                                evaluator.state(),
                                end,
                            ) implies executes(context, shapes, 0, start, end) by {
                            assert(executes_on(
                                context,
                                shapes,
                                parser.position(),
                                expr@,
                                before,
                                end,
                            ));
                            assert(executes(context, shapes, at, before, end));
                        }
                    },
                    Err(err) => {
                        let result = Err(Failure::Eval(err));
                        let ghost end = run(result, evaluator.state());
                        assert(executes_on(
                            context,
                            shapes,
                            parser.position(),
                            expr@,
                            before,
                            end,
                        ));
                        assert(executes(context, shapes, at, before, end));
                        return result;
                    },
                }
            },
            Ok(None) => {
                let result = Ok(());
                assert(executes(context, shapes, at, before, run(result, evaluator.state())));
                return result;
            },
            Err(string) => {
                let result = Err(Failure::Parse(string));
                assert(executes(context, shapes, at, before, run(result, evaluator.state())));
                return result;
            },
        }
    }
}

} // verus!
