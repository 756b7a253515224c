//! What the parser yields, as functions of the tokens.
//!
//! Every function takes the tokens and a position and gives a result with
//! the position after what was read. The positions handed on are clamped by
//! [`onward`], which changes none of them: each part of the parser reads
//! forward and stops at the end of the tokens at the latest.

use super::operators::{infix_of, prefix_of, InfixOperator, PrefixOperator};
use super::{precedence_of, ExpressionView, ParseErrorView, Precedence};
use crate::lexer::TokenView;
use vstd::prelude::*;

verus! {

/// What a part of the parser yields, and the position it stops at.
pub struct Parsed<T> {
    pub result: Result<T, ParseErrorView>,
    pub position: int,
}

/// The pair of a result and the position after it.
pub open spec fn parsed<T>(result: Result<T, ParseErrorView>, position: int) -> Parsed<T> {
    Parsed { result, position }
}

/// `next`, kept after `at` and within the tokens.
pub open spec fn onward(tokens: Seq<TokenView>, at: int, next: int) -> int {
    if next <= at {
        at + 1
    } else if next > tokens.len() {
        tokens.len() as int
    } else {
        next
    }
}

/// Whether a token ends an expression without belonging to it: a
/// statement separator, a brace, a closing bracket or a closing parenthesis.
pub open spec fn terminator(token: TokenView) -> bool {
    token == TokenView::EOS || token == TokenView::LBrace || token == TokenView::RBrace || token
        == TokenView::RBracket || token == TokenView::RParenthesis
}

/// The expression that starts at `at`, read with the binding strength
/// `precedence` to its left: `None` where the tokens have ended.
///
/// A statement separator before the expression is skipped. The expression
/// is its first operand, grown by what follows it.
pub open spec fn expression(tokens: Seq<TokenView>, at: int, precedence: Precedence) -> Parsed<
    Option<ExpressionView>,
>
    decreases tokens.len() - at, 1int,
{
    if !(0 <= at < tokens.len()) {
        Parsed { result: Ok(None), position: at }
    } else if tokens[at] == TokenView::EOS {
        expression(tokens, at + 1, precedence)
    } else {
        let first = operand(tokens, at);
        match first.result {
            Ok(left) => continued(tokens, onward(tokens, at, first.position), left, precedence),
            Err(error) => Parsed { result: Err(error), position: first.position },
        }
    }
}

/// The operand of the prefix operator `prefix`, which starts at `at` and is
/// read at the precedence of prefix operators, under that operator.
pub open spec fn prefixed(tokens: Seq<TokenView>, at: int, prefix: PrefixOperator) -> Parsed<
    ExpressionView,
>
    decreases tokens.len() - at, 2int,
{
    let inner = expression(tokens, at, Precedence::Prefix);
    Parsed {
        result: match inner.result {
            Ok(Some(value)) => Ok(ExpressionView::Prefix(prefix, Box::new(value))),
            Ok(None) => Err(ParseErrorView::MissingOperand(prefix)),
            Err(error) => Err(error),
        },
        position: inner.position,
    }
}

/// The group whose contents start at `at`, after its opening parenthesis:
/// the expression at the lowest precedence up to the closing parenthesis,
/// which must follow it and is read.
pub open spec fn group(tokens: Seq<TokenView>, at: int) -> Parsed<ExpressionView>
    decreases tokens.len() - at, 2int,
{
    let inner = expression(tokens, at, Precedence::Lowest);
    match inner.result {
        Ok(Some(value)) => {
            let close = expected(tokens, inner.position, TokenView::RParenthesis);
            Parsed {
                result: match close.result {
                    Ok(_) => Ok(value),
                    Err(error) => Err(error),
                },
                position: close.position,
            }
        },
        Ok(None) => Parsed {
            result: Err(ParseErrorView::ExpectedExpression),
            position: inner.position,
        },
        Err(error) => Parsed { result: Err(error), position: inner.position },
    }
}

/// The operand that starts at `at`: a prefix operator with its operand, a
/// group in parentheses, a function literal, a call, a conditional, a loop,
/// a literal or an identifier.
pub open spec fn operand(tokens: Seq<TokenView>, at: int) -> Parsed<ExpressionView>
    recommends
        0 <= at < tokens.len(),
    decreases tokens.len() - at, 0int,
{
    if !(0 <= at < tokens.len()) {
        Parsed { result: Err(ParseErrorView::ExpectedExpression), position: at }
    } else {
        match tokens[at] {
            TokenView::Op(operator) => match prefix_of(operator) {
                None => Parsed {
                    result: Err(ParseErrorView::InvalidPrefixOperator(operator)),
                    position: at + 1,
                },
                Some(prefix) => prefixed(tokens, at + 1, prefix),
            },
            TokenView::LParenthesis => group(tokens, at + 1),
            TokenView::VBar => function(tokens, at + 1),
            TokenView::LBracket => call(tokens, at + 1),
            TokenView::While => repetition(tokens, at + 1),
            TokenView::If => conditional(tokens, at + 1),
            TokenView::True => Parsed { result: Ok(ExpressionView::Bool(true)), position: at + 1 },
            TokenView::False => Parsed {
                result: Ok(ExpressionView::Bool(false)),
                position: at + 1,
            },
            TokenView::Void => Parsed { result: Ok(ExpressionView::Void), position: at + 1 },
            TokenView::Num(number) => Parsed {
                result: Ok(ExpressionView::Num(number)),
                position: at + 1,
            },
            TokenView::Str(string) => Parsed {
                result: Ok(ExpressionView::Str(string)),
                position: at + 1,
            },
            TokenView::Id(name) => Parsed { result: Ok(ExpressionView::Id(name)), position: at + 1 },
            other => Parsed { result: Err(ParseErrorView::UnexpectedToken(other)), position: at + 1 },
        }
    }
}

/// The assignment to `left` of the expression after the assignment marker
/// at `at`, read with the binding strength `precedence` to its left.
/// `left` must be an identifier; if it is not, nothing is read.
pub open spec fn assigned(
    tokens: Seq<TokenView>,
    at: int,
    left: ExpressionView,
    precedence: Precedence,
) -> Parsed<ExpressionView>
    decreases tokens.len() - at, 0int,
{
    match left {
        ExpressionView::Id(name) if 0 <= at < tokens.len() => {
            let value = expression(tokens, at + 1, precedence);
            Parsed {
                result: match value.result {
                    Ok(Some(right)) => Ok(ExpressionView::Assignment(name, Box::new(right))),
                    Ok(None) => Err(ParseErrorView::ExpectedExpression),
                    Err(error) => Err(error),
                },
                position: value.position,
            }
        },
        _ => Parsed { result: Err(ParseErrorView::NotAnIdentifier(left)), position: at },
    }
}

/// `left` and the expression after the infix operator at `at`, read with
/// the binding strength `precedence` to its left, under the operator.
pub open spec fn combined(
    tokens: Seq<TokenView>,
    at: int,
    left: ExpressionView,
    infix: InfixOperator,
    precedence: Precedence,
) -> Parsed<ExpressionView>
    decreases tokens.len() - at, 0int,
{
    if !(0 <= at < tokens.len()) {
        Parsed { result: Err(ParseErrorView::ExpectedExpression), position: at }
    } else {
        let value = expression(tokens, at + 1, precedence);
        Parsed {
            result: match value.result {
                Ok(Some(right)) => Ok(
                    ExpressionView::Infix(infix, Box::new(left), Box::new(right)),
                ),
                Ok(None) => Err(ParseErrorView::ExpectedExpression),
                Err(error) => Err(error),
            },
            position: value.position,
        }
    }
}

/// The expression that `left` grows into with what follows at `at`.
///
/// A terminator or the end of the tokens leaves `left` as it is, and is
/// not read. An assignment marker makes `left`,
/// which must be an identifier, the target of what follows. An infix
/// operator that binds tighter than `precedence` takes `left` and the
/// expression after it, read at the operator's own precedence; one that
/// does not leaves `left` as it is.
pub open spec fn continued(
    tokens: Seq<TokenView>,
    at: int,
    left: ExpressionView,
    precedence: Precedence,
) -> Parsed<Option<ExpressionView>>
    decreases tokens.len() - at, 1int,
{
    if !(0 <= at < tokens.len()) {
        Parsed { result: Ok(Some(left)), position: at }
    } else if terminator(tokens[at]) {
        Parsed { result: Ok(Some(left)), position: at }
    } else {
        match tokens[at] {
            TokenView::Assign => {
                let step = assigned(tokens, at, left, precedence);
                match step.result {
                    Ok(grown) => continued(
                        tokens,
                        onward(tokens, at, step.position),
                        grown,
                        precedence,
                    ),
                    Err(error) => Parsed { result: Err(error), position: step.position },
                }
            },
            TokenView::Op(operator) => match infix_of(operator) {
                None => Parsed {
                    result: Err(ParseErrorView::InvalidInfixOperator(operator)),
                    position: at,
                },
                Some(infix) => if precedence.rank() >= precedence_of(infix).rank() {
                    Parsed { result: Ok(Some(left)), position: at }
                } else {
                    let step = combined(tokens, at, left, infix, precedence_of(infix));
                    match step.result {
                        Ok(grown) => continued(
                            tokens,
                            onward(tokens, at, step.position),
                            grown,
                            precedence,
                        ),
                        Err(error) => Parsed { result: Err(error), position: step.position },
                    }
                },
            },
            other => Parsed { result: Err(ParseErrorView::ExpectedOperator(other)), position: at },
        }
    }
}

/// The expressions from `at` up to the token `closer`, after those in
/// `read`.
///
/// Before each expression one statement separator may stand. The sequence
/// ends with `closer`, which is read. Tokens that end before it leave the
/// sequence unterminated.
pub open spec fn sequence(
    tokens: Seq<TokenView>,
    at: int,
    closer: TokenView,
    read: Seq<ExpressionView>,
) -> Parsed<Seq<ExpressionView>>
    decreases tokens.len() - at, 2int,
{
    if !(0 <= at < tokens.len()) {
        Parsed { result: Err(ParseErrorView::Unterminated), position: at }
    } else if tokens[at] == closer {
        Parsed { result: Ok(read), position: at + 1 }
    } else {
        let start = if tokens[at] == TokenView::EOS {
            at + 1
        } else {
            at
        };
        let item = expression(tokens, start, Precedence::Lowest);
        match item.result {
            Ok(Some(value)) => sequence(
                tokens,
                onward(tokens, at, item.position),
                closer,
                read.push(value),
            ),
            Ok(None) => Parsed { result: Err(ParseErrorView::Unterminated), position: item.position },
            Err(error) => Parsed { result: Err(error), position: item.position },
        }
    }
}

/// The token that must stand at `at`, which is then read: the position
/// after it, or the error that names what was found instead.
pub open spec fn expected(tokens: Seq<TokenView>, at: int, token: TokenView) -> Parsed<()> {
    if !(0 <= at < tokens.len()) {
        Parsed { result: Err(ParseErrorView::Expected(token, None)), position: at }
    } else if tokens[at] == token {
        Parsed { result: Ok(()), position: at + 1 }
    } else {
        Parsed { result: Err(ParseErrorView::Expected(token, Some(tokens[at]))), position: at }
    }
}

/// The block whose opening brace must stand at `at`.
pub open spec fn braced(tokens: Seq<TokenView>, at: int) -> Parsed<Seq<ExpressionView>>
    decreases tokens.len() - at, 3int,
{
    let open = expected(tokens, at, TokenView::LBrace);
    match open.result {
        Ok(_) => sequence(tokens, at + 1, TokenView::RBrace, Seq::empty()),
        Err(error) => Parsed { result: Err(error), position: open.position },
    }
}

/// The parameter names from `at` up to the closing bar, after those in
/// `names`: names separated by commas, none of them twice.
pub open spec fn parameters(tokens: Seq<TokenView>, at: int, names: Seq<Seq<char>>) -> Parsed<
    Seq<Seq<char>>,
>
    decreases tokens.len() - at, 0int,
{
    if !(0 <= at < tokens.len()) {
        Parsed { result: Err(ParseErrorView::MissingParameters), position: at }
    } else {
        match tokens[at] {
            TokenView::VBar => Parsed { result: Ok(names), position: at + 1 },
            TokenView::Id(name) => if names.contains(name) {
                Parsed { result: Err(ParseErrorView::DuplicateParameter(name)), position: at + 1 }
            } else if at + 1 >= tokens.len() {
                Parsed { result: Err(ParseErrorView::MissingSeparator), position: at + 1 }
            } else {
                match tokens[at + 1] {
                    TokenView::Comma => parameters(tokens, at + 2, names.push(name)),
                    TokenView::VBar => Parsed { result: Ok(names.push(name)), position: at + 2 },
                    other => Parsed {
                        result: Err(ParseErrorView::UnexpectedInParameters(other)),
                        position: at + 2,
                    },
                }
            },
            _ => Parsed { result: Err(ParseErrorView::ExpectedParameterName), position: at + 1 },
        }
    }
}

/// The function literal whose parameter list starts at `at`, after its
/// opening bar: the parameters, then the body in braces.
pub open spec fn function(tokens: Seq<TokenView>, at: int) -> Parsed<ExpressionView>
    decreases tokens.len() - at, 4int,
{
    let list = parameters(tokens, at, Seq::empty());
    match list.result {
        Ok(names) if 0 <= at < tokens.len() => {
            let body = braced(tokens, onward(tokens, at, list.position));
            Parsed {
                result: match body.result {
                    Ok(block) => Ok(ExpressionView::Function(names, block)),
                    Err(error) => Err(error),
                },
                position: body.position,
            }
        },
        Ok(_) => Parsed { result: Err(ParseErrorView::MissingParameters), position: at },
        Err(error) => Parsed { result: Err(error), position: list.position },
    }
}

/// The call whose function name must stand at `at`, after the opening
/// bracket: the name, then the arguments up to the closing bracket.
pub open spec fn call(tokens: Seq<TokenView>, at: int) -> Parsed<ExpressionView>
    decreases tokens.len() - at, 3int,
{
    if !(0 <= at < tokens.len()) {
        Parsed { result: Err(ParseErrorView::MissingFunctionName), position: at }
    } else {
        match tokens[at] {
            TokenView::Id(name) => {
                let arguments = sequence(tokens, at + 1, TokenView::RBracket, Seq::empty());
                Parsed {
                    result: match arguments.result {
                        Ok(values) => Ok(ExpressionView::FunctionCall(name, values)),
                        Err(error) => Err(error),
                    },
                    position: arguments.position,
                }
            },
            other => Parsed {
                result: Err(ParseErrorView::ExpectedIdentifier(other)),
                position: at + 1,
            },
        }
    }
}

/// The condition that starts at `at` and the block in braces after it.
pub open spec fn guarded(tokens: Seq<TokenView>, at: int) -> Parsed<
    (ExpressionView, Seq<ExpressionView>),
>
    decreases tokens.len() - at, 4int,
{
    let condition = expression(tokens, at, Precedence::Lowest);
    match condition.result {
        Ok(Some(test)) if 0 <= at < tokens.len() => {
            let block = braced(tokens, onward(tokens, at, condition.position));
            Parsed {
                result: match block.result {
                    Ok(body) => Ok((test, body)),
                    Err(error) => Err(error),
                },
                position: block.position,
            }
        },
        Ok(_) => Parsed {
            result: Err(ParseErrorView::ExpectedExpression),
            position: condition.position,
        },
        Err(error) => Parsed { result: Err(error), position: condition.position },
    }
}

/// The loop whose condition starts at `at`, after the keyword.
pub open spec fn repetition(tokens: Seq<TokenView>, at: int) -> Parsed<ExpressionView>
    decreases tokens.len() - at, 5int,
{
    let head = guarded(tokens, at);
    Parsed {
        result: match head.result {
            Ok((test, body)) => Ok(ExpressionView::While(Box::new(test), body)),
            Err(error) => Err(error),
        },
        position: head.position,
    }
}

/// The conditional whose condition starts at `at`, after the keyword: the
/// condition, the block in braces, and after the keyword `else`, if it
/// follows, a second block in braces.
pub open spec fn conditional(tokens: Seq<TokenView>, at: int) -> Parsed<ExpressionView>
    decreases tokens.len() - at, 5int,
{
    let head = guarded(tokens, at);
    match head.result {
        Ok((test, consequence)) => {
            let next = onward(tokens, at, head.position);
            if next < tokens.len() && tokens[next] == TokenView::Else {
                let alternative = braced(tokens, next + 1);
                Parsed {
                    result: match alternative.result {
                        Ok(block) => Ok(
                            ExpressionView::If(Box::new(test), consequence, Some(block)),
                        ),
                        Err(error) => Err(error),
                    },
                    position: alternative.position,
                }
            } else {
                Parsed {
                    result: Ok(ExpressionView::If(Box::new(test), consequence, None)),
                    position: head.position,
                }
            }
        },
        Err(error) => Parsed { result: Err(error), position: head.position },
    }
}

} // verus!
