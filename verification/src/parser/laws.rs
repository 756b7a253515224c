//! What holds of every parse.

use super::grammar::{
    combined, continued, expected, expression, group, onward, operand, parsed, Parsed,
};
use super::operators::{infix_of, InfixOperator};
use super::{precedence_of, ExpressionView, Precedence};
use crate::lexer::{Operator, TokenView};
use crate::number::Number;
use vstd::prelude::*;

verus! {

/// Parsing is deterministic: two parses of the same tokens from the same
/// position, with the same binding strength to the left, yield the same
/// shape and stop at the same position.
pub proof fn parsing_is_deterministic(
    tokens: Seq<TokenView>,
    at: int,
    precedence: Precedence,
    first: Parsed<Option<ExpressionView>>,
    second: Parsed<Option<ExpressionView>>,
)
    requires
        first == expression(tokens, at, precedence),
        second == expression(tokens, at, precedence),
    ensures
        first == second,
{
}

/// The shape of `left first middle second right`, three numbers with two
/// infix operators between them.
pub open spec fn grouped(
    left: Number,
    first: InfixOperator,
    middle: Number,
    second: InfixOperator,
    right: Number,
) -> ExpressionView {
    if precedence_of(second).rank() > precedence_of(first).rank() {
        ExpressionView::Infix(
            first,
            Box::new(ExpressionView::Num(left)),
            Box::new(
                ExpressionView::Infix(
                    second,
                    Box::new(ExpressionView::Num(middle)),
                    Box::new(ExpressionView::Num(right)),
                ),
            ),
        )
    } else {
        ExpressionView::Infix(
            second,
            Box::new(
                ExpressionView::Infix(
                    first,
                    Box::new(ExpressionView::Num(left)),
                    Box::new(ExpressionView::Num(middle)),
                ),
            ),
            Box::new(ExpressionView::Num(right)),
        )
    }
}

/// Precedence and associativity: of two infix operators between three
/// numbers, the second takes the middle number only if it binds tighter
/// than the first. So a product inside a sum is grouped first, and
/// operators of one precedence group from left to right.
pub proof fn operators_group_by_precedence(
    left: Number,
    first: Operator,
    middle: Number,
    second: Operator,
    right: Number,
)
    requires
        infix_of(first) is Some,
        infix_of(second) is Some,
    ensures
        expression(
            seq![
                TokenView::Num(left),
                TokenView::Op(first),
                TokenView::Num(middle),
                TokenView::Op(second),
                TokenView::Num(right),
            ],
            0,
            Precedence::Lowest,
        ) == parsed(
            Ok(Some(grouped(left, infix_of(first)->0, middle, infix_of(second)->0, right))),
            5,
        ),
{
    let tokens = seq![
        TokenView::Num(left),
        TokenView::Op(first),
        TokenView::Num(middle),
        TokenView::Op(second),
        TokenView::Num(right),
    ];
    let one = infix_of(first)->0;
    let two = infix_of(second)->0;
    let a = ExpressionView::Num(left);
    let b = ExpressionView::Num(middle);
    let c = ExpressionView::Num(right);
    assert(operand(tokens, 0) == parsed(Ok(a), 1));
    assert(operand(tokens, 2) == parsed(Ok(b), 3));
    assert(operand(tokens, 4) == parsed(Ok(c), 5));
    // The last number, read after the second operator.
    assert forall|precedence: Precedence, grown: ExpressionView|
        #[trigger] continued(tokens, 5, grown, precedence) == parsed(Ok(Some(grown)), 5) by {}
    assert forall|precedence: Precedence|
        #[trigger] expression(tokens, 4, precedence) == parsed(Ok(Some(c)), 5) by {
        assert(continued(tokens, 5, c, precedence) == parsed(Ok(Some(c)), 5));
    }
    if precedence_of(two).rank() > precedence_of(one).rank() {
        let inner = ExpressionView::Infix(two, Box::new(b), Box::new(c));
        assert(expression(tokens, 4, precedence_of(two)) == parsed(Ok(Some(c)), 5));
        assert(combined(tokens, 3, b, two, precedence_of(two)) == parsed(Ok(inner), 5));
        assert(onward(tokens, 3, 5) == 5);
        assert(continued(tokens, 5, inner, precedence_of(one)) == parsed(Ok(Some(inner)), 5));
        assert(continued(tokens, 3, b, precedence_of(one)) == parsed(Ok(Some(inner)), 5));
        assert(expression(tokens, 2, precedence_of(one)) == parsed(Ok(Some(inner)), 5));
        let outer = ExpressionView::Infix(one, Box::new(a), Box::new(inner));
        assert(combined(tokens, 1, a, one, precedence_of(one)) == parsed(Ok(outer), 5));
        assert(onward(tokens, 1, 5) == 5);
        assert(continued(tokens, 5, outer, Precedence::Lowest) == parsed(Ok(Some(outer)), 5));
        assert(continued(tokens, 1, a, Precedence::Lowest) == parsed(Ok(Some(outer)), 5));
    } else {
        let inner = ExpressionView::Infix(one, Box::new(a), Box::new(b));
        assert(continued(tokens, 3, b, precedence_of(one)) == parsed(Ok(Some(b)), 3));
        assert(expression(tokens, 2, precedence_of(one)) == parsed(Ok(Some(b)), 3));
        let outer = ExpressionView::Infix(two, Box::new(inner), Box::new(c));
        assert(expression(tokens, 4, precedence_of(two)) == parsed(Ok(Some(c)), 5));
        assert(combined(tokens, 1, a, one, precedence_of(one)) == parsed(Ok(inner), 3));
        assert(onward(tokens, 1, 3) == 3);
        assert(combined(tokens, 3, inner, two, precedence_of(two)) == parsed(Ok(outer), 5));
        assert(onward(tokens, 3, 5) == 5);
        assert(continued(tokens, 5, outer, Precedence::Lowest) == parsed(Ok(Some(outer)), 5));
        assert(continued(tokens, 3, inner, Precedence::Lowest) == parsed(Ok(Some(outer)), 5));
        assert(continued(tokens, 1, a, Precedence::Lowest) == parsed(Ok(Some(outer)), 5));
    }
}

/// A group is one operand: an infix operator after a group in parentheses
/// takes the whole group as its left operand, however tightly the operator
/// inside the group binds.
pub proof fn group_is_one_operand(
    left: Number,
    first: Operator,
    middle: Number,
    second: Operator,
    right: Number,
)
    requires
        infix_of(first) is Some,
        infix_of(second) is Some,
    ensures
        expression(
            seq![
                TokenView::LParenthesis,
                TokenView::Num(left),
                TokenView::Op(first),
                TokenView::Num(middle),
                TokenView::RParenthesis,
                TokenView::Op(second),
                TokenView::Num(right),
            ],
            0,
            Precedence::Lowest,
        ) == parsed(
            Ok(
                Some(
                    ExpressionView::Infix(
                        infix_of(second)->0,
                        Box::new(
                            ExpressionView::Infix(
                                infix_of(first)->0,
                                Box::new(ExpressionView::Num(left)),
                                Box::new(ExpressionView::Num(middle)),
                            ),
                        ),
                        Box::new(ExpressionView::Num(right)),
                    ),
                ),
            ),
            7,
        ),
{
    let tokens = seq![
        TokenView::LParenthesis,
        TokenView::Num(left),
        TokenView::Op(first),
        TokenView::Num(middle),
        TokenView::RParenthesis,
        TokenView::Op(second),
        TokenView::Num(right),
    ];
    let one = infix_of(first)->0;
    let two = infix_of(second)->0;
    let a = ExpressionView::Num(left);
    let b = ExpressionView::Num(middle);
    let c = ExpressionView::Num(right);
    let inner = ExpressionView::Infix(one, Box::new(a), Box::new(b));
    let outer = ExpressionView::Infix(two, Box::new(inner), Box::new(c));
    assert(operand(tokens, 1) == parsed(Ok(a), 2));
    assert(operand(tokens, 3) == parsed(Ok(b), 4));
    assert(operand(tokens, 6) == parsed(Ok(c), 7));
    // Inside the group.
    assert(continued(tokens, 4, b, precedence_of(one)) == parsed(Ok(Some(b)), 4));
    assert(expression(tokens, 3, precedence_of(one)) == parsed(Ok(Some(b)), 4));
    assert(combined(tokens, 2, a, one, precedence_of(one)) == parsed(Ok(inner), 4));
    assert(onward(tokens, 2, 4) == 4);
    assert(continued(tokens, 4, inner, Precedence::Lowest) == parsed(Ok(Some(inner)), 4));
    assert(continued(tokens, 2, a, Precedence::Lowest) == parsed(Ok(Some(inner)), 4));
    assert(expression(tokens, 1, Precedence::Lowest) == parsed(Ok(Some(inner)), 4));
    // The group as an operand.
    assert(expected(tokens, 4, TokenView::RParenthesis) == parsed(Ok(()), 5));
    assert(group(tokens, 1) == parsed(Ok(inner), 5));
    assert(operand(tokens, 0) == parsed(Ok(inner), 5));
    // What follows the group.
    assert(continued(tokens, 7, c, precedence_of(two)) == parsed(Ok(Some(c)), 7));
    assert(expression(tokens, 6, precedence_of(two)) == parsed(Ok(Some(c)), 7));
    assert(combined(tokens, 5, inner, two, precedence_of(two)) == parsed(Ok(outer), 7));
    assert(onward(tokens, 5, 7) == 7);
    assert(continued(tokens, 7, outer, Precedence::Lowest) == parsed(Ok(Some(outer)), 7));
    assert(continued(tokens, 5, inner, Precedence::Lowest) == parsed(Ok(Some(outer)), 7));
    assert(onward(tokens, 0, 5) == 5);
}

} // verus!
