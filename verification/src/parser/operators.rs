//! The operator table: what an operator of the source means before or
//! between operands.

use crate::lexer::Operator;
use vstd::prelude::*;

verus! {

/// An operator between two operands.
#[derive(Clone, Copy, PartialEq, Eq, Structural, Debug)]
pub enum InfixOperator {
    Add,
    Sub,
    Mul,
    Div,
    Equals,
    LessThan,
    LessThanOrEquals,
    GreaterThan,
    GreaterThanOrEquals,
}

/// An operator before its operand.
#[derive(Clone, Copy, PartialEq, Eq, Structural, Debug)]
pub enum PrefixOperator {
    Positive,
    Negative,
    Not,
}

/// The infix meaning of an operator: every operator but `Not` has one.
pub open spec fn infix_of(operator: Operator) -> Option<InfixOperator> {
    match operator {
        Operator::Add => Some(InfixOperator::Add),
        Operator::Sub => Some(InfixOperator::Sub),
        Operator::Mul => Some(InfixOperator::Mul),
        Operator::Div => Some(InfixOperator::Div),
        Operator::Equals => Some(InfixOperator::Equals),
        Operator::GreaterThan => Some(InfixOperator::GreaterThan),
        Operator::GreaterThanOrEquals => Some(InfixOperator::GreaterThanOrEquals),
        Operator::LessThan => Some(InfixOperator::LessThan),
        Operator::LessThanOrEquals => Some(InfixOperator::LessThanOrEquals),
        Operator::Not => None,
    }
}

/// The prefix meaning of an operator: only `+` and `-` have one.
pub open spec fn prefix_of(operator: Operator) -> Option<PrefixOperator> {
    match operator {
        Operator::Add => Some(PrefixOperator::Positive),
        Operator::Sub => Some(PrefixOperator::Negative),
        _ => None,
    }
}

impl Operator {
    /// The operator as an infix operator, if it can stand between operands.
    pub fn to_infix(&self) -> (infix: Option<InfixOperator>)
        ensures
            infix == infix_of(*self),
    {
        match self {
            Operator::Add => Some(InfixOperator::Add),
            Operator::Sub => Some(InfixOperator::Sub),
            Operator::Mul => Some(InfixOperator::Mul),
            Operator::Div => Some(InfixOperator::Div),
            Operator::Equals => Some(InfixOperator::Equals),
            Operator::GreaterThan => Some(InfixOperator::GreaterThan),
            Operator::GreaterThanOrEquals => Some(InfixOperator::GreaterThanOrEquals),
            Operator::LessThan => Some(InfixOperator::LessThan),
            Operator::LessThanOrEquals => Some(InfixOperator::LessThanOrEquals),
            _ => None,
        }
    }

    /// The operator as a prefix operator, if it can stand before an operand.
    pub fn to_prefix(&self) -> (prefix: Option<PrefixOperator>)
        ensures
            prefix == prefix_of(*self),
    {
        match self {
            Operator::Add => Some(PrefixOperator::Positive),
            Operator::Sub => Some(PrefixOperator::Negative),
            _ => None,
        }
    }
}

} // verus!
