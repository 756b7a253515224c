//! Numbers of the language and the unit that computes with them.
//!
//! A number is an IEEE 754 double, held as its bit pattern. The library
//! never looks inside the pattern: every computation on numbers is asked of
//! an implementation of [`Numerics`], and the contracts of the library speak
//! of the answers through the `*_gives` predicates below.

use vstd::prelude::*;

verus! {

/// A double-precision number, as its 64-bit pattern.
#[derive(Clone, Copy, PartialEq, Eq, Structural, Debug)]
pub struct Number {
    pub bits: u64,
}

/// How two numbers or two strings compare.
#[derive(Clone, Copy, PartialEq, Eq, Structural, Debug)]
pub enum Order {
    Less,
    Equal,
    Greater,
}

/// The four arithmetic operations on numbers.
#[derive(Clone, Copy, PartialEq, Eq, Structural, Debug)]
pub enum Arithmetic {
    Add,
    Sub,
    Mul,
    Div,
}

/// The numeric unit: everything the interpreter needs computed on doubles.
///
/// No method promises anything. What an implementation returns is referred
/// to in contracts through [`literal_gives`], [`arithmetic_gives`],
/// [`order_gives`] and [`truncate_gives`].
pub trait Numerics {
    /// The value of a decimal literal: the digits, most significant first,
    /// read as an integer and scaled down by ten to the power
    /// `fraction_digits`. `None` when the magnitude is too large for a
    /// finite double.
    fn literal(&self, digits: &Vec<u8>, fraction_digits: usize) -> Option<Number>;

    /// The result of `operation` on `left` and `right`.
    fn arithmetic(&self, operation: Arithmetic, left: Number, right: Number) -> Number;

    /// How `left` compares to `right`; `None` when they are unordered.
    fn order(&self, left: Number, right: Number) -> Option<Order>;

    /// `value` cut down to a count: the integer part, with zero for what is
    /// negative or not a number, and the largest count for what is too large.
    fn truncate(&self, value: Number) -> usize;
}

/// `answer` is a possible result of asking `unit` for the value of a literal.
pub open spec fn literal_gives<N: Numerics>(
    unit: &N,
    digits: Seq<u8>,
    fraction_digits: nat,
    answer: Option<Number>,
) -> bool {
    exists|given: Vec<u8>, fraction: usize|
        given@ == digits && fraction == fraction_digits && #[trigger] call_ensures(
            N::literal,
            (unit, &given, fraction),
            answer,
        )
}

/// `answer` is a possible result of asking `unit` for `operation` on `left` and `right`.
pub open spec fn arithmetic_gives<N: Numerics>(
    unit: &N,
    operation: Arithmetic,
    left: Number,
    right: Number,
    answer: Number,
) -> bool {
    call_ensures(N::arithmetic, (unit, operation, left, right), answer)
}

/// `answer` is a possible result of asking `unit` how `left` compares to `right`.
pub open spec fn order_gives<N: Numerics>(
    unit: &N,
    left: Number,
    right: Number,
    answer: Option<Order>,
) -> bool {
    call_ensures(N::order, (unit, left, right), answer)
}

/// `answer` is a possible result of asking `unit` to truncate `value`.
pub open spec fn truncate_gives<N: Numerics>(unit: &N, value: Number, answer: usize) -> bool {
    call_ensures(N::truncate, (unit, value), answer)
}

/// The unit values every literal in one way only.
pub open spec fn literal_is_determined<N: Numerics>(unit: &N) -> bool {
    forall|digits: Seq<u8>, fraction_digits: nat, a: Option<Number>, b: Option<Number>|
        #[trigger] literal_gives(unit, digits, fraction_digits, a) && #[trigger] literal_gives(
            unit,
            digits,
            fraction_digits,
            b,
        ) ==> a == b
}

} // verus!
