//! A tree-walking interpreter for a small dynamically typed scripting
//! language: a lexer, a precedence-climbing parser and a scope-aware
//! evaluator, each with a contract over a mathematical model of its data.
//!
//! Floating-point work and the bodies of native functions are not part of
//! the library. They are reached through the traits [`number::Numerics`] and
//! [`evaluator::Host`], and every contract says what holds for whatever
//! those calls return.

pub mod number;
pub mod text;
mod shared;
pub mod lexer;
pub mod parser;
pub mod evaluator;
pub mod interpreter;

