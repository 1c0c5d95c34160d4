//! An ahead-of-time compiler for a minimal expression language: immediate
//! literals and unary built-in operations, lowered to textual assembly that
//! computes a tagged 32-bit value in the accumulator register.
//!
//! The pipeline is `lex` (source bytes to tokens), `parse` (tokens to one
//! expression tree), and `compile` (tree to assembly text); `run` strings the
//! three together. Alongside the compiler, `semantics` gives the tagged-value
//! meaning of every expression and an evaluator proved against it, so that the
//! behaviour of the generated code can be stated and tested without an
//! assembler.

pub mod ascii;
pub mod compile;
pub mod digits;
pub mod expression;
pub mod immediate;
pub mod lex;
pub mod parse;
pub mod semantics;
