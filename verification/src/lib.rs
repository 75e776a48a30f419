//! Lowering of scalar functions into circuit-builder calls.
//!
//! A function written with ordinary arithmetic, comparisons, bitwise operators and
//! two-armed conditionals is rewritten into calls against a circuit builder, and wrapped
//! in a dispatch over the supported bit widths.
//!
//! - `ast`: the syntax tree that the pass reads and writes, and its mathematical value.
//! - `signature`: the declared shape of a function and what is read from it.
//! - `rewrite`: operators to builder calls, conditionals to multiplexers.
//! - `dispatch`: the table from the element type's name to a bit width.
//! - `emit`: the emitted form, for the modes `compile` and `execute`.
//! - `render`: the text of the emitted form.
//! - `semantics`: what a function computes before and after lowering, and the laws that
//!   relate the two.
//! - `evaluate`: a reference evaluation of the emitted form on machine integers.
//! - `error`: the refusals.

pub mod ast;
pub mod dispatch;
pub mod emit;
pub mod error;
pub mod evaluate;
pub mod render;
pub mod rewrite;
pub mod semantics;
pub mod signature;
