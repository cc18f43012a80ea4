//! What the embedding program supplies to the interpreter.

use vstd::prelude::*;
use crate::interpret::{Context, Heap, JSResult, Value};

verus! {

/// The services of the embedding program.
///
/// Numbers are IEEE 754 binary64 values, passed as their bit patterns. Nothing is assumed
/// of what a method gives: the evaluator records each question and its answer in the trace
/// of the heap, and its contracts hold whatever the answers are.
pub trait Host {
    /// The binary64 sum of two numbers.
    fn number_add(&self, left: u64, right: u64) -> u64;

    /// The binary64 difference of two numbers.
    fn number_subtract(&self, left: u64, right: u64) -> u64;

    /// The binary64 product of two numbers.
    fn number_multiply(&self, left: u64, right: u64) -> u64;

    /// The binary64 quotient of two numbers.
    fn number_divide(&self, left: u64, right: u64) -> u64;

    /// The number that a text denotes; a not-a-number where it denotes none.
    fn number_parse(&self, text: &str) -> u64;

    /// The text of a number.
    fn number_format(&self, bits: u64) -> String;

    /// Writes one line of output.
    fn print(&self, line: &str);

    /// Runs the host's native function number `native`. It may read and change the heap, and
    /// may call back into the interpreter, with `depth` as the bound on how deeply the
    /// evaluation may still nest.
    fn call(
        &self,
        native: u64,
        arguments: Vec<Value>,
        context: Context,
        heap: &mut Heap,
        depth: usize,
    ) -> JSResult;
}

} // verus!
