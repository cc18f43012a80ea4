//! An embeddable interpreter for a small, dynamically typed, prototype-based scripting
//! language in the manner of JavaScript.
//!
//! Source text is parsed into a syntax tree ([`parser`], [`ast`]) and the tree is evaluated
//! against a heap of live objects ([`interpret`]), giving a value or a thrown value. An
//! engine ([`runtime`]) bundles a heap that holds the built-in objects with the context in
//! which source text is evaluated.
//!
//! # Objects
//!
//! All object records live in a [`interpret::Heap`], and a handle is the index of a record.
//! Handles alias freely, so the graph of objects may hold circles, through properties and
//! through prototypes. Records are never removed: a heap grows until it is dropped. A walk
//! along a prototype chain takes at most as many steps as the heap has records, and reports
//! a chain that runs in a circle as a thrown value.
//!
//! # Numbers and the host
//!
//! A number is an IEEE 754 binary64 value, held as its bit pattern. What can be read off a
//! pattern is decided here ([`number`]). Arithmetic, and the passage between numbers and
//! text, is asked of the embedding program, as are output and native functions of its own
//! ([`host::Host`]).
//!
//! # Depth
//!
//! The parser and the evaluator are recursive. Both count how deeply they nest, the
//! parser against a fixed bound and the evaluator against the bound of the engine, and
//! give an error where a source or an evaluation goes beyond. Lists of statements,
//! arguments, parameters and entries are read and evaluated in loops, and may be of any
//! length.
//!
//! # What is proved
//!
//! [`interpret::model`] says what evaluation means, and [`parser::grammar`] what the
//! language is; the evaluator and the parser compute exactly that. What the host answers
//! and what its native functions do is not known beforehand: the evaluator leaves a trace
//! of every question, with its answer, in the heap, and its result is what the model gives
//! for that trace, whatever the answers were. The evaluator and the parser are total: no
//! input makes them panic.
//!
//! No record holds a key twice: [`interpret::object`] proves that of every write, and
//! [`interpret::keys`] of evaluation as a whole, as long as the native functions of the
//! host keep to it. [`interpret::laws`] and [`runtime`] hold what follows for the scripts:
//! how a value is found along a prototype chain, how `&&` and `||` cut evaluation short,
//! what `this` is in a call, and that a thrown value reaches the engine as itself.

pub mod ast;
pub mod host;
pub mod interpret;
pub mod lexer;
pub mod number;
pub mod parser;
pub mod runtime;
pub mod text;
