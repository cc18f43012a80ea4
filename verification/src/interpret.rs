//! Values, objects, and the evaluator.

pub mod eval;
pub mod keys;
pub mod laws;
pub mod model;
pub mod object;
pub mod value;

pub use self::eval::{eval_block, eval_expression, eval_inner_block, make_function};
pub use self::object::{
    ActualObject, Function, FunctionView, Heap, Native, ObjectExtension, ObjectView, UserFunction,
};
pub use self::value::{
    result_view, throw_string, Context, ContextView, JSResult, Object, ToValue, Tri, TriView,
    Value, ValueView,
};
