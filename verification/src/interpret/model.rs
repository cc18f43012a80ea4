//! What evaluation means: the value and the heap that each construct of the language gives,
//! as functions of the syntax, the calling state, the heap before, a bound on how deeply
//! the evaluation may nest, and what the native functions of the host give.
//!
//! The bound is counted in steps: one from an expression into its parts, and one into a
//! block in braces, which is the body of a function or a branch of an `if`. A call of a
//! function of the script thus takes one step into the body, and more for the expressions
//! in it.
//!
//! A native function of the host can do anything to the heap and return anything. What it
//! did is an argument of the model, the trace: a tree in the shape of the evaluation, with
//! one part for each part of a construct that is evaluated, and at each call of a native
//! function of the host what the function was called with and what it gave. The same
//! holds of numbers: their arithmetic, and the passage between numbers and text, is the
//! host's, and the trace holds each question with the answer that the host gave. The
//! trace also holds each line that `console.log` hands to the host. Where the evaluation
//! does not turn to the host, the trace has no say.

use vstd::prelude::*;
use crate::ast::{
    AccessView, AccessorView, BinaryOp, DeclarationView, ExpressionView, InnerBlockView,
    StatementView, UnaryOp,
};
use crate::parser::grammar::parse_text;
use crate::interpret::object::{
    get_or_err_spec, get_spec, outer_set_spec, record, set_spec, stored, ActualObject,
    FunctionView, Native, ObjectView,
};
use crate::interpret::value::{
    result_view, ContextView, JSResult, Object, Tri, TriView, Value, ValueView,
};
use crate::number;

verus! {

/// How an evaluation fails.
pub enum Raised {
    /// The script threw this value.
    Thrown(ValueView),
    /// Evaluation turned to the host where the trace has no record of it, or another.
    Host,
}

/// What the host can be asked that a number answers.
pub enum Asked {
    /// The sum of two numbers.
    Sum(u64, u64),
    /// The difference of two numbers.
    Difference(u64, u64),
    /// The product of two numbers.
    Product(u64, u64),
    /// The quotient of two numbers.
    Quotient(u64, u64),
    /// The number that a text denotes.
    Reading(Seq<char>),
}

/// What the host did during an evaluation.
pub enum Trace {
    /// Nothing.
    Empty,
    /// A call of a native function of the host: the number of the function, the arguments,
    /// the calling state, the heap and the bound that it was called with, and then the
    /// result and the heap that it gave.
    Host {
        native: u64,
        arguments: Seq<ValueView>,
        context: ContextView,
        before: Records,
        fuel: nat,
        result: Result<ValueView, ValueView>,
        after: Records,
    },
    /// A call of `console.log`: the line that was handed to the host for writing.
    Written(Seq<char>),
    /// A question to the host that a number answers: what was asked, and the number that
    /// the host gave.
    Number { asked: Asked, number: u64 },
    /// The host was asked for the text of this number, and gave this text.
    Text { number: u64, text: Seq<char> },
    /// The host was asked to read the number words of a source, and gave these numbers:
    /// at the place of each number word stands the number that the host read for it.
    Read(Seq<u64>),
    /// The traces of the parts of a construct, in the order in which they are evaluated.
    Parts(Seq<Trace>),
}

impl Trace {
    /// The trace of the part `k` of a construct; of a list, the trace of its element `k`.
    pub open spec fn part(self, k: int) -> Trace {
        match self {
            Trace::Parts(parts) => if 0 <= k < parts.len() {
                parts[k]
            } else {
                Trace::Empty
            },
            _ => Trace::Empty,
        }
    }

    /// The first parts of this trace are `parts`.
    pub open spec fn starts_with(self, parts: Seq<Trace>) -> bool {
        forall|k: int| 0 <= k < parts.len() ==> self.part(k) == parts[k]
    }
}

/// What an expression or a call gives.
pub type Outcome = Result<ValueView, Raised>;

/// How a statement completes.
pub enum Completion {
    Continue(ValueView),
    Return(ValueView),
    Throw(Raised),
}

/// The heap of the model: the records by their index.
pub type Records = Seq<ObjectView>;

/// How many objects deep the debugging form of a value goes.
pub const DEBUG_DEPTH: usize = 8;

/// How many times a property read on a primitive may be handed on to another primitive.
pub const DELEGATION_DEPTH: usize = 4;

/// The thrown text `message`.
pub open spec fn thrown(message: Seq<char>) -> Raised {
    Raised::Thrown(ValueView::String(message))
}

/// A result of an operation on the heap alone, as an outcome.
pub open spec fn lift(r: Result<ValueView, ValueView>) -> Outcome {
    match r {
        Ok(v) => Ok(v),
        Err(e) => Err(Raised::Thrown(e)),
    }
}

/// The views of a run of values.
pub open spec fn views(values: Seq<Value>) -> Seq<ValueView> {
    Seq::new(values.len(), |i: int| values[i]@)
}

/// A completion of the evaluator as one of the model.
pub open spec fn completion_of(tri: TriView) -> Completion {
    match tri {
        TriView::Continue(v) => Completion::Continue(v),
        TriView::Return(v) => Completion::Return(v),
        TriView::Error(e) => Completion::Throw(Raised::Thrown(e)),
    }
}

/// The evaluator's result and heap are those of the model.
pub open spec fn agrees(model: (Outcome, Records), r: JSResult, heap: Records) -> bool {
    model == (lift(result_view(r)), heap)
}

/// As `agrees`, for a result that is a text.
pub open spec fn text_agrees(
    model: (Result<Seq<char>, Raised>, Records),
    r: Result<String, Value>,
    heap: Records,
) -> bool {
    heap == model.1 && match r {
        Ok(text) => model.0 == Ok::<Seq<char>, Raised>(text@),
        Err(e) => model.0 == Err::<Seq<char>, Raised>(Raised::Thrown(e@)),
    }
}

/// As `agrees`, for a result that is a run of values.
pub open spec fn list_agrees(
    model: (Result<Seq<ValueView>, Raised>, Records),
    r: Result<Vec<Value>, Value>,
    heap: Records,
) -> bool {
    heap == model.1 && match r {
        Ok(values) => model.0 == Ok::<Seq<ValueView>, Raised>(views(values@)),
        Err(e) => model.0 == Err::<Seq<ValueView>, Raised>(Raised::Thrown(e@)),
    }
}

/// As `agrees`, for the entries of an object.
pub open spec fn entries_agree(
    model: (Result<Seq<(Seq<char>, ValueView)>, Raised>, Records),
    r: Result<ActualObject, Value>,
    heap: Records,
) -> bool {
    heap == model.1 && match r {
        Ok(made) => model.0 == Ok::<Seq<(Seq<char>, ValueView)>, Raised>(made@.values),
        Err(e) => model.0 == Err::<Seq<(Seq<char>, ValueView)>, Raised>(Raised::Thrown(e@)),
    }
}

/// As `agrees`, for the completion of a statement.
pub open spec fn completion_agrees(model: (Completion, Records), r: Tri, heap: Records) -> bool {
    model == (completion_of(r@), heap)
}

/// The error of an evaluation that nests more deeply than the bound allows.
pub open spec fn too_much_recursion() -> Raised {
    thrown("too much recursion"@)
}

/// The handle of the record that the next insertion into `heap` creates.
pub open spec fn fresh(heap: Records) -> Object {
    Object::Object(heap.len() as usize)
}

/// The number that the host gave in answer to a question: what the trace says that it
/// gave, where the trace is the record of this question.
pub open spec fn answered(asked: Asked, trace: Trace) -> Result<u64, Raised> {
    match trace {
        Trace::Number { asked: recorded, number } => if recorded == asked {
            Ok(number)
        } else {
            Err(Raised::Host)
        },
        _ => Err(Raised::Host),
    }
}

/// The text that the host gave for a number: what the trace says that it gave, where the
/// trace is the record of the question for the text of this number.
pub open spec fn written(number: u64, trace: Trace) -> Result<Seq<char>, Raised> {
    match trace {
        Trace::Text { number: recorded, text } => if recorded == number {
            Ok(text)
        } else {
            Err(Raised::Host)
        },
        _ => Err(Raised::Host),
    }
}

/// The number a value coerces to: what `fixed_number` gives for anything but a string, and
/// for a string what the host reads its text as.
pub open spec fn coerced(value: ValueView, trace: Trace) -> Result<u64, Raised> {
    match value {
        ValueView::String(text) => answered(Asked::Reading(text), trace),
        _ => Ok(value.fixed_number()),
    }
}

/// The debugging form of the first `n` entries of a record, separated by commas. The
/// trace has one part for each entry.
pub open spec fn entries_text(
    values: Seq<(Seq<char>, ValueView)>,
    heap: Records,
    depth: nat,
    n: int,
    trace: Trace,
) -> Result<Seq<char>, Raised>
    decreases depth, 1nat, n,
{
    if n <= 0 || n > values.len() {
        Ok(Seq::empty())
    } else {
        match entries_text(values, heap, depth, n - 1, trace) {
            Err(e) => Err(e),
            Ok(before) => match debug_text(values[n - 1].1, heap, depth, trace.part(n - 1)) {
                Err(e) => Err(e),
                Ok(value) => {
                    let item = "\""@ + values[n - 1].0 + "\": "@ + value;
                    if n == 1 {
                        Ok(item)
                    } else {
                        Ok(before + ", "@ + item)
                    }
                },
            },
        }
    }
}

/// The debugging form of a value: the text that the host gives for a number, `true` or
/// `false`, a string as it is, `undefined`, `null` for a handle that names nothing, the
/// short form of a function, and the entries of any other object between braces, `depth`
/// objects deep.
pub open spec fn debug_text(value: ValueView, heap: Records, depth: nat, trace: Trace) -> Result<
    Seq<char>,
    Raised,
>
    decreases depth, 0nat, 0int,
{
    match value {
        ValueView::Number(n) => written(n, trace),
        ValueView::Boolean(b) => if b {
            Ok("true"@)
        } else {
            Ok("false"@)
        },
        ValueView::String(s) => Ok(s),
        ValueView::Undefined => Ok("undefined"@),
        ValueView::Object(object) => match record(heap, object) {
            None => Ok("null"@),
            Some(found) => match found.otype {
                Some(function) => Ok(function.debug_text()),
                None => if depth == 0 {
                    Ok("{...}"@)
                } else {
                    match entries_text(
                        found.values,
                        heap,
                        (depth - 1) as nat,
                        found.values.len() as int,
                        trace,
                    ) {
                        Err(e) => Err(e),
                        Ok(inner) => Ok("{"@ + inner + "}"@),
                    }
                },
            },
        },
    }
}

/// The debugging form that error messages and the console use.
pub open spec fn debug(value: ValueView, heap: Records, trace: Trace) -> Result<Seq<char>, Raised> {
    debug_text(value, heap, DEBUG_DEPTH as nat, trace)
}

/// The error that says of a value what it is not: its debugging form, followed by
/// `what`.
pub open spec fn complaint(value: ValueView, heap: Records, trace: Trace, what: Seq<char>) -> Raised {
    match debug(value, heap, trace) {
        Ok(text) => thrown(text + what),
        Err(e) => e,
    }
}

/// The name under which the global object holds the constructor of a primitive.
pub open spec fn constructor_name(value: ValueView) -> Seq<char> {
    match value {
        ValueView::Number(_) => "Number"@,
        ValueView::Boolean(_) => "Boolean"@,
        _ => "String"@,
    }
}

/// Reading the property `key` of a value. An object is read along its prototype chain. A
/// number, a boolean or a string is read through the `prototype` of its constructor in the
/// global object; this handing on may repeat at most `depth` times.
pub open spec fn value_get(
    value: ValueView,
    key: Seq<char>,
    global: Object,
    heap: Records,
    depth: nat,
) -> Result<ValueView, ValueView>
    decreases depth,
{
    match value {
        ValueView::Object(object) => get_spec(heap, object, key),
        ValueView::Undefined => Err(ValueView::String("undefined has no properties"@)),
        _ => if depth == 0 {
            Err(ValueView::String("too much recursion"@))
        } else {
            match get_spec(heap, global, constructor_name(value)) {
                Err(e) => Err(e),
                Ok(constructor) => match value_get(
                    constructor,
                    "prototype"@,
                    global,
                    heap,
                    (depth - 1) as nat,
                ) {
                    Err(e) => Err(e),
                    Ok(prototype) => value_get(prototype, key, global, heap, (depth - 1) as nat),
                },
            }
        },
    }
}

/// Reading a property as the evaluator does.
pub open spec fn get_of(value: ValueView, key: Seq<char>, global: Object, heap: Records) -> Result<
    ValueView,
    ValueView,
> {
    value_get(value, key, global, heap, DELEGATION_DEPTH as nat)
}

/// Setting the property `key` of a value: on the object itself; without effect, and giving
/// undefined, on a number, a boolean or a string; an error on undefined.
pub open spec fn value_set(value: ValueView, key: Seq<char>, new: ValueView, heap: Records) -> (
    Result<ValueView, ValueView>,
    Records,
) {
    match value {
        ValueView::Object(object) => set_spec(heap, object, key, new),
        ValueView::Undefined => (Err(ValueView::String("undefined has no properties"@)), heap),
        _ => (Ok(ValueView::Undefined), heap),
    }
}

/// Assigning to the variable `key` through a value that stands for a scope.
pub open spec fn value_outer_set(
    value: ValueView,
    key: Seq<char>,
    new: ValueView,
    heap: Records,
    trace: Trace,
) -> (Outcome, Records) {
    match value {
        ValueView::Object(object) => {
            let written = outer_set_spec(heap, object, key, new);
            (lift(written.0), written.1)
        },
        _ => (Err(complaint(value, heap, trace, " is not an object"@)), heap),
    }
}

/// The function that makes a value callable, if it is.
pub open spec fn callable(value: ValueView, heap: Records) -> Option<FunctionView> {
    match value {
        ValueView::Object(object) => match record(heap, object) {
            Some(found) => found.otype,
            None => None,
        },
        _ => None,
    }
}

/// The entries of an activation record: the first `n` parameters, each bound to the
/// argument at its place, or to undefined where the arguments have run out.
pub open spec fn bound(
    parameters: Seq<Seq<char>>,
    arguments: Seq<ValueView>,
    n: int,
) -> Seq<(Seq<char>, ValueView)>
    decreases n,
{
    if n <= 0 {
        Seq::empty()
    } else {
        stored(
            bound(parameters, arguments, n - 1),
            parameters[n - 1],
            if n - 1 < arguments.len() {
                arguments[n - 1]
            } else {
                ValueView::Undefined
            },
        )
    }
}

/// The argument at place `i`, or undefined.
pub open spec fn argument(arguments: Seq<ValueView>, i: int) -> ValueView {
    if 0 <= i < arguments.len() {
        arguments[i]
    } else {
        ValueView::Undefined
    }
}

/// The line that `console.log` writes for its first `n` arguments: their debugging forms,
/// separated by spaces. The trace has one part for each argument.
pub open spec fn log_text(arguments: Seq<ValueView>, heap: Records, n: int, trace: Trace) -> Result<
    Seq<char>,
    Raised,
>
    decreases n,
{
    if n <= 0 || n > arguments.len() {
        Ok(Seq::empty())
    } else {
        match log_text(arguments, heap, n - 1, trace) {
            Err(e) => Err(e),
            Ok(before) => match debug(arguments[n - 1], heap, trace.part(n - 1)) {
                Err(e) => Err(e),
                Ok(value) => if n == 1 {
                    Ok(value)
                } else {
                    Ok(before + " "@ + value)
                },
            },
        }
    }
}

/// A function value made from `function` in the scope `local`: a fresh callable object
/// whose prototype is `Function.prototype` of the global object. Where that cannot be
/// found, or is no object, making the function fails.
pub open spec fn make_function(
    function: crate::ast::FunctionView,
    context: ContextView,
    heap: Records,
) -> (Result<ValueView, ValueView>, Records) {
    match get_spec(heap, context.global, "Function"@) {
        Err(_) => (Err(ValueView::String("Function.prototype must be an object"@)), heap),
        Ok(constructor) => match get_of(constructor, "prototype"@, context.global, heap) {
            Err(_) => (Err(ValueView::String("Function.prototype must be an object"@)), heap),
            Ok(ValueView::Object(prototype)) => (
                Ok(ValueView::Object(fresh(heap))),
                heap.push(
                    ObjectView {
                        values: Seq::empty(),
                        prototype: prototype,
                        otype: Some(FunctionView::User(function, context.local)),
                    },
                ),
            ),
            Ok(_) => (Err(ValueView::String("Function.prototype must be an object"@)), heap),
        },
    }
}

/// The pass over the declarations of a block, from statement `from` on, that runs before
/// any statement: each declared variable is bound to undefined in the current scope, and
/// each declared function to a fresh function value.
pub open spec fn hoist(
    block: Seq<StatementView>,
    context: ContextView,
    heap: Records,
    from: int,
) -> (Result<ValueView, ValueView>, Records)
    decreases block.len() - from,
{
    if from < 0 || from >= block.len() {
        (Ok(ValueView::Undefined), heap)
    } else {
        match block[from] {
            StatementView::Declaration(DeclarationView::Variable(id, _)) => match set_spec(
                heap,
                context.local,
                id,
                ValueView::Undefined,
            ) {
                (Err(e), h) => (Err(e), h),
                (Ok(_), h) => hoist(block, context, h, from + 1),
            },
            StatementView::Declaration(DeclarationView::Function(id, function)) => {
                match make_function(function, context, heap) {
                    (Err(e), h) => (Err(e), h),
                    (Ok(value), h) => match set_spec(h, context.local, id, value) {
                        (Err(e), h2) => (Err(e), h2),
                        (Ok(_), h2) => hoist(block, context, h2, from + 1),
                    },
                }
            },
            _ => hoist(block, context, heap, from + 1),
        }
    }
}

/// A completion as the result of the call that ran the block.
pub open spec fn returned(completion: (Completion, Records)) -> (Outcome, Records) {
    match completion.0 {
        Completion::Continue(v) => (Ok(v), completion.1),
        Completion::Return(v) => (Ok(v), completion.1),
        Completion::Throw(e) => (Err(e), completion.1),
    }
}

/// Calling a value: only a callable object can be called.
pub open spec fn apply_value(
    value: ValueView,
    arguments: Seq<ValueView>,
    context: ContextView,
    heap: Records,
    fuel: nat,
    trace: Trace,
) -> (Outcome, Records)
    decreases fuel, 6nat, 0nat,
{
    match callable(value, heap) {
        Some(function) => apply_function(function, arguments, context, heap, fuel, trace),
        None => (Err(complaint(value, heap, trace, " is not a function"@)), heap),
    }
}

/// Calling a function. A function of the script runs its body in a fresh activation record
/// whose prototype is the scope the function was made in, with `this` and the global object
/// of the caller.
pub open spec fn apply_function(
    function: FunctionView,
    arguments: Seq<ValueView>,
    context: ContextView,
    heap: Records,
    fuel: nat,
    trace: Trace,
) -> (Outcome, Records)
    decreases fuel, 5nat, 0nat,
{
    match function {
        FunctionView::Native(_, native) => apply_native(
            native,
            arguments,
            context,
            heap,
            fuel,
            trace,
        ),
        FunctionView::User(function, closure) => returned(
            eval_inner_block(
                function.body,
                ContextView { this: context.this, local: fresh(heap), global: context.global },
                heap.push(
                    ObjectView {
                        values: bound(
                            function.parameters,
                            arguments,
                            function.parameters.len() as int,
                        ),
                        prototype: closure,
                        otype: None,
                    },
                ),
                fuel,
                trace,
            ),
        ),
    }
}

/// What a native function of the host gives: what the trace says that it gave, where the
/// trace is the record of a call of this function with these arguments, in this state, on
/// this heap and with this bound.
pub open spec fn host_call(
    native: u64,
    arguments: Seq<ValueView>,
    context: ContextView,
    heap: Records,
    fuel: nat,
    trace: Trace,
) -> (Outcome, Records) {
    match trace {
        Trace::Host {
            native: called,
            arguments: given,
            context: state,
            before,
            fuel: allowed,
            result,
            after,
        } => {
            if called == native && given == arguments && state == context && before == heap
                && allowed == fuel {
                (lift(result), after)
            } else {
                (Err(Raised::Host), heap)
            }
        },
        _ => (Err(Raised::Host), heap),
    }
}

/// Calling a native function.
pub open spec fn apply_native(
    native: Native,
    arguments: Seq<ValueView>,
    context: ContextView,
    heap: Records,
    fuel: nat,
    trace: Trace,
) -> (Outcome, Records)
    decreases fuel, 4nat, 0nat,
{
    match native {
        Native::ObjectToString => (Ok(ValueView::String("[object Object]"@)), heap),
        Native::FunctionToString => match callable(context.this, heap) {
            Some(function) => (Ok(ValueView::String(function.to_text())), heap),
            None => (Err(complaint(context.this, heap, trace, " is not a function!"@)), heap),
        },
        Native::ObjectCreate => match argument(arguments, 0) {
            ValueView::Object(prototype) => (
                Ok(ValueView::Object(fresh(heap))),
                heap.push(ObjectView { values: Seq::empty(), prototype: prototype, otype: None }),
            ),
            other => (Err(complaint(other, heap, trace, " is not a Object"@)), heap),
        },
        Native::NumberToString => match context.this {
            ValueView::Number(n) => match written(n, trace) {
                Ok(text) => (Ok(ValueView::String(text)), heap),
                Err(e) => (Err(e), heap),
            },
            other => (Err(complaint(other, heap, trace, " is not a number!"@)), heap),
        },
        Native::StringToString => match context.this {
            ValueView::String(s) => (Ok(ValueView::String(s)), heap),
            other => (Err(complaint(other, heap, trace, " is not a string!"@)), heap),
        },
        Native::ConsoleLog => match log_text(
            arguments,
            heap,
            arguments.len() as int,
            trace.part(0),
        ) {
            Err(e) => (Err(e), heap),
            Ok(line) => if trace.part(1) == Trace::Written(line) {
                (Ok(ValueView::Undefined), heap)
            } else {
                (Err(Raised::Host), heap)
            },
        },
        Native::Eval => match argument(arguments, 0) {
            ValueView::String(source) => match trace.part(0) {
                Trace::Read(numbers) => match parse_text(source, numbers) {
                    Ok(block) => returned(eval_block(block, context, heap, fuel, trace.part(1))),
                    Err(e) => (Err(thrown("SyntaxError: "@ + e.message())), heap),
                },
                _ => (Err(Raised::Host), heap),
            },
            other => (Err(complaint(other, heap, trace, " is not a String"@)), heap),
        },
        Native::Host(id) => host_call(id, arguments, context, heap, fuel, trace),
    }
}

/// The error of a value that has no text.
pub open spec fn cannot_convert(value: ValueView, heap: Records, trace: Trace) -> Raised {
    match debug(value, heap, trace) {
        Ok(text) => thrown("can't convert "@ + text + " to primitive type"@),
        Err(e) => e,
    }
}

/// The text of a value: its `toString` property, called with the value as `this` and no
/// argument, gives a value whose simple textual form is the text. Where there is no such
/// property, or the call fails, the value has no text.
pub open spec fn js_to_string(
    value: ValueView,
    global: Object,
    heap: Records,
    fuel: nat,
    trace: Trace,
) -> (Result<Seq<char>, Raised>, Records)
    decreases fuel, 7nat, 0nat,
{
    match get_of(value, "toString"@, global, heap) {
        Err(_) => (Err(cannot_convert(value, heap, trace)), heap),
        Ok(to_string) => match apply_value(
            to_string,
            Seq::empty(),
            ContextView { this: value, local: global, global: global },
            heap,
            fuel,
            trace.part(0),
        ) {
            (Ok(text), h) => (Ok(text.to_text()), h),
            (Err(Raised::Host), h) => (Err(Raised::Host), h),
            (Err(Raised::Thrown(_)), h) => (Err(cannot_convert(value, h, trace.part(1))), h),
        },
    }
}

/// The texts of two values joined, the left one converted first.
pub open spec fn joined(
    left: ValueView,
    right: ValueView,
    global: Object,
    heap: Records,
    fuel: nat,
    trace: Trace,
) -> (Outcome, Records)
    decreases fuel, 8nat, 0nat,
{
    match js_to_string(left, global, heap, fuel, trace.part(0)) {
        (Err(e), h) => (Err(e), h),
        (Ok(left_text), h) => match js_to_string(right, global, h, fuel, trace.part(1)) {
            (Err(e), h2) => (Err(e), h2),
            (Ok(right_text), h2) => (Ok(ValueView::String(left_text + right_text)), h2),
        },
    }
}

/// The sum of two values. Where one of them is a string, the text of the other is joined
/// to it. Otherwise, where both coerce to finite numbers, the sum that the host gives for
/// the two; and where not, their two texts joined.
pub open spec fn added(
    left: ValueView,
    right: ValueView,
    global: Object,
    heap: Records,
    fuel: nat,
    trace: Trace,
) -> (Outcome, Records)
    decreases fuel, 9nat, 0nat,
{
    if let ValueView::String(right_text) = right {
        match js_to_string(left, global, heap, fuel, trace) {
            (Err(e), h) => (Err(e), h),
            (Ok(left_text), h) => (Ok(ValueView::String(left_text + right_text)), h),
        }
    } else if let ValueView::String(left_text) = left {
        match js_to_string(right, global, heap, fuel, trace) {
            (Err(e), h) => (Err(e), h),
            (Ok(right_text), h) => (Ok(ValueView::String(left_text + right_text)), h),
        }
    } else if number::is_finite_spec(left.fixed_number()) && number::is_finite_spec(
        right.fixed_number(),
    ) {
        match answered(Asked::Sum(left.fixed_number(), right.fixed_number()), trace) {
            Ok(sum) => (Ok(ValueView::Number(sum)), heap),
            Err(e) => (Err(e), heap),
        }
    } else {
        joined(left, right, global, heap, fuel, trace)
    }
}

/// The value of an expression. Each step from an expression into its parts takes one
/// unit of `fuel`; without any left, the evaluation throws.
pub open spec fn eval_expression(
    expression: ExpressionView,
    context: ContextView,
    heap: Records,
    fuel: nat,
    trace: Trace,
) -> (Outcome, Records)
    decreases fuel, 0nat, 0nat,
{
    if fuel == 0 {
        (Err(too_much_recursion()), heap)
    } else {
        let less = (fuel - 1) as nat;
        match expression {
            ExpressionView::Assignment(lhs, rhs) => match eval_expression(
                *rhs,
                context,
                heap,
                less,
                trace.part(0),
            ) {
                (Err(e), h) => (Err(e), h),
                (Ok(value), h) => access_set(lhs, context, value, h, less, trace.part(1)),
            },
            ExpressionView::Call(_, _) => eval_call(expression, context, heap, less, trace),
            ExpressionView::Access(access) => access_get(access, context, heap, less, trace),
            ExpressionView::Literal(value) => (Ok(value), heap),
            ExpressionView::Function(function) => {
                let made = make_function(function, context, heap);
                (lift(made.0), made.1)
            },
            ExpressionView::Unary(_, _) => eval_unary(expression, context, heap, less, trace),
            ExpressionView::Binary(_, _, _) => eval_binary(
                expression,
                context,
                heap,
                less,
                trace,
            ),
            ExpressionView::Ternary(condition, consequent, alternate) => match eval_expression(
                *condition,
                context,
                heap,
                less,
                trace.part(0),
            ) {
                (Err(e), h) => (Err(e), h),
                (Ok(value), h) => if value.to_boolean() {
                    eval_expression(*consequent, context, h, less, trace.part(1))
                } else {
                    eval_expression(*alternate, context, h, less, trace.part(1))
                },
            },
            ExpressionView::Object(entries) => match eval_entries(
                entries,
                context,
                heap,
                less,
                0,
                Seq::empty(),
                trace,
            ) {
                (Err(e), h) => (Err(e), h),
                (Ok(values), h) => (
                    Ok(ValueView::Object(fresh(h))),
                    h.push(ObjectView { values: values, prototype: Object::Null, otype: None }),
                ),
            },
            ExpressionView::This => (Ok(context.this), heap),
        }
    }
}

/// A prefix operation: the operator applied to the value of the operand.
pub open spec fn eval_unary(
    expression: ExpressionView,
    context: ContextView,
    heap: Records,
    fuel: nat,
    trace: Trace,
) -> (Outcome, Records)
    decreases fuel, 11nat, 0nat,
{
    match expression {
        ExpressionView::Unary(op, operand) => match eval_expression(
            *operand,
            context,
            heap,
            fuel,
            trace.part(0),
        ) {
            (Err(e), h) => (Err(e), h),
            (Ok(value), h) => (unary(op, value, trace.part(1)), h),
        },
        _ => (Ok(ValueView::Undefined), heap),
    }
}

/// What a prefix operator makes of a value.
pub open spec fn unary(op: UnaryOp, value: ValueView, trace: Trace) -> Outcome {
    match op {
        UnaryOp::Positive => match coerced(value, trace) {
            Ok(n) => Ok(ValueView::Number(n)),
            Err(e) => Err(e),
        },
        UnaryOp::Negative => match coerced(value, trace) {
            Ok(n) => Ok(ValueView::Number(number::negated_spec(n))),
            Err(e) => Err(e),
        },
        UnaryOp::LogicalNot => Ok(ValueView::Boolean(!value.to_boolean())),
    }
}

/// A value where it counts as true, and `false` where it does not.
pub open spec fn truthy_or_false(value: ValueView) -> ValueView {
    if value.to_boolean() {
        value
    } else {
        ValueView::Boolean(false)
    }
}

/// What an arithmetic operator other than `+` asks of the host for two numbers.
pub open spec fn asked_of(op: BinaryOp, left: u64, right: u64) -> Asked {
    match op {
        BinaryOp::Subtract => Asked::Difference(left, right),
        BinaryOp::Multiply => Asked::Product(left, right),
        _ => Asked::Quotient(left, right),
    }
}

/// What an arithmetic operator other than `+` makes of two values: both are coerced to
/// numbers, the left one first, and the host gives the result.
pub open spec fn arithmetic(op: BinaryOp, left: ValueView, right: ValueView, trace: Trace) -> Outcome {
    match coerced(left, trace.part(0)) {
        Err(e) => Err(e),
        Ok(l) => match coerced(right, trace.part(1)) {
            Err(e) => Err(e),
            Ok(r) => match answered(asked_of(op, l, r), trace.part(2)) {
                Err(e) => Err(e),
                Ok(n) => Ok(ValueView::Number(n)),
            },
        },
    }
}

/// The values of the entries of an object literal from entry `from` on, set in order on
/// the entries `so_far`.
pub open spec fn eval_entries(
    entries: Seq<(Seq<char>, ExpressionView)>,
    context: ContextView,
    heap: Records,
    fuel: nat,
    from: int,
    so_far: Seq<(Seq<char>, ValueView)>,
    trace: Trace,
) -> (Result<Seq<(Seq<char>, ValueView)>, Raised>, Records)
    decreases fuel, 10nat, entries.len() - from,
{
    if from < 0 || from >= entries.len() {
        (Ok(so_far), heap)
    } else {
        match eval_expression(entries[from].1, context, heap, fuel, trace.part(from)) {
            (Err(e), h) => (Err(e), h),
            (Ok(value), h) => eval_entries(
                entries,
                context,
                h,
                fuel,
                from + 1,
                stored(so_far, entries[from].0, value),
                trace,
            ),
        }
    }
}

/// The values of the expressions of a list from place `from` on, after the values `so_far`.
pub open spec fn eval_expression_list(
    expressions: Seq<ExpressionView>,
    context: ContextView,
    heap: Records,
    fuel: nat,
    from: int,
    so_far: Seq<ValueView>,
    trace: Trace,
) -> (Result<Seq<ValueView>, Raised>, Records)
    decreases fuel, 10nat, expressions.len() - from,
{
    if from < 0 || from >= expressions.len() {
        (Ok(so_far), heap)
    } else {
        match eval_expression(expressions[from], context, heap, fuel, trace.part(from)) {
            (Err(e), h) => (Err(e), h),
            (Ok(value), h) => eval_expression_list(
                expressions,
                context,
                h,
                fuel,
                from + 1,
                so_far.push(value),
                trace,
            ),
        }
    }
}

/// The receiver of a call: where the callee is a property of a value, that value, found by
/// evaluating its expression once more; the global object otherwise.
pub open spec fn eval_receiver(
    callee: ExpressionView,
    context: ContextView,
    heap: Records,
    fuel: nat,
    trace: Trace,
) -> (Outcome, Records)
    decreases fuel, 10nat, 0nat,
{
    match callee {
        ExpressionView::Access(AccessView::Member(target, _)) => eval_expression(
            *target,
            context,
            heap,
            fuel,
            trace,
        ),
        _ => (Ok(ValueView::Object(context.global)), heap),
    }
}

/// A call: the callee is evaluated, then the arguments from left to right, then the
/// receiver; the callee's value is then called with them.
pub open spec fn eval_call(
    expression: ExpressionView,
    context: ContextView,
    heap: Records,
    fuel: nat,
    trace: Trace,
) -> (Outcome, Records)
    decreases fuel, 11nat, 0nat,
{
    match expression {
        ExpressionView::Call(callee, arguments) => match eval_expression(
            *callee,
            context,
            heap,
            fuel,
            trace.part(0),
        ) {
            (Err(e), h) => (Err(e), h),
            (Ok(function), h) => match eval_expression_list(
                arguments,
                context,
                h,
                fuel,
                0,
                Seq::empty(),
                trace.part(1),
            ) {
                (Err(e), h2) => (Err(e), h2),
                (Ok(values), h2) => match eval_receiver(*callee, context, h2, fuel, trace.part(2)) {
                    (Err(e), h3) => (Err(e), h3),
                    (Ok(this), h3) => apply_value(
                        function,
                        values,
                        ContextView { this: this, local: context.local, global: context.global },
                        h3,
                        fuel,
                        trace.part(3),
                    ),
                },
            },
        },
        _ => (Ok(ValueView::Undefined), heap),
    }
}

/// The name of a property: a fixed name, or the text of the value of an expression.
pub open spec fn eval_accessor(
    accessor: AccessorView,
    context: ContextView,
    heap: Records,
    fuel: nat,
    trace: Trace,
) -> (Result<Seq<char>, Raised>, Records)
    decreases fuel, 10nat, 0nat,
{
    match accessor {
        AccessorView::Identifier(id) => (Ok(id), heap),
        AccessorView::Expression(e) => match eval_expression(
            *e,
            context,
            heap,
            fuel,
            trace.part(0),
        ) {
            (Err(e), h) => (Err(e), h),
            (Ok(value), h) => js_to_string(value, context.global, h, fuel, trace.part(1)),
        },
    }
}

/// Reading a place. For a property, the value that has it is found first, then the name.
/// A variable is read along the scopes.
pub open spec fn access_get(
    access: AccessView,
    context: ContextView,
    heap: Records,
    fuel: nat,
    trace: Trace,
) -> (Outcome, Records)
    decreases fuel, 11nat, 0nat,
{
    match access {
        AccessView::Member(target, accessor) => match eval_expression(
            *target,
            context,
            heap,
            fuel,
            trace.part(0),
        ) {
            (Err(e), h) => (Err(e), h),
            (Ok(value), h) => match eval_accessor(accessor, context, h, fuel, trace.part(1)) {
                (Err(e), h2) => (Err(e), h2),
                (Ok(key), h2) => (lift(get_of(value, key, context.global, h2)), h2),
            },
        },
        AccessView::Identifier(id) => (lift(get_or_err_spec(heap, context.local, id)), heap),
    }
}

/// Writing a place. For a property, the name is found first, then the value that gets it.
/// A variable is assigned along the scopes.
pub open spec fn access_set(
    access: AccessView,
    context: ContextView,
    value: ValueView,
    heap: Records,
    fuel: nat,
    trace: Trace,
) -> (Outcome, Records)
    decreases fuel, 11nat, 0nat,
{
    match access {
        AccessView::Member(target, accessor) => match eval_accessor(
            accessor,
            context,
            heap,
            fuel,
            trace.part(0),
        ) {
            (Err(e), h) => (Err(e), h),
            (Ok(key), h) => match eval_expression(*target, context, h, fuel, trace.part(1)) {
                (Err(e), h2) => (Err(e), h2),
                (Ok(receiver), h2) => {
                    let written = value_set(receiver, key, value, h2);
                    (lift(written.0), written.1)
                },
            },
        },
        AccessView::Identifier(id) => {
            let written = outer_set_spec(heap, context.local, id, value);
            (lift(written.0), written.1)
        },
    }
}

/// An infix operation. The left operand is evaluated first. `&&` and `||` evaluate the
/// right operand only where the left one does not decide.
pub open spec fn eval_binary(
    expression: ExpressionView,
    context: ContextView,
    heap: Records,
    fuel: nat,
    trace: Trace,
) -> (Outcome, Records)
    decreases fuel, 11nat, 0nat,
{
    match expression {
        ExpressionView::Binary(op, left, right) => match eval_expression(
            *left,
            context,
            heap,
            fuel,
            trace.part(0),
        ) {
            (Err(e), h) => (Err(e), h),
            (Ok(left_value), h) => match op {
                BinaryOp::LogicalAnd => if left_value.to_boolean() {
                    match eval_expression(*right, context, h, fuel, trace.part(1)) {
                        (Err(e), h2) => (Err(e), h2),
                        (Ok(right_value), h2) => (Ok(truthy_or_false(right_value)), h2),
                    }
                } else {
                    (Ok(ValueView::Boolean(false)), h)
                },
                BinaryOp::LogicalOr => if left_value.to_boolean() {
                    (Ok(left_value), h)
                } else {
                    match eval_expression(*right, context, h, fuel, trace.part(1)) {
                        (Err(e), h2) => (Err(e), h2),
                        (Ok(right_value), h2) => (Ok(truthy_or_false(right_value)), h2),
                    }
                },
                BinaryOp::Add => match eval_expression(*right, context, h, fuel, trace.part(1)) {
                    (Err(e), h2) => (Err(e), h2),
                    (Ok(right_value), h2) => added(
                        left_value,
                        right_value,
                        context.global,
                        h2,
                        fuel,
                        trace.part(2),
                    ),
                },
                _ => match eval_expression(*right, context, h, fuel, trace.part(1)) {
                    (Err(e), h2) => (Err(e), h2),
                    (Ok(right_value), h2) => (
                        arithmetic(op, left_value, right_value, trace.part(2)),
                        h2,
                    ),
                },
            },
        },
        _ => (Ok(ValueView::Undefined), heap),
    }
}

/// How a statement completes.
pub open spec fn eval_statement(
    statement: StatementView,
    context: ContextView,
    heap: Records,
    fuel: nat,
    trace: Trace,
) -> (Completion, Records)
    decreases fuel, 1nat, 0nat,
{
    match statement {
        StatementView::Expression(e) => match eval_expression(e, context, heap, fuel, trace) {
            (Ok(value), h) => (Completion::Continue(value), h),
            (Err(e), h) => (Completion::Throw(e), h),
        },
        StatementView::Declaration(DeclarationView::Variable(id, Some(init))) => {
            match eval_expression(init, context, heap, fuel, trace) {
                (Err(e), h) => (Completion::Throw(e), h),
                (Ok(value), h) => match set_spec(h, context.local, id, value) {
                    (Err(e), h2) => (Completion::Throw(Raised::Thrown(e)), h2),
                    (Ok(_), h2) => (Completion::Continue(ValueView::Undefined), h2),
                },
            }
        },
        StatementView::Declaration(_) => (Completion::Continue(ValueView::Undefined), heap),
        StatementView::Throw(e) => match eval_expression(e, context, heap, fuel, trace) {
            (Ok(value), h) => (Completion::Throw(Raised::Thrown(value)), h),
            (Err(e), h) => (Completion::Throw(e), h),
        },
        StatementView::If(condition, consequent, alternate) => match eval_expression(
            condition,
            context,
            heap,
            fuel,
            trace.part(0),
        ) {
            (Err(e), h) => (Completion::Throw(e), h),
            (Ok(value), h) => if value.to_boolean() {
                eval_inner_block(consequent, context, h, fuel, trace.part(1))
            } else {
                match alternate {
                    Some(block) => eval_inner_block(block, context, h, fuel, trace.part(1)),
                    None => (Completion::Continue(ValueView::Undefined), h),
                }
            },
        },
        StatementView::Empty => (Completion::Continue(ValueView::Undefined), heap),
    }
}

/// The statements of a block from statement `from` on, in order, after a statement that
/// completed with `last`: the first that does not complete normally ends the block.
pub open spec fn eval_statements(
    block: Seq<StatementView>,
    context: ContextView,
    heap: Records,
    fuel: nat,
    from: int,
    last: ValueView,
    trace: Trace,
) -> (Completion, Records)
    decreases fuel, 2nat, block.len() - from,
{
    if from < 0 || from >= block.len() {
        (Completion::Continue(last), heap)
    } else {
        match eval_statement(block[from], context, heap, fuel, trace.part(from)) {
            (Completion::Continue(value), h) => eval_statements(
                block,
                context,
                h,
                fuel,
                from + 1,
                value,
                trace,
            ),
            other => other,
        }
    }
}

/// A block: its declarations are hoisted, then its statements run in order. It completes
/// as the first statement that does not complete normally, and else normally with the
/// value of its last statement, or with undefined where it has none.
pub open spec fn eval_block(
    block: Seq<StatementView>,
    context: ContextView,
    heap: Records,
    fuel: nat,
    trace: Trace,
) -> (Completion, Records)
    decreases fuel, 3nat, 0nat,
{
    match hoist(block, context, heap, 0) {
        (Err(e), h) => (Completion::Throw(Raised::Thrown(e)), h),
        (Ok(_), h) => eval_statements(block, context, h, fuel, 0, ValueView::Undefined, trace),
    }
}

/// A block with a final expression: where the block completes normally, the value of the
/// final expression is returned; without a final expression the completion is normal, with
/// undefined. The step into the block takes one unit of `fuel`; without any left, the
/// evaluation throws.
pub open spec fn eval_inner_block(
    block: InnerBlockView,
    context: ContextView,
    heap: Records,
    fuel: nat,
    trace: Trace,
) -> (Completion, Records)
    decreases fuel, 0nat, 0nat,
{
    if fuel == 0 {
        (Completion::Throw(too_much_recursion()), heap)
    } else {
        match eval_block(block.block, context, heap, (fuel - 1) as nat, trace.part(0)) {
            (Completion::Continue(_), h) => match block.return_exp {
                Some(e) => match eval_expression(
                    *e,
                    context,
                    h,
                    (fuel - 1) as nat,
                    trace.part(1),
                ) {
                    (Ok(value), h2) => (Completion::Return(value), h2),
                    (Err(e), h2) => (Completion::Throw(e), h2),
                },
                None => (Completion::Continue(ValueView::Undefined), h),
            },
            other => other,
        }
    }
}

} // verus!
