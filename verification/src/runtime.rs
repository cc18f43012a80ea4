//! The engine: a heap with the built-in objects, and the evaluation of source text in it.

use vstd::prelude::*;
use vstd::string::*;
use crate::host::Host;
use crate::parser::grammar::parse_text;
use crate::parser::parse::parse_with_numbers;
use crate::interpret::eval::eval_block;
use crate::interpret::model;
use crate::interpret::keys::tidy;
use crate::interpret::model::{agrees, Outcome, Records, Trace};
use crate::ast::{AccessView, DeclarationView, ExpressionView, StatementView};
use crate::interpret::object::{
    distinct_keys, get_spec, keys_apart, lemma_stored_own, lookup, own, record, set_spec, stored,
    updated, ActualObject, Function, FunctionView, Heap, Native, ObjectView, Walk,
};
use crate::interpret::value::{
    throw_string, Context, ContextView, JSResult, Object, Tri, Value, ValueView,
};
use crate::text::{concat, text};

verus! {

/// How deeply a fresh engine lets an evaluation nest.
pub const DEPTH: usize = 1000;

/// The handle of the object prototype in a fresh engine.
pub const OBJECT_PROTOTYPE: usize = 0;

/// The handle of the function prototype in a fresh engine.
pub const FUNCTION_PROTOTYPE: usize = 1;

/// The handle of the global object in a fresh engine.
pub const GLOBAL: usize = 16;

/// The record of a native function of the built-in objects.
pub open spec fn native_record(name: Seq<char>, which: Native) -> ObjectView {
    ObjectView {
        values: Seq::empty(),
        prototype: Object::Object(FUNCTION_PROTOTYPE),
        otype: Some(FunctionView::Native(name, which)),
    }
}

/// A record without extension.
pub open spec fn plain_record(values: Seq<(Seq<char>, ValueView)>, prototype: Object) -> ObjectView {
    ObjectView { values: values, prototype: prototype, otype: None }
}

/// A property whose value is the object at `index`.
pub open spec fn link(key: Seq<char>, index: usize) -> (Seq<char>, ValueView) {
    (key, ValueView::Object(Object::Object(index)))
}

/// The heap of a fresh engine: the object prototype with its `toString`; the function
/// prototype with its own, which is the prototype of every native function; `console` with
/// `log`; `Object` with `create` and `prototype`; `Number` and `String`, each with a
/// `prototype` that has a `toString`; `eval`; `Function` with `prototype`; and the global
/// object that holds them.
pub open spec fn stdlib_records() -> Records {
    seq![
        plain_record(seq![link("toString"@, 3)], Object::Null),
        plain_record(seq![link("toString"@, 2)], Object::Object(OBJECT_PROTOTYPE)),
        native_record("toString"@, Native::FunctionToString),
        native_record("toString"@, Native::ObjectToString),
        native_record("log"@, Native::ConsoleLog),
        plain_record(seq![link("log"@, 4)], Object::Object(OBJECT_PROTOTYPE)),
        native_record("create"@, Native::ObjectCreate),
        plain_record(seq![link("create"@, 6), link("prototype"@, OBJECT_PROTOTYPE)], Object::Null),
        native_record("toString"@, Native::NumberToString),
        plain_record(seq![link("toString"@, 8)], Object::Object(OBJECT_PROTOTYPE)),
        plain_record(seq![link("prototype"@, 9)], Object::Object(OBJECT_PROTOTYPE)),
        native_record("toString"@, Native::StringToString),
        plain_record(seq![link("toString"@, 11)], Object::Object(OBJECT_PROTOTYPE)),
        plain_record(seq![link("prototype"@, 12)], Object::Object(OBJECT_PROTOTYPE)),
        native_record("eval"@, Native::Eval),
        plain_record(
            seq![link("prototype"@, FUNCTION_PROTOTYPE)],
            Object::Object(OBJECT_PROTOTYPE),
        ),
        plain_record(
            seq![
                link("console"@, 5),
                link("Object"@, 7),
                link("Number"@, 10),
                link("String"@, 13),
                link("eval"@, 14),
                link("Function"@, 15),
            ],
            Object::Object(OBJECT_PROTOTYPE),
        ),
    ]
}

/// An engine: the heap, the context in which source text is evaluated, and how deeply it
/// lets an evaluation nest.
pub struct Ack {
    pub heap: Heap,
    pub context: Context,
    pub depth: usize,
}

/// Evaluating a source text: it is parsed, with the numbers that the host read for its
/// number words, and its block evaluated; what the parser says against it is thrown as a
/// syntax error.
pub open spec fn eval_source(
    source: Seq<char>,
    context: ContextView,
    heap: Records,
    fuel: nat,
    trace: Trace,
) -> (Outcome, Records) {
    match trace.part(0) {
        Trace::Read(numbers) => match parse_text(source, numbers) {
            Ok(block) => model::returned(
                model::eval_block(block, context, heap, fuel, trace.part(1)),
            ),
            Err(e) => (Err(model::thrown("SyntaxError: "@ + e.message())), heap),
        },
        _ => (Err(model::Raised::Host), heap),
    }
}

/// The record `record` with the property `key` set to `object`: a record whose keys were
/// apart keeps them apart.
fn with(record: ActualObject, key: &str, object: Object) -> (r: ActualObject)
    requires
        object is Object,
    ensures
        r@ == (ObjectView {
            values: stored(record@.values, key@, ValueView::Object(object)),
            ..record@
        }),
        distinct_keys(record@.values) ==> distinct_keys(r@.values),
{
    let mut r = record;
    let _ = r.set(key, Value::Object(object));
    r
}

/// Setting a key that a record does not hold adds it at the end.
proof fn lemma_new_key(values: Seq<(Seq<char>, ValueView)>, key: Seq<char>, index: usize)
    requires
        forall|j: int| 0 <= j < values.len() ==> (#[trigger] values[j]).0 != key,
    ensures
        stored(values, key, ValueView::Object(Object::Object(index))) == values.push(
            link(key, index),
        ),
{
    crate::interpret::object::lemma_position_missing(values, key);
}

/// Adds the native function `which` under the name `name`.
fn native(heap: &mut Heap, name: &str, which: Native, function_prototype: Object) -> (r: Object)
    ensures
        r == Object::Object(old(heap)@.len() as usize),
        final(heap)@ == old(heap)@.push(
            ObjectView {
                values: Seq::empty(),
                prototype: function_prototype,
                otype: Some(FunctionView::Native(name@, which)),
            },
        ),
        final(heap).trace == old(heap).trace,
{
    Object::from_function(Function::Native(text(name), which), function_prototype, heap)
}

/// Builds the built-in objects in a fresh heap, and gives the heap with the global object.
fn create_stdlib() -> (r: (Heap, Object))
    ensures
        r.0@ == stdlib_records(),
        r.0.trace@ == Trace::Empty,
        r.1 == Object::Object(GLOBAL),
{
    let mut heap = Heap::new();
    let object_prototype = Object::new(&mut heap);
    let function_prototype = Object::create(object_prototype, &mut heap);
    let function_to_string = native(
        &mut heap,
        "toString",
        Native::FunctionToString,
        function_prototype,
    );
    let _ = function_prototype.set("toString", Value::Object(function_to_string), &mut heap);
    let object_to_string = native(
        &mut heap,
        "toString",
        Native::ObjectToString,
        function_prototype,
    );
    let _ = object_prototype.set("toString", Value::Object(object_to_string), &mut heap);
    proof {
        crate::interpret::object::lemma_position_missing(Seq::empty(), "toString"@);
    }
    assert(heap@ =~~= stdlib_records().take(4));

    let log = native(&mut heap, "log", Native::ConsoleLog, function_prototype);
    let console = heap.insert(with(ActualObject::create(object_prototype), "log", log));
    assert(heap@ =~~= stdlib_records().take(6));

    let create = native(&mut heap, "create", Native::ObjectCreate, function_prototype);
    let created = with(ActualObject::create(Object::Null), "create", create);
    assert(created@.values =~= seq![link("create"@, 6)]);
    let object_record = with(created, "prototype", object_prototype);
    proof {
        lemma_global_keys();
        lemma_new_key(created@.values, "prototype"@, OBJECT_PROTOTYPE);
    }
    assert(object_record@.values =~= seq![
        link("create"@, 6),
        link("prototype"@, OBJECT_PROTOTYPE),
    ]);
    let object = heap.insert(object_record);
    assert(heap@ =~~= stdlib_records().take(8));

    let number_to_string = native(
        &mut heap,
        "toString",
        Native::NumberToString,
        function_prototype,
    );
    let number_prototype = heap.insert(
        with(ActualObject::create(object_prototype), "toString", number_to_string),
    );
    let number = heap.insert(
        with(ActualObject::create(object_prototype), "prototype", number_prototype),
    );
    assert(heap@ =~~= stdlib_records().take(11));

    let string_to_string = native(
        &mut heap,
        "toString",
        Native::StringToString,
        function_prototype,
    );
    let string_prototype = heap.insert(
        with(ActualObject::create(object_prototype), "toString", string_to_string),
    );
    let string = heap.insert(
        with(ActualObject::create(object_prototype), "prototype", string_prototype),
    );
    assert(heap@ =~~= stdlib_records().take(14));

    let eval = native(&mut heap, "eval", Native::Eval, function_prototype);
    let function = heap.insert(
        with(ActualObject::create(object_prototype), "prototype", function_prototype),
    );
    assert(heap@ =~~= stdlib_records().take(16));

    let mut globals = ActualObject::create(object_prototype);
    globals = with(globals, "console", console);
    assert(globals@.values =~= seq![link("console"@, 5)]);
    let ghost one = globals@.values;
    globals = with(globals, "Object", object);
    proof {
        lemma_new_key(one, "Object"@, 7);
    }
    assert(globals@.values =~= seq![link("console"@, 5), link("Object"@, 7)]);
    let ghost two = globals@.values;
    globals = with(globals, "Number", number);
    proof {
        lemma_new_key(two, "Number"@, 10);
    }
    assert(globals@.values =~= seq![
        link("console"@, 5),
        link("Object"@, 7),
        link("Number"@, 10),
    ]);
    let ghost three = globals@.values;
    globals = with(globals, "String", string);
    proof {
        lemma_new_key(three, "String"@, 13);
    }
    assert(globals@.values =~= seq![
        link("console"@, 5),
        link("Object"@, 7),
        link("Number"@, 10),
        link("String"@, 13),
    ]);
    let ghost four = globals@.values;
    globals = with(globals, "eval", eval);
    proof {
        lemma_new_key(four, "eval"@, 14);
    }
    assert(globals@.values =~= seq![
        link("console"@, 5),
        link("Object"@, 7),
        link("Number"@, 10),
        link("String"@, 13),
        link("eval"@, 14),
    ]);
    let ghost five = globals@.values;
    globals = with(globals, "Function", function);
    proof {
        lemma_new_key(five, "Function"@, 15);
    }
    assert(globals@.values =~= seq![
        link("console"@, 5),
        link("Object"@, 7),
        link("Number"@, 10),
        link("String"@, 13),
        link("eval"@, 14),
        link("Function"@, 15),
    ]);
    let global = heap.insert(globals);
    assert(heap@ =~~= stdlib_records());
    (heap, global)
}

impl Ack {
    /// An engine with the built-in objects, whose context is the global object.
    pub fn create_stdlib() -> (r: Ack)
        ensures
            r.heap@ == stdlib_records(),
            r.heap.trace@ == Trace::Empty,
            keys_apart(r.heap@),
            r.context == (Context {
                this: Value::Object(Object::Object(GLOBAL)),
                local: Object::Object(GLOBAL),
                global: Object::Object(GLOBAL),
            }),
            r.depth == DEPTH,
    {
        proof {
            law_fresh_engine_keeps_keys_apart();
        }
        let (heap, global) = create_stdlib();
        Ack { heap: heap, context: Context::new(global), depth: DEPTH }
    }

    /// Parses `source` and evaluates it in the context of this engine. A heap whose
    /// records kept their keys apart still does, where every heap that a native function
    /// of the host left does.
    pub fn eval<H: Host>(&mut self, host: &H, source: &str) -> (r: JSResult)
        ensures
            agrees(
                eval_source(
                    source@,
                    old(self).context@,
                    old(self).heap@,
                    old(self).depth as nat,
                    final(self).heap.trace@,
                ),
                r,
                final(self).heap@,
            ),
            final(self).context == old(self).context,
            final(self).depth == old(self).depth,
            keys_apart(old(self).heap@) && tidy(final(self).heap.trace@) ==> keys_apart(
                final(self).heap@,
            ),
    {
        let (parsed, numbers) = parse_with_numbers(host, source);
        let r = match parsed {
            Ok(ast) => {
                let done = eval_block(&ast, self.context.clone(), &mut self.heap, host, self.depth);
                let ghost ran = self.heap.trace@;
                self.heap.trace = Ghost(Trace::Parts(seq![Trace::Read(numbers@), ran]));
                match done {
                    Tri::Continue(v) => Ok(v),
                    Tri::Return(v) => Ok(v),
                    Tri::Error(e) => Err(e),
                }
            },
            Err(e) => {
                self.heap.trace = Ghost(Trace::Parts(seq![Trace::Read(numbers@)]));
                throw_string(concat("SyntaxError: ", e.message().as_str()))
            },
        };
        proof {
            if keys_apart(old(self).heap@) && tidy(self.heap.trace@) {
                law_engine_keeps_keys_apart(
                    source@,
                    old(self).context@,
                    old(self).heap@,
                    old(self).depth as nat,
                    self.heap.trace@,
                );
            }
        }
        r
    }
}

/// Evaluating a source text keeps the keys of every record apart, where every heap that a
/// native function of the host left does.
pub proof fn law_engine_keeps_keys_apart(
    source: Seq<char>,
    context: ContextView,
    heap: Records,
    fuel: nat,
    trace: Trace,
)
    requires
        keys_apart(heap),
        tidy(trace),
    ensures
        keys_apart(eval_source(source, context, heap, fuel, trace).1),
{
    crate::interpret::keys::lemma_parts_are_tidy(trace);
    if let Trace::Read(numbers) = trace.part(0) {
        if let Ok(block) = parse_text(source, numbers) {
            crate::interpret::keys::law_evaluation_keeps_keys_apart(
                block,
                ExpressionView::This,
                (ValueView::Undefined, Seq::empty()),
                context,
                heap,
                fuel,
                trace.part(1),
            );
        }
    }
}

/// The keys of the built-in objects that share a record differ from each other.
proof fn lemma_global_keys()
    ensures
        "console"@ != "Number"@,
        "Object"@ != "Number"@,
        "console"@ != "String"@,
        "Object"@ != "String"@,
        "Number"@ != "String"@,
        "console"@ != "Function"@,
        "Object"@ != "Function"@,
        "Number"@ != "Function"@,
        "String"@ != "Function"@,
        "eval"@ != "Function"@,
        "create"@ != "prototype"@,
        "console"@ != "Object"@,
        "console"@ != "eval"@,
        "Object"@ != "eval"@,
        "Number"@ != "eval"@,
        "String"@ != "eval"@,
{
    reveal_strlit("console");
    reveal_strlit("Object");
    reveal_strlit("Number");
    reveal_strlit("String");
    reveal_strlit("eval");
    reveal_strlit("Function");
    reveal_strlit("create");
    reveal_strlit("prototype");
    assert("Object"@[0] == 'O');
    assert("Number"@[0] == 'N');
    assert("String"@[0] == 'S');
    assert("console"@.len() == 7);
    assert("eval"@.len() == 4);
    assert("Function"@.len() == 8);
    assert("create"@.len() == 6);
    assert("prototype"@.len() == 9);
}

/// In the heap of a fresh engine no record holds a key twice.
pub proof fn law_fresh_engine_keeps_keys_apart()
    ensures
        keys_apart(stdlib_records()),
{
    lemma_global_keys();
    let heap = stdlib_records();
    assert forall|i: int| 0 <= i < heap.len() implies distinct_keys(
        (#[trigger] heap[i]).values,
    ) by {
        let values = heap[i].values;
        if i == 16 {
            assert forall|a: int, b: int| 0 <= a < b < values.len() implies (#[trigger] values[a]).0
                != (#[trigger] values[b]).0 by {
                assert(values[0].0 == "console"@);
                assert(values[1].0 == "Object"@);
                assert(values[2].0 == "Number"@);
                assert(values[3].0 == "String"@);
                assert(values[4].0 == "eval"@);
                assert(values[5].0 == "Function"@);
            }
        } else if i == 7 {
            assert(values[0].0 == "create"@);
            assert(values[1].0 == "prototype"@);
        } else {
            assert(values.len() <= 1);
        }
    }
}

/// In a fresh engine, the `toString` of a number is the native function of the number
/// prototype, and that of a string the native function of the string prototype.
pub proof fn law_primitives_find_their_prototypes(n: u64, s: Seq<char>)
    ensures
        model::get_of(
            ValueView::Number(n),
            "toString"@,
            Object::Object(GLOBAL),
            stdlib_records(),
        ) == Ok::<ValueView, ValueView>(ValueView::Object(Object::Object(8))),
        model::get_of(
            ValueView::String(s),
            "toString"@,
            Object::Object(GLOBAL),
            stdlib_records(),
        ) == Ok::<ValueView, ValueView>(ValueView::Object(Object::Object(11))),
{
    lemma_global_keys();
    let heap = stdlib_records();
    let global = Object::Object(GLOBAL);
    let globals = heap[16].values;
    assert(crate::interpret::object::is_first(globals, "Number"@, 2));
    crate::interpret::object::lemma_position_found(globals, "Number"@, 2);
    assert(crate::interpret::object::is_first(globals, "String"@, 3));
    crate::interpret::object::lemma_position_found(globals, "String"@, 3);
    assert(crate::interpret::object::is_first(heap[10].values, "prototype"@, 0));
    crate::interpret::object::lemma_position_found(heap[10].values, "prototype"@, 0);
    assert(crate::interpret::object::is_first(heap[13].values, "prototype"@, 0));
    crate::interpret::object::lemma_position_found(heap[13].values, "prototype"@, 0);
    assert(crate::interpret::object::is_first(heap[9].values, "toString"@, 0));
    crate::interpret::object::lemma_position_found(heap[9].values, "toString"@, 0);
    assert(crate::interpret::object::is_first(heap[12].values, "toString"@, 0));
    crate::interpret::object::lemma_position_found(heap[12].values, "toString"@, 0);
    assert(crate::interpret::object::get_spec(heap, global, "Number"@) == Ok::<
        ValueView,
        ValueView,
    >(ValueView::Object(Object::Object(10))));
    assert(crate::interpret::object::get_spec(heap, global, "String"@) == Ok::<
        ValueView,
        ValueView,
    >(ValueView::Object(Object::Object(13))));
    assert(crate::interpret::object::get_spec(heap, Object::Object(10), "prototype"@) == Ok::<
        ValueView,
        ValueView,
    >(ValueView::Object(Object::Object(9))));
    assert(crate::interpret::object::get_spec(heap, Object::Object(13), "prototype"@) == Ok::<
        ValueView,
        ValueView,
    >(ValueView::Object(Object::Object(12))));
    assert(crate::interpret::object::get_spec(heap, Object::Object(9), "toString"@) == Ok::<
        ValueView,
        ValueView,
    >(ValueView::Object(Object::Object(8))));
    assert(crate::interpret::object::get_spec(heap, Object::Object(12), "toString"@) == Ok::<
        ValueView,
        ValueView,
    >(ValueView::Object(Object::Object(11))));
    reveal_with_fuel(model::value_get, 3);
}

/// In a fresh engine, a number plus a string is the text that the host wrote for the
/// number, followed by the string, and a string plus a number the string followed by that
/// text; neither changes the heap.
pub proof fn law_sum_with_a_string_joins(n: u64, s: Seq<char>, fuel: nat, trace: Trace)
    requires
        model::written(n, trace.part(0)) is Ok,
    ensures
        model::added(
            ValueView::Number(n),
            ValueView::String(s),
            Object::Object(GLOBAL),
            stdlib_records(),
            fuel,
            trace,
        ) == (
            Ok::<ValueView, model::Raised>(
                ValueView::String(model::written(n, trace.part(0))->Ok_0 + s),
            ),
            stdlib_records(),
        ),
        model::added(
            ValueView::String(s),
            ValueView::Number(n),
            Object::Object(GLOBAL),
            stdlib_records(),
            fuel,
            trace,
        ) == (
            Ok::<ValueView, model::Raised>(
                ValueView::String(s + model::written(n, trace.part(0))->Ok_0),
            ),
            stdlib_records(),
        ),
{
    law_primitives_find_their_prototypes(n, s);
    let heap = stdlib_records();
    let global = Object::Object(GLOBAL);
    let text = model::written(n, trace.part(0))->Ok_0;
    let this = ContextView { this: ValueView::Number(n), local: global, global: global };
    assert(model::callable(ValueView::Object(Object::Object(8)), heap) == Some(
        FunctionView::Native("toString"@, Native::NumberToString),
    ));
    assert(model::apply_value(
        ValueView::Object(Object::Object(8)),
        Seq::empty(),
        this,
        heap,
        fuel,
        trace.part(0),
    ) == (Ok::<ValueView, model::Raised>(ValueView::String(text)), heap)) by {
        reveal_with_fuel(model::apply_value, 3);
    }
    assert(model::js_to_string(ValueView::Number(n), global, heap, fuel, trace) == (
        Ok::<Seq<char>, model::Raised>(text),
        heap,
    ));
}

/// The context of a fresh engine: `this`, the scope and the global object are the global
/// object.
pub open spec fn top_context() -> ContextView {
    ContextView {
        this: ValueView::Object(Object::Object(GLOBAL)),
        local: Object::Object(GLOBAL),
        global: Object::Object(GLOBAL),
    }
}

/// In a fresh engine, the expression that adds a string to a number evaluates to the text
/// that the host wrote for the number, followed by the string, wherever two steps of
/// nesting are allowed.
pub proof fn law_number_plus_string(n: u64, s: Seq<char>, fuel: nat, trace: Trace)
    requires
        fuel >= 2,
        model::written(n, trace.part(2).part(0)) is Ok,
    ensures
        model::eval_expression(
            crate::ast::ExpressionView::Binary(
                crate::ast::BinaryOp::Add,
                Box::new(crate::ast::ExpressionView::Literal(ValueView::Number(n))),
                Box::new(crate::ast::ExpressionView::Literal(ValueView::String(s))),
            ),
            top_context(),
            stdlib_records(),
            fuel,
            trace,
        ) == (
            Ok::<ValueView, model::Raised>(
                ValueView::String(model::written(n, trace.part(2).part(0))->Ok_0 + s),
            ),
            stdlib_records(),
        ),
{
    let less = (fuel - 1) as nat;
    law_sum_with_a_string_joins(n, s, less, trace.part(2));
    let whole = crate::ast::ExpressionView::Binary(
        crate::ast::BinaryOp::Add,
        Box::new(crate::ast::ExpressionView::Literal(ValueView::Number(n))),
        Box::new(crate::ast::ExpressionView::Literal(ValueView::String(s))),
    );
    assert(model::eval_expression(whole, top_context(), stdlib_records(), fuel, trace)
        == model::eval_binary(whole, top_context(), stdlib_records(), less, trace));
    assert(model::eval_expression(
        crate::ast::ExpressionView::Literal(ValueView::Number(n)),
        top_context(),
        stdlib_records(),
        less,
        trace.part(0),
    ) == (Ok::<ValueView, model::Raised>(ValueView::Number(n)), stdlib_records()));
    assert(model::eval_expression(
        crate::ast::ExpressionView::Literal(ValueView::String(s)),
        top_context(),
        stdlib_records(),
        less,
        trace.part(1),
    ) == (Ok::<ValueView, model::Raised>(ValueView::String(s)), stdlib_records()));
}

/// In a fresh engine, the expression that adds two finite numbers evaluates to the number
/// that the host gave as their sum.
pub proof fn law_number_plus_number(a: u64, b: u64, fuel: nat, trace: Trace)
    requires
        fuel >= 2,
        crate::number::is_finite_spec(a),
        crate::number::is_finite_spec(b),
        model::answered(model::Asked::Sum(a, b), trace.part(2)) is Ok,
    ensures
        model::eval_expression(
            crate::ast::ExpressionView::Binary(
                crate::ast::BinaryOp::Add,
                Box::new(crate::ast::ExpressionView::Literal(ValueView::Number(a))),
                Box::new(crate::ast::ExpressionView::Literal(ValueView::Number(b))),
            ),
            top_context(),
            stdlib_records(),
            fuel,
            trace,
        ) == (
            Ok::<ValueView, model::Raised>(
                ValueView::Number(model::answered(model::Asked::Sum(a, b), trace.part(2))->Ok_0),
            ),
            stdlib_records(),
        ),
{
    let less = (fuel - 1) as nat;
    let whole = crate::ast::ExpressionView::Binary(
        crate::ast::BinaryOp::Add,
        Box::new(crate::ast::ExpressionView::Literal(ValueView::Number(a))),
        Box::new(crate::ast::ExpressionView::Literal(ValueView::Number(b))),
    );
    assert(model::eval_expression(whole, top_context(), stdlib_records(), fuel, trace)
        == model::eval_binary(whole, top_context(), stdlib_records(), less, trace));
    assert(model::eval_expression(
        crate::ast::ExpressionView::Literal(ValueView::Number(a)),
        top_context(),
        stdlib_records(),
        less,
        trace.part(0),
    ) == (Ok::<ValueView, model::Raised>(ValueView::Number(a)), stdlib_records()));
    assert(model::eval_expression(
        crate::ast::ExpressionView::Literal(ValueView::Number(b)),
        top_context(),
        stdlib_records(),
        less,
        trace.part(1),
    ) == (Ok::<ValueView, model::Raised>(ValueView::Number(b)), stdlib_records()));
    assert(model::added(
        ValueView::Number(a),
        ValueView::Number(b),
        Object::Object(GLOBAL),
        stdlib_records(),
        less,
        trace.part(2),
    ) == (
        Ok::<ValueView, model::Raised>(
            ValueView::Number(model::answered(model::Asked::Sum(a, b), trace.part(2))->Ok_0),
        ),
        stdlib_records(),
    ));
}

/// An object literal makes an object without prototype, which has no `toString`: in a
/// fresh engine, the expression that adds the empty object literal to a string throws that
/// the object cannot be converted.
pub proof fn law_string_plus_object_literal(s: Seq<char>, fuel: nat, trace: Trace)
    requires
        fuel >= 2,
    ensures
        model::eval_expression(
            crate::ast::ExpressionView::Binary(
                crate::ast::BinaryOp::Add,
                Box::new(crate::ast::ExpressionView::Literal(ValueView::String(s))),
                Box::new(crate::ast::ExpressionView::Object(Seq::empty())),
            ),
            top_context(),
            stdlib_records(),
            fuel,
            trace,
        ).0 == Err::<ValueView, model::Raised>(
            model::thrown("can't convert "@ + ("{"@ + "}"@) + " to primitive type"@),
        ),
{
    let heap = stdlib_records();
    let less = (fuel - 1) as nat;
    let literal = crate::ast::ExpressionView::Object(Seq::empty());
    let whole = crate::ast::ExpressionView::Binary(
        crate::ast::BinaryOp::Add,
        Box::new(crate::ast::ExpressionView::Literal(ValueView::String(s))),
        Box::new(literal),
    );
    let made = heap.push(plain_record(Seq::empty(), Object::Null));
    let object = ValueView::Object(Object::Object(17));
    let global = Object::Object(GLOBAL);
    let inner = trace.part(2);
    assert(model::eval_expression(whole, top_context(), heap, fuel, trace) == model::eval_binary(
        whole,
        top_context(),
        heap,
        less,
        trace,
    ));
    assert(model::eval_expression(
        crate::ast::ExpressionView::Literal(ValueView::String(s)),
        top_context(),
        heap,
        less,
        trace.part(0),
    ) == (Ok::<ValueView, model::Raised>(ValueView::String(s)), heap));
    assert(model::eval_entries(
        Seq::empty(),
        top_context(),
        heap,
        (less - 1) as nat,
        0,
        Seq::empty(),
        trace.part(1),
    ) == (Ok::<Seq<(Seq<char>, ValueView)>, model::Raised>(Seq::empty()), heap));
    assert(heap.len() == 17);
    assert(model::fresh(heap) == Object::Object(17));
    assert(model::eval_expression(literal, top_context(), heap, less, trace.part(1)) == (
        Ok::<ValueView, model::Raised>(object),
        made,
    ));
    crate::interpret::object::lemma_position_missing(Seq::empty(), "toString"@);
    assert(model::get_of(object, "toString"@, global, made) == Ok::<ValueView, ValueView>(
        ValueView::Undefined,
    ));
    assert(model::debug(ValueView::Undefined, made, inner.part(0)) == Ok::<
        Seq<char>,
        model::Raised,
    >("undefined"@));
    assert(model::apply_value(
        ValueView::Undefined,
        Seq::empty(),
        ContextView { this: object, local: global, global: global },
        made,
        less,
        inner.part(0),
    ).0 matches Err(model::Raised::Thrown(_)));
    assert(model::debug(object, made, inner.part(1)) == Ok::<Seq<char>, model::Raised>(
        "{"@ + "}"@,
    )) by {
        reveal_with_fuel(model::debug_text, 2);
        reveal_with_fuel(model::entries_text, 2);
        assert("{"@ + Seq::<char>::empty() + "}"@ =~= "{"@ + "}"@);
    }
    assert(model::js_to_string(object, global, made, less, inner) == (
        Err::<Seq<char>, model::Raised>(model::cannot_convert(object, made, inner.part(1))),
        made,
    ));
    assert(model::added(ValueView::String(s), object, global, made, less, inner) == (
        Err::<ValueView, model::Raised>(model::cannot_convert(object, made, inner.part(1))),
        made,
    ));
}

/// The function without parameters, named `id`, whose body is the one statement
/// `statement`, and whose text is `source`.
pub open spec fn procedure(
    id: Seq<char>,
    statement: StatementView,
    source: Seq<char>,
) -> crate::ast::FunctionView {
    crate::ast::FunctionView {
        id: Some(id),
        parameters: Seq::empty(),
        body: crate::ast::InnerBlockView { block: seq![statement], return_exp: None },
        source: source,
    }
}

/// The call, without arguments, of the variable `id`.
pub open spec fn call_of(id: Seq<char>) -> ExpressionView {
    ExpressionView::Call(
        Box::new(ExpressionView::Access(AccessView::Identifier(id))),
        Seq::empty(),
    )
}

/// The function `a` whose body is `throw o;`.
pub open spec fn thrower(source: Seq<char>) -> crate::ast::FunctionView {
    procedure(
        "a"@,
        StatementView::Throw(ExpressionView::Access(AccessView::Identifier("o"@))),
        source,
    )
}

/// The function `b` whose body is `a();`.
pub open spec fn caller(source: Seq<char>) -> crate::ast::FunctionView {
    procedure("b"@, StatementView::Expression(call_of("a"@)), source)
}

/// The block `var o = {}; function a(){ throw o; } function b(){ a(); }`, where `sources`
/// are the texts of the two functions.
pub open spec fn declarations(sources: (Seq<char>, Seq<char>)) -> Seq<StatementView> {
    seq![
        StatementView::Declaration(
            DeclarationView::Variable("o"@, Some(ExpressionView::Object(Seq::empty()))),
        ),
        StatementView::Declaration(DeclarationView::Function("a"@, thrower(sources.0))),
        StatementView::Declaration(DeclarationView::Function("b"@, caller(sources.1))),
    ]
}

/// The record of a function of the script that was made at the top of a fresh engine.
pub open spec fn top_function(function: crate::ast::FunctionView) -> ObjectView {
    ObjectView {
        values: Seq::empty(),
        prototype: Object::Object(FUNCTION_PROTOTYPE),
        otype: Some(FunctionView::User(function, Object::Object(GLOBAL))),
    }
}

/// The heap of a fresh engine after the declarations: the two functions and the object
/// are new records, and the global object binds `a`, `b` and `o` to them.
pub open spec fn declared(sources: (Seq<char>, Seq<char>)) -> Records {
    let hoisted = updated(stdlib_records(), GLOBAL as int, "o"@, ValueView::Undefined);
    let with_a = updated(
        hoisted.push(top_function(thrower(sources.0))),
        GLOBAL as int,
        "a"@,
        ValueView::Object(Object::Object(17)),
    );
    let with_b = updated(
        with_a.push(top_function(caller(sources.1))),
        GLOBAL as int,
        "b"@,
        ValueView::Object(Object::Object(18)),
    );
    updated(
        with_b.push(plain_record(Seq::empty(), Object::Null)),
        GLOBAL as int,
        "o"@,
        ValueView::Object(Object::Object(19)),
    )
}

/// The names of the declarations differ from each other and from `Function`.
proof fn lemma_declared_names()
    ensures
        "o"@ != "a"@,
        "o"@ != "b"@,
        "a"@ != "b"@,
        "Function"@ != "o"@,
        "Function"@ != "a"@,
        "Function"@ != "b"@,
{
    reveal_strlit("o");
    reveal_strlit("a");
    reveal_strlit("b");
    reveal_strlit("Function");
    assert("o"@[0] == 'o');
    assert("a"@[0] == 'a');
    assert("b"@[0] == 'b');
    assert("Function"@.len() == 8);
}

/// Where the global object of a heap that began as that of a fresh engine still binds
/// `Function` to the record that it was, a function made at the top is a new record whose
/// prototype is the function prototype and whose scope is the global object.
proof fn lemma_function_is_made(function: crate::ast::FunctionView, heap: Records)
    requires
        17 <= heap.len() < usize::MAX,
        own(heap[GLOBAL as int].values, "Function"@) == Some(
            ValueView::Object(Object::Object(15)),
        ),
        heap[15] == stdlib_records()[15],
    ensures
        model::make_function(function, top_context(), heap) == (
            Ok::<ValueView, ValueView>(ValueView::Object(Object::Object(heap.len() as usize))),
            heap.push(top_function(function)),
        ),
{
    let global = Object::Object(GLOBAL);
    assert(record(heap, global) == Some(heap[GLOBAL as int]));
    assert(lookup(heap, global, "Function"@) == Walk::Found(
        GLOBAL as int,
        ValueView::Object(Object::Object(15)),
    ));
    assert(crate::interpret::object::is_first(heap[15].values, "prototype"@, 0));
    crate::interpret::object::lemma_position_found(heap[15].values, "prototype"@, 0);
    assert(record(heap, Object::Object(15)) == Some(heap[15]));
    assert(lookup(heap, Object::Object(15), "prototype"@) == Walk::Found(
        15,
        ValueView::Object(Object::Object(FUNCTION_PROTOTYPE)),
    ));
    assert(model::get_of(ValueView::Object(Object::Object(15)), "prototype"@, global, heap)
        == Ok::<ValueView, ValueView>(ValueView::Object(Object::Object(FUNCTION_PROTOTYPE))))
        by {
        reveal_with_fuel(model::value_get, 2);
    }
}

/// The global object of a fresh engine binds `Function` to its record.
proof fn lemma_function_is_bound()
    ensures
        own(stdlib_records()[GLOBAL as int].values, "Function"@) == Some(
            ValueView::Object(Object::Object(15)),
        ),
{
    lemma_global_keys();
    let globals = stdlib_records()[GLOBAL as int].values;
    assert(crate::interpret::object::is_first(globals, "Function"@, 5));
    crate::interpret::object::lemma_position_found(globals, "Function"@, 5);
}

/// Hoisting the declarations in a fresh engine makes the two functions and binds the
/// three names.
proof fn lemma_declarations_are_hoisted(sources: (Seq<char>, Seq<char>))
    ensures
        ({
            let hoisted = updated(stdlib_records(), GLOBAL as int, "o"@, ValueView::Undefined);
            let with_a = updated(
                hoisted.push(top_function(thrower(sources.0))),
                GLOBAL as int,
                "a"@,
                ValueView::Object(Object::Object(17)),
            );
            let with_b = updated(
                with_a.push(top_function(caller(sources.1))),
                GLOBAL as int,
                "b"@,
                ValueView::Object(Object::Object(18)),
            );
            model::hoist(declarations(sources), top_context(), stdlib_records(), 0) == (
                Ok::<ValueView, ValueView>(ValueView::Undefined),
                with_b,
            )
        }),
{
    lemma_declared_names();
    lemma_function_is_bound();
    let block = declarations(sources);
    let context = top_context();
    let global = Object::Object(GLOBAL);
    let start = stdlib_records();
    let hoisted = updated(start, GLOBAL as int, "o"@, ValueView::Undefined);
    let made_a = hoisted.push(top_function(thrower(sources.0)));
    let with_a = updated(made_a, GLOBAL as int, "a"@, ValueView::Object(Object::Object(17)));
    let made_b = with_a.push(top_function(caller(sources.1)));
    let with_b = updated(made_b, GLOBAL as int, "b"@, ValueView::Object(Object::Object(18)));
    assert(start.len() == 17);
    lemma_stored_own(start[GLOBAL as int].values, "o"@, ValueView::Undefined, "Function"@);
    lemma_function_is_made(thrower(sources.0), hoisted);
    lemma_stored_own(
        made_a[GLOBAL as int].values,
        "a"@,
        ValueView::Object(Object::Object(17)),
        "Function"@,
    );
    lemma_function_is_made(caller(sources.1), with_a);
    assert(model::hoist(block, context, with_b, 3) == (
        Ok::<ValueView, ValueView>(ValueView::Undefined),
        with_b,
    ));
    assert(model::hoist(block, context, with_a, 2) == (
        Ok::<ValueView, ValueView>(ValueView::Undefined),
        with_b,
    )) by {
        assert(block[2] == StatementView::Declaration(
            DeclarationView::Function("b"@, caller(sources.1)),
        ));
        assert(set_spec(made_b, global, "b"@, ValueView::Object(Object::Object(18))).1 == with_b);
    }
    assert(model::hoist(block, context, hoisted, 1) == (
        Ok::<ValueView, ValueView>(ValueView::Undefined),
        with_b,
    )) by {
        assert(block[1] == StatementView::Declaration(
            DeclarationView::Function("a"@, thrower(sources.0)),
        ));
        assert(set_spec(made_a, global, "a"@, ValueView::Object(Object::Object(17))).1 == with_a);
    }
    assert(block[0] == StatementView::Declaration(
        DeclarationView::Variable("o"@, Some(ExpressionView::Object(Seq::empty()))),
    ));
    assert(set_spec(start, global, "o"@, ValueView::Undefined).1 == hoisted);
}

/// In a fresh engine the declarations complete normally and leave the heap `declared`.
proof fn lemma_declarations_run(sources: (Seq<char>, Seq<char>), fuel: nat, trace: Trace)
    requires
        fuel >= 1,
    ensures
        model::eval_block(declarations(sources), top_context(), stdlib_records(), fuel, trace)
            == (model::Completion::Continue(ValueView::Undefined), declared(sources)),
{
    lemma_declarations_are_hoisted(sources);
    let block = declarations(sources);
    let context = top_context();
    let global = Object::Object(GLOBAL);
    let hoisted = updated(stdlib_records(), GLOBAL as int, "o"@, ValueView::Undefined);
    let with_a = updated(
        hoisted.push(top_function(thrower(sources.0))),
        GLOBAL as int,
        "a"@,
        ValueView::Object(Object::Object(17)),
    );
    let with_b = updated(
        with_a.push(top_function(caller(sources.1))),
        GLOBAL as int,
        "b"@,
        ValueView::Object(Object::Object(18)),
    );
    let made = with_b.push(plain_record(Seq::empty(), Object::Null));
    let after = declared(sources);
    let literal = ExpressionView::Object(Seq::empty());
    assert(with_b.len() == 19);
    assert(model::eval_entries(
        Seq::empty(),
        context,
        with_b,
        (fuel - 1) as nat,
        0,
        Seq::empty(),
        trace.part(0),
    ) == (Ok::<Seq<(Seq<char>, ValueView)>, model::Raised>(Seq::empty()), with_b));
    assert(model::eval_expression(literal, context, with_b, fuel, trace.part(0)) == (
        Ok::<ValueView, model::Raised>(ValueView::Object(Object::Object(19))),
        made,
    ));
    assert(set_spec(made, global, "o"@, ValueView::Object(Object::Object(19))).1 == after);
    assert(block[0] == StatementView::Declaration(
        DeclarationView::Variable("o"@, Some(literal)),
    ));
    assert(model::eval_statement(block[0], context, with_b, fuel, trace.part(0)) == (
        model::Completion::Continue(ValueView::Undefined),
        after,
    ));
    assert(model::eval_statements(block, context, after, fuel, 3, ValueView::Undefined, trace) == (
        model::Completion::Continue(ValueView::Undefined),
        after,
    ));
    assert(model::eval_statements(block, context, after, fuel, 2, ValueView::Undefined, trace) == (
        model::Completion::Continue(ValueView::Undefined),
        after,
    )) by {
        assert(block[2] == StatementView::Declaration(
            DeclarationView::Function("b"@, caller(sources.1)),
        ));
        assert(model::eval_statement(block[2], context, after, fuel, trace.part(2)) == (
            model::Completion::Continue(ValueView::Undefined),
            after,
        ));
    }
    assert(model::eval_statements(block, context, after, fuel, 1, ValueView::Undefined, trace) == (
        model::Completion::Continue(ValueView::Undefined),
        after,
    )) by {
        assert(block[1] == StatementView::Declaration(
            DeclarationView::Function("a"@, thrower(sources.0)),
        ));
        assert(model::eval_statement(block[1], context, after, fuel, trace.part(1)) == (
            model::Completion::Continue(ValueView::Undefined),
            after,
        ));
    }
}

/// After the declarations the global object binds `o` to the new object, and `a` and `b`
/// to the two functions.
proof fn lemma_declared_names_are_bound(sources: (Seq<char>, Seq<char>))
    ensures
        declared(sources).len() == 20,
        own(declared(sources)[GLOBAL as int].values, "o"@) == Some(
            ValueView::Object(Object::Object(19)),
        ),
        own(declared(sources)[GLOBAL as int].values, "a"@) == Some(
            ValueView::Object(Object::Object(17)),
        ),
        own(declared(sources)[GLOBAL as int].values, "b"@) == Some(
            ValueView::Object(Object::Object(18)),
        ),
        declared(sources)[17] == top_function(thrower(sources.0)),
        declared(sources)[18] == top_function(caller(sources.1)),
        declared(sources)[19] == plain_record(Seq::empty(), Object::Null),
{
    lemma_declared_names();
    let start = stdlib_records()[GLOBAL as int].values;
    let one = stored(start, "o"@, ValueView::Undefined);
    let two = stored(one, "a"@, ValueView::Object(Object::Object(17)));
    let three = stored(two, "b"@, ValueView::Object(Object::Object(18)));
    let four = stored(three, "o"@, ValueView::Object(Object::Object(19)));
    assert(stdlib_records().len() == 17);
    assert(declared(sources)[GLOBAL as int].values == four);
    lemma_stored_own(three, "o"@, ValueView::Object(Object::Object(19)), "a"@);
    lemma_stored_own(three, "o"@, ValueView::Object(Object::Object(19)), "b"@);
    lemma_stored_own(two, "b"@, ValueView::Object(Object::Object(18)), "a"@);
    lemma_stored_own(one, "a"@, ValueView::Object(Object::Object(17)), "a"@);
}

/// A thrown object is the object itself, not a copy. In a fresh engine, after the block
/// `var o = {}; function a(){ throw o; } function b(){ a(); }` has run, the block `b()`
/// fails with the very handle that the global object holds under `o`, and leaves the
/// record that it names as it was.
pub proof fn law_thrown_object_is_the_declared_one(
    sources: (Seq<char>, Seq<char>),
    fuel: nat,
    first: Trace,
    second: Trace,
)
    requires
        fuel >= 5,
    ensures
        ({
            let declared = model::eval_block(
                declarations(sources),
                top_context(),
                stdlib_records(),
                fuel,
                first,
            );
            let failed = model::eval_block(
                seq![StatementView::Expression(call_of("b"@))],
                top_context(),
                declared.1,
                fuel,
                second,
            );
            &&& declared.0 == model::Completion::Continue(ValueView::Undefined)
            &&& get_spec(declared.1, Object::Object(GLOBAL), "o"@) matches Ok(
                ValueView::Object(held),
            )
            &&& failed.0 == model::Completion::Throw(
                model::Raised::Thrown(ValueView::Object(held)),
            )
            &&& record(declared.1, held).is_some()
            &&& record(failed.1, held) == record(declared.1, held)
        }),
{
    lemma_declarations_run(sources, fuel, first);
    lemma_declared_names_are_bound(sources);
    let heap = declared(sources);
    let held = Object::Object(19);
    assert(record(heap, Object::Object(GLOBAL)) == Some(heap[GLOBAL as int]));
    assert(lookup(heap, Object::Object(GLOBAL), "o"@) == Walk::Found(
        GLOBAL as int,
        ValueView::Object(held),
    ));
    crate::interpret::laws::law_thrown_value_passes_through_calls(
        heap,
        top_context(),
        GLOBAL,
        ("o"@, "a"@, "b"@),
        ValueView::Object(held),
        (17, thrower(sources.0)),
        (18, caller(sources.1)),
        fuel,
        second,
    );
    let failed = model::eval_block(
        seq![StatementView::Expression(call_of("b"@))],
        top_context(),
        heap,
        fuel,
        second,
    );
    assert(failed.1.subrange(0, 20)[19] == failed.1[19]);
}

/// The same of the engine: where the first text spells the declarations and the second
/// the call `b()`, evaluating the first in a fresh engine succeeds, and evaluating the
/// second after it fails with the very handle that the global object holds under `o`.
pub proof fn law_engine_throws_the_declared_object(
    texts: (Seq<char>, Seq<char>),
    sources: (Seq<char>, Seq<char>),
    fuel: nat,
    first: Trace,
    second: Trace,
)
    requires
        fuel >= 5,
        first.part(0) matches Trace::Read(numbers) && parse_text(texts.0, numbers) == Ok::<
            Seq<StatementView>,
            crate::parser::ParseErrorView,
        >(declarations(sources)),
        second.part(0) matches Trace::Read(numbers) && parse_text(texts.1, numbers) == Ok::<
            Seq<StatementView>,
            crate::parser::ParseErrorView,
        >(seq![StatementView::Expression(call_of("b"@))]),
    ensures
        ({
            let declared = eval_source(texts.0, top_context(), stdlib_records(), fuel, first);
            let failed = eval_source(texts.1, top_context(), declared.1, fuel, second);
            &&& declared.0 == Ok::<ValueView, model::Raised>(ValueView::Undefined)
            &&& get_spec(declared.1, Object::Object(GLOBAL), "o"@) matches Ok(
                ValueView::Object(held),
            )
            &&& failed.0 == Err::<ValueView, model::Raised>(
                model::Raised::Thrown(ValueView::Object(held)),
            )
            &&& record(declared.1, held).is_some()
            &&& record(failed.1, held) == record(declared.1, held)
        }),
{
    law_thrown_object_is_the_declared_one(sources, fuel, first.part(1), second.part(1));
}

} // verus!
