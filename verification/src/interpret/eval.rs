//! The evaluator: each function computes what the model of the same name says, and leaves
//! in the heap the trace of what the native functions of the host did meanwhile.

use vstd::prelude::*;
use vstd::string::*;
use std::rc::Rc;
use crate::ast;
use crate::ast::{Access, Accessor, BinaryOp, Declaration, Expression, Statement, UnaryOp};
use crate::host::Host;
use crate::parser::parse::parse_with_numbers;
use crate::interpret::model;
use crate::interpret::model::{
    agrees, completion_agrees, entries_agree, list_agrees, text_agrees, views, Trace,
    DEBUG_DEPTH, DELEGATION_DEPTH,
};
use crate::interpret::object::{
    record, values_view, ActualObject, Function, Heap, Native, ObjectExtension, UserFunction,
};
use crate::interpret::value::{result_view, throw_string, Context, JSResult, Object, Tri, Value};
use crate::number;
use crate::text::{concat, concat3, text};

verus! {

/// The debugging form of the entries of a record, separated by commas, with the trace of
/// what the host wrote for the numbers in it.
fn entries_traced<H: Host>(values: &Vec<(String, Value)>, heap: &Heap, host: &H, depth: usize) -> (r:
    (String, Ghost<Trace>))
    ensures
        model::entries_text(
            values_view(values@),
            heap@,
            depth as nat,
            values@.len() as int,
            r.1@,
        ) == Ok::<Seq<char>, model::Raised>(r.0@),
    decreases depth, 1nat, 0int,
{
    let ghost entries = values_view(values@);
    let ghost mut parts: Seq<Trace> = Seq::empty();
    let mut all = String::new();
    let mut n: usize = 0;
    while n < values.len()
        invariant
            n <= values.len(),
            parts.len() == n,
            n == 0 ==> all@ == Seq::<char>::empty(),
            entries == values_view(values@),
            forall|t: Trace| #[trigger]
                t.starts_with(parts) ==> model::entries_text(
                    entries,
                    heap@,
                    depth as nat,
                    n as int,
                    t,
                ) == Ok::<Seq<char>, model::Raised>(all@),
        decreases values.len() - n,
    {
        let ghost before = all@;
        let ghost earlier = parts;
        let (value, trace) = values[n].1.debug_traced(heap, host, depth);
        if n > 0 {
            all.append(", ");
        }
        all.append("\"");
        all.append(values[n].0.as_str());
        all.append("\": ");
        all.append(value.as_str());
        proof {
            parts = parts.push(trace@);
            let item = "\""@ + entries[n as int].0 + "\": "@ + value@;
            if n == 0 {
                assert(before =~= Seq::<char>::empty());
                assert(all@ =~= item);
            } else {
                assert(all@ =~= before + ", "@ + item);
            }
        }
        assert forall|t: Trace| #[trigger] t.starts_with(parts) implies model::entries_text(
            entries,
            heap@,
            depth as nat,
            n + 1,
            t,
        ) == Ok::<Seq<char>, model::Raised>(all@) by {
            assert(t.starts_with(earlier));
            assert(t.part(n as int) == parts[n as int]);
            assert(model::entries_text(entries, heap@, depth as nat, n as int, t) == Ok::<
                Seq<char>,
                model::Raised,
            >(before));
        }
        n += 1;
    }
    assert(Trace::Parts(parts).starts_with(parts));
    (all, Ghost(Trace::Parts(parts)))
}

/// The line that `console.log` writes for `arguments`: their debugging forms, separated
/// by spaces, with the trace of what the host wrote for the numbers in it.
fn log_line<H: Host>(arguments: &Vec<Value>, heap: &Heap, host: &H) -> (r: (String, Ghost<Trace>))
    ensures
        model::log_text(views(arguments@), heap@, arguments@.len() as int, r.1@) == Ok::<
            Seq<char>,
            model::Raised,
        >(r.0@),
{
    let ghost given = views(arguments@);
    let ghost mut parts: Seq<Trace> = Seq::empty();
    let mut line = String::new();
    let mut n: usize = 0;
    while n < arguments.len()
        invariant
            n <= arguments.len(),
            parts.len() == n,
            n == 0 ==> line@ == Seq::<char>::empty(),
            given == views(arguments@),
            forall|t: Trace| #[trigger]
                t.starts_with(parts) ==> model::log_text(given, heap@, n as int, t) == Ok::<
                    Seq<char>,
                    model::Raised,
                >(line@),
        decreases arguments.len() - n,
    {
        let ghost before = line@;
        let ghost earlier = parts;
        let (value, trace) = arguments[n].debug_traced(heap, host, DEBUG_DEPTH);
        if n > 0 {
            line.append(" ");
        }
        line.append(value.as_str());
        proof {
            parts = parts.push(trace@);
            if n == 0 {
                assert(before =~= Seq::<char>::empty());
                assert(line@ =~= value@);
            } else {
                assert(line@ =~= before + " "@ + value@);
            }
        }
        assert forall|t: Trace| #[trigger] t.starts_with(parts) implies model::log_text(
            given,
            heap@,
            n + 1,
            t,
        ) == Ok::<Seq<char>, model::Raised>(line@) by {
            assert(t.starts_with(earlier));
            assert(t.part(n as int) == parts[n as int]);
            assert(model::log_text(given, heap@, n as int, t) == Ok::<Seq<char>, model::Raised>(
                before,
            ));
        }
        n += 1;
    }
    assert(Trace::Parts(parts).starts_with(parts));
    (line, Ghost(Trace::Parts(parts)))
}

/// Asks the host for the text of a number.
fn ask_text<H: Host>(host: &H, number: u64) -> (r: (String, Ghost<Trace>))
    ensures
        model::written(number, r.1@) == Ok::<Seq<char>, model::Raised>(r.0@),
{
    let text = host.number_format(number);
    let ghost trace = Trace::Text { number: number, text: text@ };
    (text, Ghost(trace))
}

/// Asks the host for the number that answers a question of arithmetic, and records the
/// question and the answer in the trace.
fn ask_number<H: Host>(op: BinaryOp, left: u64, right: u64, heap: &mut Heap, host: &H) -> (r: u64)
    ensures
        final(heap)@ == old(heap)@,
        op == BinaryOp::Add ==> model::answered(
            model::Asked::Sum(left, right),
            final(heap).trace@,
        ) == Ok::<u64, model::Raised>(r),
        op != BinaryOp::Add ==> model::answered(
            model::asked_of(op, left, right),
            final(heap).trace@,
        ) == Ok::<u64, model::Raised>(r),
{
    match op {
        BinaryOp::Add => {
            let r = host.number_add(left, right);
            heap.trace = Ghost(Trace::Number { asked: model::Asked::Sum(left, right), number: r });
            r
        },
        BinaryOp::Subtract => {
            let r = host.number_subtract(left, right);
            heap.trace = Ghost(
                Trace::Number { asked: model::Asked::Difference(left, right), number: r },
            );
            r
        },
        BinaryOp::Multiply => {
            let r = host.number_multiply(left, right);
            heap.trace = Ghost(
                Trace::Number { asked: model::Asked::Product(left, right), number: r },
            );
            r
        },
        _ => {
            let r = host.number_divide(left, right);
            heap.trace = Ghost(
                Trace::Number { asked: model::Asked::Quotient(left, right), number: r },
            );
            r
        },
    }
}

/// The number that a value coerces to; for a string the host is asked what its text
/// denotes, and the question and the answer are recorded in the trace.
fn coerce<H: Host>(value: &Value, heap: &mut Heap, host: &H) -> (r: u64)
    ensures
        final(heap)@ == old(heap)@,
        model::coerced(value@, final(heap).trace@) == Ok::<u64, model::Raised>(r),
{
    match value {
        Value::String(text) => {
            let r = host.number_parse(text.as_str());
            heap.trace = Ghost(
                Trace::Number { asked: model::Asked::Reading(text@), number: r },
            );
            r
        },
        _ => value.to_number(host),
    }
}

/// What a prefix operator makes of a value.
fn unary<H: Host>(op: UnaryOp, value: &Value, heap: &mut Heap, host: &H) -> (r: Value)
    ensures
        final(heap)@ == old(heap)@,
        model::unary(op, value@, final(heap).trace@) == Ok::<
            crate::interpret::value::ValueView,
            model::Raised,
        >(r@),
{
    match op {
        UnaryOp::Positive => Value::Number(coerce(value, heap, host)),
        UnaryOp::Negative => Value::Number(number::negated(coerce(value, heap, host))),
        UnaryOp::LogicalNot => Value::Boolean(!value.to_boolean()),
    }
}

/// What an arithmetic operator other than `+` makes of two values.
fn arithmetic<H: Host>(op: BinaryOp, left: &Value, right: &Value, heap: &mut Heap, host: &H) -> (r:
    Value)
    requires
        op != BinaryOp::Add,
    ensures
        final(heap)@ == old(heap)@,
        model::arithmetic(op, left@, right@, final(heap).trace@) == Ok::<
            crate::interpret::value::ValueView,
            model::Raised,
        >(r@),
{
    let l = coerce(left, heap, host);
    let parts = keep(heap, Ghost(Seq::empty()));
    let r = coerce(right, heap, host);
    let parts = keep(heap, parts);
    let n = ask_number(op, l, r, heap, host);
    let _ = keep(heap, parts);
    Value::Number(n)
}

/// The error that says of a value what it is not, with the trace of what the host wrote
/// for the numbers in it.
fn complain<H: Host>(value: &Value, heap: &mut Heap, host: &H, what: &str) -> (r: Value)
    ensures
        final(heap)@ == old(heap)@,
        model::complaint(value@, old(heap)@, final(heap).trace@, what@) == model::Raised::Thrown(
            r@,
        ),
{
    let (form, trace) = value.debug_traced(heap, host, DEBUG_DEPTH);
    heap.trace = trace;
    Value::String(concat(form.as_str(), what))
}

impl Value {
    /// The debugging form of this value, `depth` objects deep, with the trace of what the
    /// host wrote for the numbers in it.
    pub fn debug_traced<H: Host>(&self, heap: &Heap, host: &H, depth: usize) -> (r: (
        String,
        Ghost<Trace>,
    ))
        ensures
            model::debug_text(self@, heap@, depth as nat, r.1@) == Ok::<Seq<char>, model::Raised>(
                r.0@,
            ),
        decreases depth, 0nat, 0int,
    {
        match self {
            Value::Number(n) => ask_text(host, *n),
            Value::Boolean(b) => if *b {
                (text("true"), Ghost(Trace::Empty))
            } else {
                (text("false"), Ghost(Trace::Empty))
            },
            Value::String(s) => (s.clone(), Ghost(Trace::Empty)),
            Value::Undefined => (text("undefined"), Ghost(Trace::Empty)),
            Value::Object(object) => match *object {
                Object::Null => (text("null"), Ghost(Trace::Empty)),
                Object::Object(i) => {
                    if i >= heap.objects.len() {
                        (text("null"), Ghost(Trace::Empty))
                    } else {
                        match &heap.objects[i].otype {
                            ObjectExtension::Function(f) => (f.debug_string(), Ghost(Trace::Empty)),
                            ObjectExtension::Plain => {
                                if depth == 0 {
                                    (text("{...}"), Ghost(Trace::Empty))
                                } else {
                                    let values = &heap.objects[i].values;
                                    let (inner, trace) = entries_traced(
                                        values,
                                        heap,
                                        host,
                                        depth - 1,
                                    );
                                    (concat3("{", inner.as_str(), "}"), trace)
                                }
                            },
                        }
                    }
                },
            },
        }
    }

    /// The debugging form of this value, `depth` objects deep: what the model gives for
    /// the texts that the host writes for the numbers in it.
    pub fn debug_string_to<H: Host>(&self, heap: &Heap, host: &H, depth: usize) -> (r: String)
        ensures
            exists|trace: Trace| #[trigger]
                model::debug_text(self@, heap@, depth as nat, trace) == Ok::<
                    Seq<char>,
                    model::Raised,
                >(r@),
    {
        let (r, trace) = self.debug_traced(heap, host, depth);
        assert(model::debug_text(self@, heap@, depth as nat, trace@) == Ok::<
            Seq<char>,
            model::Raised,
        >(r@));
        r
    }

    /// The debugging form of this value.
    pub fn debug_string<H: Host>(&self, heap: &Heap, host: &H) -> (r: String)
        ensures
            exists|trace: Trace| #[trigger]
                model::debug(self@, heap@, trace) == Ok::<Seq<char>, model::Raised>(r@),
    {
        let (r, trace) = self.debug_traced(heap, host, DEBUG_DEPTH);
        assert(model::debug(self@, heap@, trace@) == Ok::<Seq<char>, model::Raised>(r@));
        r
    }

    /// Reads the property `key` of this value, handing on from primitive to primitive at
    /// most `depth` times.
    fn get_within(&self, key: &str, global: Object, heap: &Heap, depth: usize) -> (r: JSResult)
        ensures
            result_view(r) == model::value_get(self@, key@, global, heap@, depth as nat),
        decreases depth,
    {
        match self {
            Value::Object(object) => object.get(key, heap),
            Value::Undefined => throw_string(text("undefined has no properties")),
            _ => {
                if depth == 0 {
                    return throw_string(text("too much recursion"));
                }
                let name = match self {
                    Value::Number(_) => "Number",
                    Value::Boolean(_) => "Boolean",
                    _ => "String",
                };
                match global.get(name, heap) {
                    Err(e) => Err(e),
                    Ok(constructor) => match constructor.get_within(
                        "prototype",
                        global,
                        heap,
                        depth - 1,
                    ) {
                        Err(e) => Err(e),
                        Ok(prototype) => prototype.get_within(key, global, heap, depth - 1),
                    },
                }
            },
        }
    }

    /// Reads the property `key` of this value.
    pub fn get(&self, key: &str, global: Object, heap: &Heap) -> (r: JSResult)
        ensures
            result_view(r) == model::get_of(self@, key@, global, heap@),
    {
        self.get_within(key, global, heap, DELEGATION_DEPTH)
    }

    /// Sets the property `key` of this value.
    pub fn set(&self, key: &str, val: Value, heap: &mut Heap) -> (r: JSResult)
        ensures
            (result_view(r), final(heap)@) == model::value_set(self@, key@, val@, old(heap)@),
            final(heap).trace == old(heap).trace,
    {
        match self {
            Value::Object(object) => object.set(key, val, heap),
            Value::Undefined => throw_string(text("undefined has no properties")),
            _ => Ok(Value::Undefined),
        }
    }

    /// Assigns to the variable `key` as seen from the scope that this value stands for.
    pub fn outer_set<H: Host>(&self, key: &str, val: Value, heap: &mut Heap, host: &H) -> (r:
        JSResult)
        ensures
            agrees(
                model::value_outer_set(self@, key@, val@, old(heap)@, final(heap).trace@),
                r,
                final(heap)@,
            ),
    {
        match self {
            Value::Object(object) => object.outer_set(key, val, heap),
            _ => Err(complain(self, heap, host, " is not an object")),
        }
    }

    /// A fresh callable object, as a value.
    pub fn from_function(func: Function, prototype: Object, heap: &mut Heap) -> (r: Value)
        ensures
            r == Value::Object(model::fresh(old(heap)@)),
            final(heap).trace == old(heap).trace,
            final(heap)@ == old(heap)@.push(
                crate::interpret::object::ObjectView {
                    values: Seq::empty(),
                    prototype: prototype,
                    otype: Some(func@),
                },
            ),
    {
        Value::Object(Object::from_function(func, prototype, heap))
    }

    /// The function that makes this value callable, if it is.
    pub fn callable(&self, heap: &Heap) -> (r: Option<Function>)
        ensures
            match r {
                Some(f) => model::callable(self@, heap@) == Some(f@),
                None => model::callable(self@, heap@).is_none(),
            },
    {
        match self {
            Value::Object(Object::Object(i)) => {
                if *i < heap.objects.len() {
                    match &heap.objects[*i].otype {
                        ObjectExtension::Function(f) => Some(f.clone()),
                        ObjectExtension::Plain => None,
                    }
                } else {
                    None
                }
            },
            _ => None,
        }
    }

    /// Calls this value with `arguments`, in `context`.
    pub fn apply<H: Host>(
        &self,
        arguments: Vec<Value>,
        context: Context,
        heap: &mut Heap,
        host: &H,
        depth: usize,
    ) -> (r: JSResult)
        ensures
            agrees(
                model::apply_value(
                    self@,
                    views(arguments@),
                    context@,
                    old(heap)@,
                    depth as nat,
                    final(heap).trace@,
                ),
                r,
                final(heap)@,
            ),
        decreases depth, 6nat, 0nat,
    {
        match self.callable(heap) {
            Some(function) => function.apply(arguments, context, heap, host, depth),
            None => Err(complain(self, heap, host, " is not a function")),
        }
    }

    /// The error of a value that has no text.
    fn cannot_convert<H: Host>(&self, heap: &mut Heap, host: &H) -> (r: Value)
        ensures
            final(heap)@ == old(heap)@,
            model::Raised::Thrown(r@) == model::cannot_convert(
                self@,
                old(heap)@,
                final(heap).trace@,
            ),
    {
        let (form, trace) = self.debug_traced(heap, host, DEBUG_DEPTH);
        heap.trace = trace;
        Value::String(concat3("can't convert ", form.as_str(), " to primitive type"))
    }

    /// The text of this value, through its `toString` property.
    pub fn js_to_string<H: Host>(&self, global: Object, heap: &mut Heap, host: &H, depth: usize) -> (r:
        Result<String, Value>)
        ensures
            text_agrees(
                model::js_to_string(
                    self@,
                    global,
                    old(heap)@,
                    depth as nat,
                    final(heap).trace@,
                ),
                r,
                final(heap)@,
            ),
        decreases depth, 7nat, 0nat,
    {
        match self.get("toString", global, heap) {
            Err(_) => Err(self.cannot_convert(heap, host)),
            Ok(to_string) => {
                let arguments: Vec<Value> = Vec::new();
                assert(views(arguments@) =~= Seq::empty());
                let context = Context { this: self.clone(), local: global, global: global };
                let called = to_string.apply(arguments, context, heap, host, depth);
                let parts = keep(heap, Ghost(Seq::empty()));
                match called {
                    Ok(value) => Ok(value.to_string()),
                    Err(_) => {
                        let e = self.cannot_convert(heap, host);
                        let _ = keep(heap, parts);
                        Err(e)
                    },
                }
            },
        }
    }

    /// The texts of this value and of `right`, joined.
    fn joined<H: Host>(&self, right: &Value, global: Object, heap: &mut Heap, host: &H, depth: usize) -> (r:
        JSResult)
        ensures
            agrees(
                model::joined(
                    self@,
                    right@,
                    global,
                    old(heap)@,
                    depth as nat,
                    final(heap).trace@,
                ),
                r,
                final(heap)@,
            ),
        decreases depth, 8nat, 0nat,
    {
        let left = self.js_to_string(global, heap, host, depth);
        let parts = keep(heap, Ghost(Seq::empty()));
        let left_text = match left {
            Ok(text) => text,
            Err(e) => {
                return Err(e);
            },
        };
        let right = right.js_to_string(global, heap, host, depth);
        let _ = keep(heap, parts);
        match right {
            Err(e) => Err(e),
            Ok(right_text) => Ok(Value::String(concat(left_text.as_str(), right_text.as_str()))),
        }
    }

    /// The sum of this value and `right`.
    pub fn add<H: Host>(&self, right: &Value, global: Object, heap: &mut Heap, host: &H, depth: usize) -> (r:
        JSResult)
        ensures
            agrees(
                model::added(
                    self@,
                    right@,
                    global,
                    old(heap)@,
                    depth as nat,
                    final(heap).trace@,
                ),
                r,
                final(heap)@,
            ),
        decreases depth, 9nat, 0nat,
    {
        if let Value::String(right_text) = right {
            match self.js_to_string(global, heap, host, depth) {
                Err(e) => Err(e),
                Ok(left_text) => Ok(
                    Value::String(concat(left_text.as_str(), right_text.as_str())),
                ),
            }
        } else if let Value::String(left_text) = self {
            match right.js_to_string(global, heap, host, depth) {
                Err(e) => Err(e),
                Ok(right_text) => Ok(
                    Value::String(concat(left_text.as_str(), right_text.as_str())),
                ),
            }
        } else {
            let left_number = self.to_number(host);
            let right_number = right.to_number(host);
            if number::is_finite(left_number) && number::is_finite(right_number) {
                Ok(Value::Number(ask_number(BinaryOp::Add, left_number, right_number, heap, host)))
            } else {
                self.joined(right, global, heap, host, depth)
            }
        }
    }
}

/// Adds the trace that the last evaluation left to the traces of the parts before it, and
/// leaves the whole as the trace of the construct.
fn keep(heap: &mut Heap, Ghost(parts): Ghost<Seq<Trace>>) -> (r: Ghost<Seq<Trace>>)
    ensures
        r@ == parts.push(old(heap).trace@),
        final(heap).trace@ == Trace::Parts(r@),
        final(heap)@ == old(heap)@,
{
    let ghost all = parts.push(heap.trace@);
    heap.trace = Ghost(Trace::Parts(all));
    Ghost(all)
}

/// A completion as the result of the call that ran the block.
fn returned(completion: Tri) -> (r: JSResult)
    ensures
        r == match completion {
            Tri::Continue(v) => Ok::<Value, Value>(v),
            Tri::Return(v) => Ok::<Value, Value>(v),
            Tri::Error(e) => Err::<Value, Value>(e),
        },
{
    match completion {
        Tri::Continue(v) => Ok(v),
        Tri::Return(v) => Ok(v),
        Tri::Error(e) => Err(e),
    }
}

/// The argument at place `i`, or undefined.
fn argument(arguments: &Vec<Value>, i: usize) -> (r: Value)
    ensures
        r@ == model::argument(views(arguments@), i as int),
{
    if i < arguments.len() {
        arguments[i].clone()
    } else {
        Value::Undefined
    }
}

impl Function {
    /// Calls this function with `arguments`, in `context`.
    pub fn apply<H: Host>(
        &self,
        arguments: Vec<Value>,
        context: Context,
        heap: &mut Heap,
        host: &H,
        depth: usize,
    ) -> (r: JSResult)
        ensures
            agrees(
                model::apply_function(
                    self@,
                    views(arguments@),
                    context@,
                    old(heap)@,
                    depth as nat,
                    final(heap).trace@,
                ),
                r,
                final(heap)@,
            ),
        decreases depth, 5nat, 0nat,
    {
        match self {
            Function::Native(_, native) => apply_native(
                *native,
                arguments,
                context,
                heap,
                host,
                depth,
            ),
            Function::User(user) => {
                let mut env = ActualObject::create(user.local);
                let parameters = &user.function.parameters;
                let mut n: usize = 0;
                while n < parameters.len()
                    invariant
                        n <= parameters.len(),
                        parameters == &user.function.parameters,
                        env@ == (crate::interpret::object::ObjectView {
                            values: model::bound(
                                (*user.function)@.parameters,
                                views(arguments@),
                                n as int,
                            ),
                            prototype: user.local,
                            otype: None,
                        }),
                    decreases parameters.len() - n,
                {
                    let value = argument(&arguments, n);
                    env.set(parameters[n].as_str(), value);
                    n += 1;
                }
                let local = heap.insert(env);
                let inner = Context { this: context.this, local: local, global: context.global };
                returned(eval_inner_block(&user.function.body, inner, heap, host, depth))
            },
        }
    }
}

impl ActualObject {
    /// Calls a record that stands apart from the heap with `arguments`, in `context`.
    pub fn apply<H: Host>(
        &self,
        arguments: Vec<Value>,
        context: Context,
        heap: &mut Heap,
        host: &H,
        depth: usize,
    ) -> (r: JSResult)
        ensures
            self@.otype matches Some(function) ==> agrees(
                model::apply_function(
                    function,
                    views(arguments@),
                    context@,
                    old(heap)@,
                    depth as nat,
                    final(heap).trace@,
                ),
                r,
                final(heap)@,
            ),
            self@.otype is None ==> final(heap)@ == old(heap)@ && (model::entries_text(
                self@.values,
                old(heap)@,
                DEBUG_DEPTH as nat,
                self@.values.len() as int,
                final(heap).trace@,
            ) matches Ok(inner) && result_view(r) == Err::<
                crate::interpret::value::ValueView,
                crate::interpret::value::ValueView,
            >(crate::interpret::value::ValueView::String("{"@ + inner + "} is not a function"@))),
    {
        match &self.otype {
            ObjectExtension::Function(f) => f.apply(arguments, context, heap, host, depth),
            ObjectExtension::Plain => {
                let (inner, trace) = entries_traced(&self.values, heap, host, DEBUG_DEPTH);
                heap.trace = trace;
                throw_string(concat3("{", inner.as_str(), "} is not a function"))
            },
        }
    }
}

/// Calls a native function of the host, and records in the trace what it was called with
/// and what it gave.
fn call_host<H: Host>(
    native: u64,
    arguments: Vec<Value>,
    context: Context,
    heap: &mut Heap,
    host: &H,
    depth: usize,
) -> (r: JSResult)
    ensures
        agrees(
            model::host_call(
                native,
                views(arguments@),
                context@,
                old(heap)@,
                depth as nat,
                final(heap).trace@,
            ),
            r,
            final(heap)@,
        ),
{
    let ghost given = views(arguments@);
    let ghost state = context@;
    let ghost before = heap@;
    let r = host.call(native, arguments, context, heap, depth);
    heap.trace = Ghost(
        Trace::Host {
            native: native,
            arguments: given,
            context: state,
            before: before,
            fuel: depth as nat,
            result: result_view(r),
            after: heap@,
        },
    );
    r
}

/// Writes the line of a call of `console.log`, and records it in the trace.
fn write_line<H: Host>(arguments: &Vec<Value>, heap: &mut Heap, host: &H)
    ensures
        final(heap)@ == old(heap)@,
        model::log_text(
            views(arguments@),
            old(heap)@,
            arguments@.len() as int,
            final(heap).trace@.part(0),
        ) matches Ok(line) && final(heap).trace@.part(1) == Trace::Written(line),
{
    let (line, trace) = log_line(arguments, heap, host);
    host.print(line.as_str());
    heap.trace = Ghost(Trace::Parts(seq![trace@, Trace::Written(line@)]));
}

/// Calls a native function.
fn apply_native<H: Host>(
    native: Native,
    arguments: Vec<Value>,
    context: Context,
    heap: &mut Heap,
    host: &H,
    depth: usize,
) -> (r: JSResult)
    ensures
        agrees(
            model::apply_native(
                native,
                views(arguments@),
                context@,
                old(heap)@,
                depth as nat,
                final(heap).trace@,
            ),
            r,
            final(heap)@,
        ),
    decreases depth, 4nat, 0nat,
{
    match native {
        Native::ObjectToString => Ok(Value::String(text("[object Object]"))),
        Native::FunctionToString => match context.this.callable(heap) {
            Some(function) => Ok(Value::String(function.to_string())),
            None => Err(complain(&context.this, heap, host, " is not a function!")),
        },
        Native::ObjectCreate => match argument(&arguments, 0) {
            Value::Object(prototype) => Ok(Value::Object(Object::create(prototype, heap))),
            other => Err(complain(&other, heap, host, " is not a Object")),
        },
        Native::NumberToString => match &context.this {
            Value::Number(n) => {
                let (text, trace) = ask_text(host, *n);
                heap.trace = trace;
                Ok(Value::String(text))
            },
            other => Err(complain(other, heap, host, " is not a number!")),
        },
        Native::StringToString => match &context.this {
            Value::String(s) => Ok(Value::String(s.clone())),
            other => Err(complain(other, heap, host, " is not a string!")),
        },
        Native::ConsoleLog => {
            write_line(&arguments, heap, host);
            Ok(Value::Undefined)
        },
        Native::Eval => match argument(&arguments, 0) {
            Value::String(source) => {
                let (parsed, numbers) = parse_with_numbers(host, source.as_str());
                heap.trace = Ghost(Trace::Read(numbers@));
                let parts = keep(heap, Ghost(Seq::empty()));
                match parsed {
                    Ok(block) => {
                        let done = eval_block(&block, context, heap, host, depth);
                        let _ = keep(heap, parts);
                        returned(done)
                    },
                    Err(e) => throw_string(concat("SyntaxError: ", e.message().as_str())),
                }
            },
            other => Err(complain(&other, heap, host, " is not a String")),
        },
        Native::Host(id) => call_host(id, arguments, context, heap, host, depth),
    }
}

/// A function value made from `function` in the scope of `context`.
pub fn make_function(function: &Rc<ast::Function>, context: &Context, heap: &mut Heap) -> (r:
    JSResult)
    ensures
        (result_view(r), final(heap)@) == model::make_function(
            (**function)@,
            context@,
            old(heap)@,
        ),
        final(heap).trace == old(heap).trace,
{
    match context.global.get("Function", heap) {
        Err(_) => throw_string(text("Function.prototype must be an object")),
        Ok(constructor) => match constructor.get("prototype", context.global, heap) {
            Err(_) => throw_string(text("Function.prototype must be an object")),
            Ok(Value::Object(prototype)) => Ok(
                Value::from_function(
                    Function::User(UserFunction::new(Rc::clone(function), context.local)),
                    prototype,
                    heap,
                ),
            ),
            Ok(_) => throw_string(text("Function.prototype must be an object")),
        },
    }
}

/// Evaluates a block with a final expression.
pub fn eval_inner_block<H: Host>(
    block: &ast::InnerBlock,
    context: Context,
    heap: &mut Heap,
    host: &H,
    depth: usize,
) -> (r: Tri)
    ensures
        completion_agrees(
            model::eval_inner_block(
                block@,
                context@,
                old(heap)@,
                depth as nat,
                final(heap).trace@,
            ),
            r,
            final(heap)@,
        ),
    decreases depth, 0nat, 0nat,
{
    if depth == 0 {
        return Tri::Error(Value::String(text("too much recursion")));
    }
    let done = eval_block(&block.block, context.clone(), heap, host, depth - 1);
    let parts = keep(heap, Ghost(Seq::empty()));
    match done {
        Tri::Continue(_) => (),
        Tri::Return(v) => {
            return Tri::Return(v);
        },
        Tri::Error(e) => {
            return Tri::Error(e);
        },
    }
    match &block.return_exp {
        Some(e) => {
            let value = eval_expression(e, context, heap, host, depth - 1);
            let _ = keep(heap, parts);
            match value {
                Ok(v) => Tri::Return(v),
                Err(e) => Tri::Error(e),
            }
        },
        None => Tri::Continue(Value::Undefined),
    }
}

/// Finds the receiver of a call: the value whose property the callee is, evaluated once
/// more, or the global object.
fn eval_receiver<H: Host>(
    callee: &Expression,
    context: Context,
    heap: &mut Heap,
    host: &H,
    depth: usize,
) -> (r: JSResult)
    ensures
        agrees(
            model::eval_receiver(
                callee@,
                context@,
                old(heap)@,
                depth as nat,
                final(heap).trace@,
            ),
            r,
            final(heap)@,
        ),
    decreases depth, 10nat, 0nat,
{
    match callee {
        Expression::Access(access) => {
            assert(callee@ == ast::ExpressionView::Access(access@));
            match access {
                Access::Member(p, _) => eval_expression(p, context, heap, host, depth),
                Access::Identifier(_) => Ok(Value::Object(context.global)),
            }
        },
        _ => Ok(Value::Object(context.global)),
    }
}

/// Evaluates a call.
fn eval_call<H: Host>(
    expression: &Expression,
    context: Context,
    heap: &mut Heap,
    host: &H,
    depth: usize,
) -> (r: JSResult)
    ensures
        agrees(
            model::eval_call(
                expression@,
                context@,
                old(heap)@,
                depth as nat,
                final(heap).trace@,
            ),
            r,
            final(heap)@,
        ),
    decreases depth, 11nat, 0nat,
{
    match expression {
        Expression::Call(function, arguments) => {
            let callee = eval_expression(function, context.clone(), heap, host, depth);
            let parts = keep(heap, Ghost(Seq::empty()));
            let func = match callee {
                Ok(v) => v,
                Err(e) => {
                    return Err(e);
                },
            };
            let values = eval_expression_list(arguments, context.clone(), heap, host, depth);
            let parts = keep(heap, parts);
            let args = match values {
                Ok(v) => v,
                Err(e) => {
                    return Err(e);
                },
            };
            let receiver = eval_receiver(function, context.clone(), heap, host, depth);
            let parts = keep(heap, parts);
            let this = match receiver {
                Ok(v) => v,
                Err(e) => {
                    return Err(e);
                },
            };
            let inner = Context { this: this, local: context.local, global: context.global };
            let called = func.apply(args, inner, heap, host, depth);
            let _ = keep(heap, parts);
            called
        },
        _ => Ok(Value::Undefined),
    }
}

/// Evaluates the expressions of a list, from left to right.
fn eval_expression_list<H: Host>(
    expressions: &Vec<Expression>,
    context: Context,
    heap: &mut Heap,
    host: &H,
    depth: usize,
) -> (r: Result<Vec<Value>, Value>)
    ensures
        list_agrees(
            model::eval_expression_list(
                ast::expressions_view(*expressions),
                context@,
                old(heap)@,
                depth as nat,
                0,
                Seq::empty(),
                final(heap).trace@,
            ),
            r,
            final(heap)@,
        ),
    decreases depth, 10nat, 0nat,
{
    let ghost list = ast::expressions_view(*expressions);
    let ghost first = heap@;
    let ghost mut parts: Seq<Trace> = Seq::empty();
    let mut values: Vec<Value> = Vec::new();
    assert(views(values@) =~= Seq::empty());
    let mut i: usize = 0;
    while i < expressions.len()
        invariant
            i <= expressions.len(),
            list == ast::expressions_view(*expressions),
            first == old(heap)@,
            forall|t: Trace| #[trigger]
                t.starts_with(parts) ==> model::eval_expression_list(
                    list,
                    context@,
                    heap@,
                    depth as nat,
                    i as int,
                    views(values@),
                    t,
                ) == model::eval_expression_list(
                    list,
                    context@,
                    first,
                    depth as nat,
                    0,
                    Seq::empty(),
                    t,
                ),
            parts.len() == i,
        decreases expressions.len() - i,
    {
        let ghost before = heap@;
        let ghost so_far = views(values@);
        let ghost earlier = parts;
        let value = eval_expression(&expressions[i], context.clone(), heap, host, depth);
        proof {
            parts = parts.push(heap.trace@);
        }
        heap.trace = Ghost(Trace::Parts(parts));
        match value {
            Err(e) => {
                assert(heap.trace@.starts_with(earlier));
                return Err(e);
            },
            Ok(value) => {
                values.push(value);
                assert(views(values@) =~= so_far.push(value@));
                assert forall|t: Trace| #[trigger] t.starts_with(parts) implies
                    model::eval_expression_list(
                    list,
                    context@,
                    heap@,
                    depth as nat,
                    i + 1,
                    views(values@),
                    t,
                ) == model::eval_expression_list(
                    list,
                    context@,
                    first,
                    depth as nat,
                    0,
                    Seq::empty(),
                    t,
                ) by {
                    assert(t.starts_with(earlier));
                    assert(t.part(i as int) == parts[i as int]);
                    assert(model::eval_expression_list(
                        list,
                        context@,
                        before,
                        depth as nat,
                        i as int,
                        so_far,
                        t,
                    ) == model::eval_expression_list(
                        list,
                        context@,
                        heap@,
                        depth as nat,
                        i + 1,
                        views(values@),
                        t,
                    ));
                }
                i += 1;
            },
        }
    }
    heap.trace = Ghost(Trace::Parts(parts));
    assert(heap.trace@.starts_with(parts));
    Ok(values)
}

/// Evaluates the entries of an object literal, from left to right, into a record.
fn eval_entries<H: Host>(
    entries: &Vec<(String, Expression)>,
    context: Context,
    heap: &mut Heap,
    host: &H,
    depth: usize,
) -> (r: Result<ActualObject, Value>)
    ensures
        entries_agree(
            model::eval_entries(
                ast::entries_view(*entries),
                context@,
                old(heap)@,
                depth as nat,
                0,
                Seq::empty(),
                final(heap).trace@,
            ),
            r,
            final(heap)@,
        ),
        r matches Ok(made) ==> made@.prototype == Object::Null && made@.otype is None,
    decreases depth, 10nat, 0nat,
{
    let ghost list = ast::entries_view(*entries);
    let ghost first = heap@;
    let ghost mut parts: Seq<Trace> = Seq::empty();
    let mut made = ActualObject::new();
    let mut i: usize = 0;
    while i < entries.len()
        invariant
            i <= entries.len(),
            made@.prototype == Object::Null,
            made@.otype is None,
            list == ast::entries_view(*entries),
            first == old(heap)@,
            forall|t: Trace| #[trigger]
                t.starts_with(parts) ==> model::eval_entries(
                    list,
                    context@,
                    heap@,
                    depth as nat,
                    i as int,
                    made@.values,
                    t,
                ) == model::eval_entries(
                    list,
                    context@,
                    first,
                    depth as nat,
                    0,
                    Seq::empty(),
                    t,
                ),
            parts.len() == i,
        decreases entries.len() - i,
    {
        let ghost before = heap@;
        let ghost so_far = made@.values;
        let ghost earlier = parts;
        let value = eval_expression(&entries[i].1, context.clone(), heap, host, depth);
        proof {
            parts = parts.push(heap.trace@);
        }
        heap.trace = Ghost(Trace::Parts(parts));
        match value {
            Err(e) => {
                assert(heap.trace@.starts_with(earlier));
                return Err(e);
            },
            Ok(value) => {
                made.set(entries[i].0.as_str(), value);
                assert forall|t: Trace| #[trigger] t.starts_with(parts) implies
                    model::eval_entries(
                    list,
                    context@,
                    heap@,
                    depth as nat,
                    i + 1,
                    made@.values,
                    t,
                ) == model::eval_entries(
                    list,
                    context@,
                    first,
                    depth as nat,
                    0,
                    Seq::empty(),
                    t,
                ) by {
                    assert(t.starts_with(earlier));
                    assert(t.part(i as int) == parts[i as int]);
                    assert(model::eval_entries(
                        list,
                        context@,
                        before,
                        depth as nat,
                        i as int,
                        so_far,
                        t,
                    ) == model::eval_entries(
                        list,
                        context@,
                        heap@,
                        depth as nat,
                        i + 1,
                        made@.values,
                        t,
                    ));
                }
                i += 1;
            },
        }
    }
    heap.trace = Ghost(Trace::Parts(parts));
    assert(heap.trace@.starts_with(parts));
    Ok(made)
}

/// Finds the name of a property.
fn eval_accessor<H: Host>(
    acor: &Accessor,
    context: Context,
    heap: &mut Heap,
    host: &H,
    depth: usize,
) -> (r: Result<String, Value>)
    ensures
        text_agrees(
            model::eval_accessor(
                acor@,
                context@,
                old(heap)@,
                depth as nat,
                final(heap).trace@,
            ),
            r,
            final(heap)@,
        ),
    decreases depth, 10nat, 0nat,
{
    match acor {
        Accessor::Identifier(id) => Ok(id.clone()),
        Accessor::Expression(e) => {
            let found = eval_expression(e, context.clone(), heap, host, depth);
            let parts = keep(heap, Ghost(Seq::empty()));
            match found {
                Err(e) => Err(e),
                Ok(value) => {
                    let name = value.js_to_string(context.global, heap, host, depth);
                    let _ = keep(heap, parts);
                    name
                },
            }
        },
    }
}

/// Reads a place.
fn access_get<H: Host>(
    access: &Access,
    context: Context,
    heap: &mut Heap,
    host: &H,
    depth: usize,
) -> (r: JSResult)
    ensures
        agrees(
            model::access_get(
                access@,
                context@,
                old(heap)@,
                depth as nat,
                final(heap).trace@,
            ),
            r,
            final(heap)@,
        ),
    decreases depth, 11nat, 0nat,
{
    match access {
        Access::Member(e, a) => {
            let target = eval_expression(e, context.clone(), heap, host, depth);
            let parts = keep(heap, Ghost(Seq::empty()));
            let value = match target {
                Ok(value) => value,
                Err(e) => {
                    return Err(e);
                },
            };
            let name = eval_accessor(a, context.clone(), heap, host, depth);
            let _ = keep(heap, parts);
            match name {
                Err(e) => Err(e),
                Ok(id) => value.get(id.as_str(), context.global, heap),
            }
        },
        Access::Identifier(i) => context.local.get_or_err(i.as_str(), heap),
    }
}

/// Writes a place.
fn access_set<H: Host>(
    access: &Access,
    context: Context,
    val: Value,
    heap: &mut Heap,
    host: &H,
    depth: usize,
) -> (r: JSResult)
    ensures
        agrees(
            model::access_set(
                access@,
                context@,
                val@,
                old(heap)@,
                depth as nat,
                final(heap).trace@,
            ),
            r,
            final(heap)@,
        ),
    decreases depth, 11nat, 0nat,
{
    match access {
        Access::Member(e, a) => {
            let name = eval_accessor(a, context.clone(), heap, host, depth);
            let parts = keep(heap, Ghost(Seq::empty()));
            let id = match name {
                Ok(id) => id,
                Err(e) => {
                    return Err(e);
                },
            };
            let target = eval_expression(e, context, heap, host, depth);
            let _ = keep(heap, parts);
            match target {
                Err(e) => Err(e),
                Ok(receiver) => receiver.set(id.as_str(), val, heap),
            }
        },
        Access::Identifier(i) => context.local.outer_set(i.as_str(), val, heap),
    }
}

/// Evaluates a prefix operation.
fn eval_unary<H: Host>(
    expression: &Expression,
    context: Context,
    heap: &mut Heap,
    host: &H,
    depth: usize,
) -> (r: JSResult)
    ensures
        agrees(
            model::eval_unary(
                expression@,
                context@,
                old(heap)@,
                depth as nat,
                final(heap).trace@,
            ),
            r,
            final(heap)@,
        ),
    decreases depth, 11nat, 0nat,
{
    match expression {
        Expression::Unary(op, exp) => {
            let operand = eval_expression(exp, context, heap, host, depth);
            let parts = keep(heap, Ghost(Seq::empty()));
            let val = match operand {
                Ok(v) => v,
                Err(e) => {
                    return Err(e);
                },
            };
            let made = unary(*op, &val, heap, host);
            let _ = keep(heap, parts);
            Ok(made)
        },
        _ => Ok(Value::Undefined),
    }
}

/// A value where it counts as true, and `false` where it does not.
fn truthy_or_false(value: Value) -> (r: Value)
    ensures
        r@ == model::truthy_or_false(value@),
{
    if value.to_boolean() {
        value
    } else {
        Value::Boolean(false)
    }
}

/// Evaluates an infix operation.
fn eval_binary<H: Host>(
    expression: &Expression,
    context: Context,
    heap: &mut Heap,
    host: &H,
    depth: usize,
) -> (r: JSResult)
    ensures
        agrees(
            model::eval_binary(
                expression@,
                context@,
                old(heap)@,
                depth as nat,
                final(heap).trace@,
            ),
            r,
            final(heap)@,
        ),
    decreases depth, 11nat, 0nat,
{
    match expression {
        Expression::Binary(op, left, right) => {
            let first = eval_expression(left, context.clone(), heap, host, depth);
            let parts = keep(heap, Ghost(Seq::empty()));
            let left = match first {
                Ok(v) => v,
                Err(e) => {
                    return Err(e);
                },
            };
            let decided = match op {
                BinaryOp::LogicalAnd => !left.to_boolean(),
                BinaryOp::LogicalOr => left.to_boolean(),
                _ => false,
            };
            if decided {
                return match op {
                    BinaryOp::LogicalAnd => Ok(Value::Boolean(false)),
                    _ => Ok(left),
                };
            }
            let second = eval_expression(right, context.clone(), heap, host, depth);
            let parts = keep(heap, parts);
            let right = match second {
                Ok(v) => v,
                Err(e) => {
                    return Err(e);
                },
            };
            match op {
                BinaryOp::LogicalAnd => Ok(truthy_or_false(right)),
                BinaryOp::LogicalOr => Ok(truthy_or_false(right)),
                BinaryOp::Add => {
                    let sum = left.add(&right, context.global, heap, host, depth);
                    let _ = keep(heap, parts);
                    sum
                },
                _ => {
                    let made = arithmetic(*op, &left, &right, heap, host);
                    let _ = keep(heap, parts);
                    Ok(made)
                },
            }
        },
        _ => Ok(Value::Undefined),
    }
}

/// Evaluates an expression.
pub fn eval_expression<H: Host>(
    expression: &Expression,
    context: Context,
    heap: &mut Heap,
    host: &H,
    depth: usize,
) -> (r: JSResult)
    ensures
        agrees(
            model::eval_expression(
                expression@,
                context@,
                old(heap)@,
                depth as nat,
                final(heap).trace@,
            ),
            r,
            final(heap)@,
        ),
    decreases depth, 0nat, 0nat,
{
    if depth == 0 {
        return throw_string(text("too much recursion"));
    }
    let less = depth - 1;
    match expression {
        Expression::Assignment(lhs, rhs) => {
            let right = eval_expression(rhs, context.clone(), heap, host, less);
            let parts = keep(heap, Ghost(Seq::empty()));
            let rhs = match right {
                Ok(v) => v,
                Err(e) => {
                    return Err(e);
                },
            };
            let written = access_set(lhs, context, rhs, heap, host, less);
            let parts = keep(heap, parts);
            written
        },
        Expression::Call(_, _) => eval_call(expression, context, heap, host, less),
        Expression::Access(a) => access_get(a, context, heap, host, less),
        Expression::Literal(l) => Ok(l.clone()),
        Expression::Function(f) => make_function(f, &context, heap),
        Expression::Unary(_, _) => eval_unary(expression, context, heap, host, less),
        Expression::Binary(_, _, _) => eval_binary(expression, context, heap, host, less),
        Expression::Ternary(condition, consequent, alternate) => {
            let tested = eval_expression(condition, context.clone(), heap, host, less);
            let parts = keep(heap, Ghost(Seq::empty()));
            let chosen = match tested {
                Ok(v) => v.to_boolean(),
                Err(e) => {
                    return Err(e);
                },
            };
            let value = if chosen {
                eval_expression(consequent, context, heap, host, less)
            } else {
                eval_expression(alternate, context, heap, host, less)
            };
            let _ = keep(heap, parts);
            value
        },
        Expression::Object(exprs) => {
            let made = match eval_entries(exprs, context, heap, host, less) {
                Ok(made) => made,
                Err(e) => {
                    return Err(e);
                },
            };
            Ok(Value::Object(heap.insert(made)))
        },
        Expression::This => Ok(context.this),
    }
}

/// Evaluates a statement.
fn eval_statement<H: Host>(
    statement: &Statement,
    context: Context,
    heap: &mut Heap,
    host: &H,
    depth: usize,
) -> (r: Tri)
    ensures
        completion_agrees(
            model::eval_statement(
                statement@,
                context@,
                old(heap)@,
                depth as nat,
                final(heap).trace@,
            ),
            r,
            final(heap)@,
        ),
    decreases depth, 1nat, 0nat,
{
    match statement {
        Statement::Expression(e) => match eval_expression(e, context, heap, host, depth) {
            Ok(v) => Tri::Continue(v),
            Err(e) => Tri::Error(e),
        },
        Statement::Declaration(d) => match d {
            Declaration::Variable(id, init) => {
                if let Some(expr) = init {
                    let init_val = match eval_expression(
                        expr,
                        context.clone(),
                        heap,
                        host,
                        depth,
                    ) {
                        Ok(v) => v,
                        Err(e) => {
                            return Tri::Error(e);
                        },
                    };
                    match context.local.set(id.as_str(), init_val, heap) {
                        Ok(_) => (),
                        Err(e) => {
                            return Tri::Error(e);
                        },
                    };
                }
                Tri::Continue(Value::Undefined)
            },
            _ => Tri::Continue(Value::Undefined),
        },
        Statement::Throw(e) => {
            let error_val = match eval_expression(e, context, heap, host, depth) {
                Ok(v) => v,
                Err(e) => {
                    return Tri::Error(e);
                },
            };
            Tri::Error(error_val)
        },
        Statement::If(condition, consequent, alternate) => {
            let tested = eval_expression(condition, context.clone(), heap, host, depth);
            let parts = keep(heap, Ghost(Seq::empty()));
            let condition = match tested {
                Ok(v) => v,
                Err(e) => {
                    return Tri::Error(e);
                },
            };
            if condition.to_boolean() {
                let done = eval_inner_block(consequent, context, heap, host, depth);
                let parts = keep(heap, parts);
                done
            } else if let Some(alt) = alternate {
                let done = eval_inner_block(alt, context, heap, host, depth);
                let _ = keep(heap, parts);
                done
            } else {
                Tri::Continue(Value::Undefined)
            }
        },
        Statement::Empty => Tri::Continue(Value::Undefined),
    }
}

/// Binds the declarations of a block in the current scope.
fn hoist(program: &Vec<Statement>, context: &Context, heap: &mut Heap) -> (r: JSResult)
    ensures
        (result_view(r), final(heap)@) == model::hoist(
            ast::block_view(*program),
            context@,
            old(heap)@,
            0,
        ),
        final(heap).trace == old(heap).trace,
{
    let mut i: usize = 0;
    while i < program.len()
        invariant
            i <= program.len(),
            heap.trace == old(heap).trace,
            model::hoist(ast::block_view(*program), context@, heap@, i as int) == model::hoist(
                ast::block_view(*program),
                context@,
                old(heap)@,
                0,
            ),
        decreases program.len() - i,
    {
        if let Statement::Declaration(decl) = &program[i] {
            match decl {
                Declaration::Variable(id, _) => match context.local.set(
                    id.as_str(),
                    Value::Undefined,
                    heap,
                ) {
                    Ok(_) => (),
                    Err(e) => {
                        return Err(e);
                    },
                },
                Declaration::Function(id, f) => {
                    let function = match make_function(f, context, heap) {
                        Ok(v) => v,
                        Err(e) => {
                            return Err(e);
                        },
                    };
                    match context.local.set(id.as_str(), function, heap) {
                        Ok(_) => (),
                        Err(e) => {
                            return Err(e);
                        },
                    }
                },
            };
        }
        i += 1;
    }
    Ok(Value::Undefined)
}

/// Evaluates a block: hoists its declarations, then runs its statements in order.
pub fn eval_block<H: Host>(
    program: &ast::Block,
    context: Context,
    heap: &mut Heap,
    host: &H,
    depth: usize,
) -> (r: Tri)
    ensures
        completion_agrees(
            model::eval_block(
                ast::block_view(*program),
                context@,
                old(heap)@,
                depth as nat,
                final(heap).trace@,
            ),
            r,
            final(heap)@,
        ),
    decreases depth, 3nat, 0nat,
{
    let ghost block = ast::block_view(*program);
    let ghost first = heap@;
    match hoist(program, &context, heap) {
        Ok(_) => (),
        Err(e) => {
            return Tri::Error(e);
        },
    }
    let ghost mut parts: Seq<Trace> = Seq::empty();
    let mut last = Value::Undefined;
    let mut i: usize = 0;
    while i < program.len()
        invariant
            i <= program.len(),
            block == ast::block_view(*program),
            first == old(heap)@,
            forall|t: Trace| #[trigger]
                t.starts_with(parts) ==> model::eval_statements(
                    block,
                    context@,
                    heap@,
                    depth as nat,
                    i as int,
                    last@,
                    t,
                ) == model::eval_block(block, context@, first, depth as nat, t),
            parts.len() == i,
        decreases program.len() - i,
    {
        let ghost before = heap@;
        let ghost earlier = parts;
        let ghost previous = last@;
        let done = eval_statement(&program[i], context.clone(), heap, host, depth);
        proof {
            parts = parts.push(heap.trace@);
        }
        heap.trace = Ghost(Trace::Parts(parts));
        assert(heap.trace@.starts_with(earlier));
        match done {
            Tri::Continue(v) => {
                last = v;
            },
            Tri::Return(v) => {
                return Tri::Return(v);
            },
            Tri::Error(e) => {
                return Tri::Error(e);
            },
        }
        assert forall|t: Trace| #[trigger] t.starts_with(parts) implies model::eval_statements(
            block,
            context@,
            heap@,
            depth as nat,
            i + 1,
            last@,
            t,
        ) == model::eval_block(block, context@, first, depth as nat, t) by {
            assert(t.starts_with(earlier));
            assert(t.part(i as int) == parts[i as int]);
            assert(model::eval_statements(
                block,
                context@,
                before,
                depth as nat,
                i as int,
                previous,
                t,
            ) == model::eval_statements(block, context@, heap@, depth as nat, i + 1, last@, t));
        }
        i += 1;
    }
    heap.trace = Ghost(Trace::Parts(parts));
    assert(heap.trace@.starts_with(parts));
    Tri::Continue(last)
}

} // verus!
