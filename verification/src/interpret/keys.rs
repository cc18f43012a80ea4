//! Evaluation keeps the keys of every record apart, as long as the native functions of
//! the host do.

use vstd::prelude::*;
use crate::ast::{
    AccessView, AccessorView, DeclarationView, ExpressionView, InnerBlockView, StatementView,
};
use crate::interpret::model::{
    access_get, access_set, added, apply_function, apply_native, apply_value, argument, bound,
    eval_accessor, eval_binary, eval_block, eval_call, eval_entries, eval_expression,
    eval_expression_list, eval_inner_block, eval_receiver, eval_statement, eval_statements,
    eval_unary, hoist, joined, js_to_string, make_function, Records, Trace,
};
use crate::interpret::object::{
    distinct_keys, keys_apart, law_setting_keeps_keys_apart, law_writing_keeps_keys_apart,
    FunctionView, Native, ObjectView,
};
use crate::interpret::value::{ContextView, Object, ValueView};
use crate::parser::grammar::parse_text;

verus! {

/// The trace at the end of a path through the parts of a trace.
pub open spec fn at(trace: Trace, path: Seq<int>) -> Trace
    decreases path.len(),
{
    if path.len() == 0 {
        trace
    } else {
        at(trace.part(path[0]), path.drop_first())
    }
}

/// Every heap that a native function of the host left, anywhere in the trace, keeps the
/// keys of its records apart.
pub open spec fn tidy(trace: Trace) -> bool {
    forall|path: Seq<int>|
        match #[trigger] at(trace, path) {
            Trace::Host { after, .. } => keys_apart(after),
            _ => true,
        }
}

/// The parts of a tidy trace are tidy.
pub proof fn lemma_parts_are_tidy(trace: Trace)
    requires
        tidy(trace),
    ensures
        forall|k: int| tidy(#[trigger] trace.part(k)),
{
    assert forall|k: int| tidy(#[trigger] trace.part(k)) by {
        assert forall|path: Seq<int>|
            match #[trigger] at(trace.part(k), path) {
                Trace::Host { after, .. } => keys_apart(after),
                _ => true,
            } by {
            let longer = seq![k] + path;
            assert(longer.drop_first() =~= path);
            assert(at(trace, longer) == at(trace.part(k), path));
        }
    }
}

/// A heap with one more record keeps its keys apart where the record does.
pub proof fn lemma_push_keeps_keys_apart(heap: Records, record: ObjectView)
    requires
        keys_apart(heap),
        distinct_keys(record.values),
    ensures
        keys_apart(heap.push(record)),
{
    let after = heap.push(record);
    assert forall|i: int| 0 <= i < after.len() implies distinct_keys(
        (#[trigger] after[i]).values,
    ) by {
        if i < heap.len() {
            assert(after[i] == heap[i]);
        }
    }
}

/// The entries of an activation record hold no key twice.
pub proof fn lemma_bound_keys_differ(
    parameters: Seq<Seq<char>>,
    arguments: Seq<ValueView>,
    n: int,
)
    ensures
        distinct_keys(bound(parameters, arguments, n)),
    decreases n,
{
    if n > 0 {
        lemma_bound_keys_differ(parameters, arguments, n - 1);
        law_setting_keeps_keys_apart(
            bound(parameters, arguments, n - 1),
            parameters[n - 1],
            if n - 1 < arguments.len() {
                arguments[n - 1]
            } else {
                ValueView::Undefined
            },
        );
    }
}

/// Making a function keeps the keys apart.
pub proof fn lemma_make_function(
    function: crate::ast::FunctionView,
    context: ContextView,
    heap: Records,
)
    requires
        keys_apart(heap),
    ensures
        keys_apart(make_function(function, context, heap).1),
{
    let made = make_function(function, context, heap);
    if made.0 is Ok {
        lemma_push_keeps_keys_apart(
            heap,
            ObjectView {
                values: Seq::empty(),
                prototype: made.1.last().prototype,
                otype: Some(FunctionView::User(function, context.local)),
            },
        );
    }
}

/// Hoisting keeps the keys apart.
pub proof fn lemma_hoist(block: Seq<StatementView>, context: ContextView, heap: Records, from: int)
    requires
        keys_apart(heap),
    ensures
        keys_apart(hoist(block, context, heap, from).1),
    decreases block.len() - from,
{
    if 0 <= from < block.len() {
        match block[from] {
            StatementView::Declaration(DeclarationView::Variable(id, _)) => {
                law_writing_keeps_keys_apart(heap, context.local, id, ValueView::Undefined);
                let h = crate::interpret::object::set_spec(
                    heap,
                    context.local,
                    id,
                    ValueView::Undefined,
                ).1;
                lemma_hoist(block, context, h, from + 1);
            },
            StatementView::Declaration(DeclarationView::Function(id, function)) => {
                lemma_make_function(function, context, heap);
                let made = make_function(function, context, heap);
                law_writing_keeps_keys_apart(made.1, context.local, id, made.0->Ok_0);
                let h = crate::interpret::object::set_spec(
                    made.1,
                    context.local,
                    id,
                    made.0->Ok_0,
                ).1;
                lemma_hoist(block, context, h, from + 1);
            },
            _ => {
                lemma_hoist(block, context, heap, from + 1);
            },
        }
    }
}

proof fn lemma_apply_value(
    value: ValueView,
    arguments: Seq<ValueView>,
    context: ContextView,
    heap: Records,
    fuel: nat,
    trace: Trace,
)
    requires
        keys_apart(heap),
        tidy(trace),
    ensures
        keys_apart(apply_value(value, arguments, context, heap, fuel, trace).1),
    decreases fuel, 6nat, 0nat,
{
    if let Some(function) = crate::interpret::model::callable(value, heap) {
        lemma_apply_function(function, arguments, context, heap, fuel, trace);
    }
}

proof fn lemma_apply_function(
    function: FunctionView,
    arguments: Seq<ValueView>,
    context: ContextView,
    heap: Records,
    fuel: nat,
    trace: Trace,
)
    requires
        keys_apart(heap),
        tidy(trace),
    ensures
        keys_apart(apply_function(function, arguments, context, heap, fuel, trace).1),
    decreases fuel, 5nat, 0nat,
{
    match function {
        FunctionView::Native(_, native) => {
            lemma_apply_native(native, arguments, context, heap, fuel, trace);
        },
        FunctionView::User(function, closure) => {
            let scope = ObjectView {
                values: bound(function.parameters, arguments, function.parameters.len() as int),
                prototype: closure,
                otype: None,
            };
            lemma_bound_keys_differ(
                function.parameters,
                arguments,
                function.parameters.len() as int,
            );
            lemma_push_keeps_keys_apart(heap, scope);
            lemma_inner_block(
                function.body,
                ContextView {
                    this: context.this,
                    local: crate::interpret::model::fresh(heap),
                    global: context.global,
                },
                heap.push(scope),
                fuel,
                trace,
            );
        },
    }
}

proof fn lemma_apply_native(
    native: Native,
    arguments: Seq<ValueView>,
    context: ContextView,
    heap: Records,
    fuel: nat,
    trace: Trace,
)
    requires
        keys_apart(heap),
        tidy(trace),
    ensures
        keys_apart(apply_native(native, arguments, context, heap, fuel, trace).1),
    decreases fuel, 4nat, 0nat,
{
    lemma_parts_are_tidy(trace);
    match native {
        Native::ObjectCreate => {
            if let ValueView::Object(prototype) = argument(arguments, 0) {
                lemma_push_keeps_keys_apart(
                    heap,
                    ObjectView { values: Seq::empty(), prototype: prototype, otype: None },
                );
            }
        },
        Native::Eval => {
            if let ValueView::String(source) = argument(arguments, 0) {
                if let Trace::Read(numbers) = trace.part(0) {
                    if let Ok(block) = parse_text(source, numbers) {
                        lemma_block(block, context, heap, fuel, trace.part(1));
                    }
                }
            }
        },
        Native::Host(_) => {
            assert(at(trace, Seq::empty()) == trace);
        },
        _ => {},
    }
}

proof fn lemma_to_string(value: ValueView, global: Object, heap: Records, fuel: nat, trace: Trace)
    requires
        keys_apart(heap),
        tidy(trace),
    ensures
        keys_apart(js_to_string(value, global, heap, fuel, trace).1),
    decreases fuel, 7nat, 0nat,
{
    lemma_parts_are_tidy(trace);
    if let Ok(to_string) = crate::interpret::model::get_of(value, "toString"@, global, heap) {
        lemma_apply_value(
            to_string,
            Seq::empty(),
            ContextView { this: value, local: global, global: global },
            heap,
            fuel,
            trace.part(0),
        );
    }
}

proof fn lemma_joined(
    left: ValueView,
    right: ValueView,
    global: Object,
    heap: Records,
    fuel: nat,
    trace: Trace,
)
    requires
        keys_apart(heap),
        tidy(trace),
    ensures
        keys_apart(joined(left, right, global, heap, fuel, trace).1),
    decreases fuel, 8nat, 0nat,
{
    lemma_parts_are_tidy(trace);
    lemma_to_string(left, global, heap, fuel, trace.part(0));
    let h = js_to_string(left, global, heap, fuel, trace.part(0)).1;
    lemma_to_string(right, global, h, fuel, trace.part(1));
}

proof fn lemma_added(
    left: ValueView,
    right: ValueView,
    global: Object,
    heap: Records,
    fuel: nat,
    trace: Trace,
)
    requires
        keys_apart(heap),
        tidy(trace),
    ensures
        keys_apart(added(left, right, global, heap, fuel, trace).1),
    decreases fuel, 9nat, 0nat,
{
    lemma_to_string(left, global, heap, fuel, trace);
    lemma_to_string(right, global, heap, fuel, trace);
    lemma_joined(left, right, global, heap, fuel, trace);
}

proof fn lemma_expression(
    expression: ExpressionView,
    context: ContextView,
    heap: Records,
    fuel: nat,
    trace: Trace,
)
    requires
        keys_apart(heap),
        tidy(trace),
    ensures
        keys_apart(eval_expression(expression, context, heap, fuel, trace).1),
    decreases fuel, 0nat, 0nat,
{
    lemma_parts_are_tidy(trace);
    if fuel > 0 {
        let less = (fuel - 1) as nat;
        match expression {
            ExpressionView::Assignment(lhs, rhs) => {
                lemma_expression(*rhs, context, heap, less, trace.part(0));
                let first = eval_expression(*rhs, context, heap, less, trace.part(0));
                lemma_access_set(lhs, context, first.0->Ok_0, first.1, less, trace.part(1));
            },
            ExpressionView::Call(_, _) => {
                lemma_call(expression, context, heap, less, trace);
            },
            ExpressionView::Access(access) => {
                lemma_access_get(access, context, heap, less, trace);
            },
            ExpressionView::Literal(_) => {},
            ExpressionView::Function(function) => {
                lemma_make_function(function, context, heap);
            },
            ExpressionView::Unary(_, _) => {
                lemma_unary(expression, context, heap, less, trace);
            },
            ExpressionView::Binary(_, _, _) => {
                lemma_binary(expression, context, heap, less, trace);
            },
            ExpressionView::Ternary(condition, consequent, alternate) => {
                lemma_expression(*condition, context, heap, less, trace.part(0));
                let first = eval_expression(*condition, context, heap, less, trace.part(0));
                lemma_expression(*consequent, context, first.1, less, trace.part(1));
                lemma_expression(*alternate, context, first.1, less, trace.part(1));
            },
            ExpressionView::Object(entries) => {
                lemma_entries(entries, context, heap, less, 0, Seq::empty(), trace);
                let made = eval_entries(entries, context, heap, less, 0, Seq::empty(), trace);
                if let Ok(values) = made.0 {
                    lemma_push_keeps_keys_apart(
                        made.1,
                        ObjectView { values: values, prototype: Object::Null, otype: None },
                    );
                }
            },
            ExpressionView::This => {},
        }
    }
}

proof fn lemma_unary(
    expression: ExpressionView,
    context: ContextView,
    heap: Records,
    fuel: nat,
    trace: Trace,
)
    requires
        keys_apart(heap),
        tidy(trace),
    ensures
        keys_apart(eval_unary(expression, context, heap, fuel, trace).1),
    decreases fuel, 11nat, 0nat,
{
    lemma_parts_are_tidy(trace);
    if let ExpressionView::Unary(_, operand) = expression {
        lemma_expression(*operand, context, heap, fuel, trace.part(0));
    }
}

proof fn lemma_entries(
    entries: Seq<(Seq<char>, ExpressionView)>,
    context: ContextView,
    heap: Records,
    fuel: nat,
    from: int,
    so_far: Seq<(Seq<char>, ValueView)>,
    trace: Trace,
)
    requires
        keys_apart(heap),
        tidy(trace),
        distinct_keys(so_far),
    ensures
        keys_apart(eval_entries(entries, context, heap, fuel, from, so_far, trace).1),
        eval_entries(entries, context, heap, fuel, from, so_far, trace).0 matches Ok(values)
            ==> distinct_keys(values),
    decreases fuel, 10nat, entries.len() - from,
{
    lemma_parts_are_tidy(trace);
    if 0 <= from < entries.len() {
        lemma_expression(entries[from].1, context, heap, fuel, trace.part(from));
        let first = eval_expression(entries[from].1, context, heap, fuel, trace.part(from));
        if let Ok(value) = first.0 {
            law_setting_keeps_keys_apart(so_far, entries[from].0, value);
            lemma_entries(
                entries,
                context,
                first.1,
                fuel,
                from + 1,
                crate::interpret::object::stored(so_far, entries[from].0, value),
                trace,
            );
        }
    }
}

proof fn lemma_list(
    expressions: Seq<ExpressionView>,
    context: ContextView,
    heap: Records,
    fuel: nat,
    from: int,
    so_far: Seq<ValueView>,
    trace: Trace,
)
    requires
        keys_apart(heap),
        tidy(trace),
    ensures
        keys_apart(eval_expression_list(expressions, context, heap, fuel, from, so_far, trace).1),
    decreases fuel, 10nat, expressions.len() - from,
{
    lemma_parts_are_tidy(trace);
    if 0 <= from < expressions.len() {
        lemma_expression(expressions[from], context, heap, fuel, trace.part(from));
        let first = eval_expression(expressions[from], context, heap, fuel, trace.part(from));
        if let Ok(value) = first.0 {
            lemma_list(expressions, context, first.1, fuel, from + 1, so_far.push(value), trace);
        }
    }
}

proof fn lemma_receiver(
    callee: ExpressionView,
    context: ContextView,
    heap: Records,
    fuel: nat,
    trace: Trace,
)
    requires
        keys_apart(heap),
        tidy(trace),
    ensures
        keys_apart(eval_receiver(callee, context, heap, fuel, trace).1),
    decreases fuel, 10nat, 0nat,
{
    if let ExpressionView::Access(AccessView::Member(target, _)) = callee {
        lemma_expression(*target, context, heap, fuel, trace);
    }
}

proof fn lemma_call(
    expression: ExpressionView,
    context: ContextView,
    heap: Records,
    fuel: nat,
    trace: Trace,
)
    requires
        keys_apart(heap),
        tidy(trace),
    ensures
        keys_apart(eval_call(expression, context, heap, fuel, trace).1),
    decreases fuel, 11nat, 0nat,
{
    lemma_parts_are_tidy(trace);
    if let ExpressionView::Call(callee, arguments) = expression {
        lemma_expression(*callee, context, heap, fuel, trace.part(0));
        let first = eval_expression(*callee, context, heap, fuel, trace.part(0));
        lemma_list(arguments, context, first.1, fuel, 0, Seq::empty(), trace.part(1));
        let second = eval_expression_list(
            arguments,
            context,
            first.1,
            fuel,
            0,
            Seq::empty(),
            trace.part(1),
        );
        lemma_receiver(*callee, context, second.1, fuel, trace.part(2));
        let third = eval_receiver(*callee, context, second.1, fuel, trace.part(2));
        lemma_apply_value(
            first.0->Ok_0,
            second.0->Ok_0,
            ContextView { this: third.0->Ok_0, local: context.local, global: context.global },
            third.1,
            fuel,
            trace.part(3),
        );
    }
}

proof fn lemma_accessor(
    accessor: AccessorView,
    context: ContextView,
    heap: Records,
    fuel: nat,
    trace: Trace,
)
    requires
        keys_apart(heap),
        tidy(trace),
    ensures
        keys_apart(eval_accessor(accessor, context, heap, fuel, trace).1),
    decreases fuel, 10nat, 0nat,
{
    lemma_parts_are_tidy(trace);
    if let AccessorView::Expression(e) = accessor {
        lemma_expression(*e, context, heap, fuel, trace.part(0));
        let first = eval_expression(*e, context, heap, fuel, trace.part(0));
        lemma_to_string(first.0->Ok_0, context.global, first.1, fuel, trace.part(1));
    }
}

proof fn lemma_access_get(
    access: AccessView,
    context: ContextView,
    heap: Records,
    fuel: nat,
    trace: Trace,
)
    requires
        keys_apart(heap),
        tidy(trace),
    ensures
        keys_apart(access_get(access, context, heap, fuel, trace).1),
    decreases fuel, 11nat, 0nat,
{
    lemma_parts_are_tidy(trace);
    if let AccessView::Member(target, accessor) = access {
        lemma_expression(*target, context, heap, fuel, trace.part(0));
        let first = eval_expression(*target, context, heap, fuel, trace.part(0));
        lemma_accessor(accessor, context, first.1, fuel, trace.part(1));
    }
}

proof fn lemma_access_set(
    access: AccessView,
    context: ContextView,
    value: ValueView,
    heap: Records,
    fuel: nat,
    trace: Trace,
)
    requires
        keys_apart(heap),
        tidy(trace),
    ensures
        keys_apart(access_set(access, context, value, heap, fuel, trace).1),
    decreases fuel, 11nat, 0nat,
{
    lemma_parts_are_tidy(trace);
    match access {
        AccessView::Member(target, accessor) => {
            lemma_accessor(accessor, context, heap, fuel, trace.part(0));
            let first = eval_accessor(accessor, context, heap, fuel, trace.part(0));
            lemma_expression(*target, context, first.1, fuel, trace.part(1));
            let second = eval_expression(*target, context, first.1, fuel, trace.part(1));
            if let Ok(ValueView::Object(object)) = second.0 {
                law_writing_keeps_keys_apart(second.1, object, first.0->Ok_0, value);
            }
        },
        AccessView::Identifier(id) => {
            law_writing_keeps_keys_apart(heap, context.local, id, value);
        },
    }
}

proof fn lemma_binary(
    expression: ExpressionView,
    context: ContextView,
    heap: Records,
    fuel: nat,
    trace: Trace,
)
    requires
        keys_apart(heap),
        tidy(trace),
    ensures
        keys_apart(eval_binary(expression, context, heap, fuel, trace).1),
    decreases fuel, 11nat, 0nat,
{
    lemma_parts_are_tidy(trace);
    if let ExpressionView::Binary(_, left, right) = expression {
        lemma_expression(*left, context, heap, fuel, trace.part(0));
        let first = eval_expression(*left, context, heap, fuel, trace.part(0));
        lemma_expression(*right, context, first.1, fuel, trace.part(1));
        let second = eval_expression(*right, context, first.1, fuel, trace.part(1));
        lemma_added(
            first.0->Ok_0,
            second.0->Ok_0,
            context.global,
            second.1,
            fuel,
            trace.part(2),
        );
    }
}

proof fn lemma_statement(
    statement: StatementView,
    context: ContextView,
    heap: Records,
    fuel: nat,
    trace: Trace,
)
    requires
        keys_apart(heap),
        tidy(trace),
    ensures
        keys_apart(eval_statement(statement, context, heap, fuel, trace).1),
    decreases fuel, 1nat, 0nat,
{
    lemma_parts_are_tidy(trace);
    match statement {
        StatementView::Expression(e) => {
            lemma_expression(e, context, heap, fuel, trace);
        },
        StatementView::Declaration(DeclarationView::Variable(id, Some(init))) => {
            lemma_expression(init, context, heap, fuel, trace);
            let first = eval_expression(init, context, heap, fuel, trace);
            law_writing_keeps_keys_apart(first.1, context.local, id, first.0->Ok_0);
        },
        StatementView::Declaration(_) => {},
        StatementView::Throw(e) => {
            lemma_expression(e, context, heap, fuel, trace);
        },
        StatementView::If(condition, consequent, alternate) => {
            lemma_expression(condition, context, heap, fuel, trace.part(0));
            let first = eval_expression(condition, context, heap, fuel, trace.part(0));
            lemma_inner_block(consequent, context, first.1, fuel, trace.part(1));
            if let Some(block) = alternate {
                lemma_inner_block(block, context, first.1, fuel, trace.part(1));
            }
        },
        StatementView::Empty => {},
    }
}

proof fn lemma_statements(
    block: Seq<StatementView>,
    context: ContextView,
    heap: Records,
    fuel: nat,
    from: int,
    last: ValueView,
    trace: Trace,
)
    requires
        keys_apart(heap),
        tidy(trace),
    ensures
        keys_apart(eval_statements(block, context, heap, fuel, from, last, trace).1),
    decreases fuel, 2nat, block.len() - from,
{
    lemma_parts_are_tidy(trace);
    if 0 <= from < block.len() {
        lemma_statement(block[from], context, heap, fuel, trace.part(from));
        let first = eval_statement(block[from], context, heap, fuel, trace.part(from));
        if let crate::interpret::model::Completion::Continue(value) = first.0 {
            lemma_statements(block, context, first.1, fuel, from + 1, value, trace);
        }
    }
}

proof fn lemma_block(
    block: Seq<StatementView>,
    context: ContextView,
    heap: Records,
    fuel: nat,
    trace: Trace,
)
    requires
        keys_apart(heap),
        tidy(trace),
    ensures
        keys_apart(eval_block(block, context, heap, fuel, trace).1),
    decreases fuel, 3nat, 0nat,
{
    lemma_hoist(block, context, heap, 0);
    let hoisted = hoist(block, context, heap, 0);
    lemma_statements(block, context, hoisted.1, fuel, 0, ValueView::Undefined, trace);
}

proof fn lemma_inner_block(
    block: InnerBlockView,
    context: ContextView,
    heap: Records,
    fuel: nat,
    trace: Trace,
)
    requires
        keys_apart(heap),
        tidy(trace),
    ensures
        keys_apart(eval_inner_block(block, context, heap, fuel, trace).1),
    decreases fuel, 0nat, 0nat,
{
    lemma_parts_are_tidy(trace);
    if fuel > 0 {
        let less = (fuel - 1) as nat;
        lemma_block(block.block, context, heap, less, trace.part(0));
        let first = eval_block(block.block, context, heap, less, trace.part(0));
        if let Some(e) = block.return_exp {
            lemma_expression(*e, context, first.1, less, trace.part(1));
        }
    }
}

/// Evaluating a block keeps the keys of every record apart, where every heap that a
/// native function of the host left does; and so does evaluating an expression, and
/// calling a value.
pub proof fn law_evaluation_keeps_keys_apart(
    block: Seq<StatementView>,
    expression: ExpressionView,
    callee: (ValueView, Seq<ValueView>),
    context: ContextView,
    heap: Records,
    fuel: nat,
    trace: Trace,
)
    requires
        keys_apart(heap),
        tidy(trace),
    ensures
        keys_apart(eval_block(block, context, heap, fuel, trace).1),
        keys_apart(eval_expression(expression, context, heap, fuel, trace).1),
        keys_apart(apply_value(callee.0, callee.1, context, heap, fuel, trace).1),
{
    lemma_block(block, context, heap, fuel, trace);
    lemma_expression(expression, context, heap, fuel, trace);
    lemma_apply_value(callee.0, callee.1, context, heap, fuel, trace);
}

} // verus!
