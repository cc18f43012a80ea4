//! Laws of evaluation, proved of the model.

use vstd::prelude::*;
use crate::ast::{AccessView, BinaryOp, ExpressionView, StatementView};
use crate::interpret::model::{
    access_get, apply_function, apply_value, bound, callable, eval_block, eval_call,
    eval_expression, eval_expression_list, eval_inner_block, eval_receiver, eval_statement,
    eval_statements, fresh, hoist, returned, Completion, Outcome, Raised, Records, Trace,
};
use crate::interpret::object::{
    lemma_position_missing, lookup, own, record, walk, FunctionView, ObjectView, Walk,
};
use crate::interpret::value::{ContextView, Object, ValueView};
use crate::runtime::eval_source;

verus! {

/// `&&` does not evaluate its right side where the left side counts as false: whatever
/// the right side is, the result is `false`, and the heap is as the left side left it.
pub proof fn law_and_short_circuits(
    left: ExpressionView,
    right: ExpressionView,
    context: ContextView,
    heap: Records,
    fuel: nat,
    trace: Trace,
)
    requires
        fuel > 0,
        eval_expression(left, context, heap, (fuel - 1) as nat, trace.part(0)).0 matches Ok(
            value,
        ) && !value.to_boolean(),
    ensures
        eval_expression(
            ExpressionView::Binary(BinaryOp::LogicalAnd, Box::new(left), Box::new(right)),
            context,
            heap,
            fuel,
            trace,
        ) == (
            Ok::<ValueView, Raised>(ValueView::Boolean(false)),
            eval_expression(left, context, heap, (fuel - 1) as nat, trace.part(0)).1,
        ),
{
    let whole = ExpressionView::Binary(BinaryOp::LogicalAnd, Box::new(left), Box::new(right));
    assert(eval_expression(whole, context, heap, fuel, trace)
        == crate::interpret::model::eval_binary(whole, context, heap, (fuel - 1) as nat, trace));
}

/// `||` does not evaluate its right side where the left side counts as true: whatever the
/// right side is, the result is the value of the left side, and the heap is as the left
/// side left it.
pub proof fn law_or_short_circuits(
    left: ExpressionView,
    right: ExpressionView,
    context: ContextView,
    heap: Records,
    fuel: nat,
    trace: Trace,
)
    requires
        fuel > 0,
        eval_expression(left, context, heap, (fuel - 1) as nat, trace.part(0)).0 matches Ok(
            value,
        ) && value.to_boolean(),
    ensures
        eval_expression(
            ExpressionView::Binary(BinaryOp::LogicalOr, Box::new(left), Box::new(right)),
            context,
            heap,
            fuel,
            trace,
        ) == eval_expression(left, context, heap, (fuel - 1) as nat, trace.part(0)),
{
    let whole = ExpressionView::Binary(BinaryOp::LogicalOr, Box::new(left), Box::new(right));
    assert(eval_expression(whole, context, heap, fuel, trace)
        == crate::interpret::model::eval_binary(whole, context, heap, (fuel - 1) as nat, trace));
}

/// A `throw` statement throws the value of its expression, the value itself.
pub proof fn law_throw_throws_the_value(
    thrown: ExpressionView,
    context: ContextView,
    heap: Records,
    fuel: nat,
    trace: Trace,
)
    requires
        eval_expression(thrown, context, heap, fuel, trace).0 is Ok,
    ensures
        eval_statement(StatementView::Throw(thrown), context, heap, fuel, trace) == (
            Completion::Throw(
                Raised::Thrown(eval_expression(thrown, context, heap, fuel, trace).0->Ok_0),
            ),
            eval_expression(thrown, context, heap, fuel, trace).1,
        ),
{
}

/// A statement that throws ends its block: the block throws the same value, and no later
/// statement runs.
pub proof fn law_throw_ends_the_block(
    block: Seq<StatementView>,
    context: ContextView,
    heap: Records,
    fuel: nat,
    from: int,
    last: ValueView,
    trace: Trace,
)
    requires
        0 <= from < block.len(),
        eval_statement(block[from], context, heap, fuel, trace.part(from)).0 is Throw,
    ensures
        eval_statements(block, context, heap, fuel, from, last, trace) == eval_statement(
            block[from],
            context,
            heap,
            fuel,
            trace.part(from),
        ),
{
}

/// The body of a function of the script runs in a fresh record that binds the parameters
/// and whose prototype is the scope of the function.
pub open spec fn body_completion(
    function: crate::ast::FunctionView,
    closure: Object,
    arguments: Seq<ValueView>,
    context: ContextView,
    heap: Records,
    fuel: nat,
    trace: Trace,
) -> (Completion, Records) {
    eval_inner_block(
        function.body,
        ContextView { this: context.this, local: fresh(heap), global: context.global },
        heap.push(
            ObjectView {
                values: bound(function.parameters, arguments, function.parameters.len() as int),
                prototype: closure,
                otype: None,
            },
        ),
        fuel,
        trace,
    )
}

/// A value thrown in the body of a function leaves the function as the failure of the
/// call, the value itself.
pub proof fn law_throw_leaves_the_function(
    function: crate::ast::FunctionView,
    closure: Object,
    arguments: Seq<ValueView>,
    context: ContextView,
    heap: Records,
    fuel: nat,
    trace: Trace,
)
    requires
        body_completion(function, closure, arguments, context, heap, fuel, trace).0 is Throw,
    ensures
        apply_function(
            FunctionView::User(function, closure),
            arguments,
            context,
            heap,
            fuel,
            trace,
        ) == (
            Err::<ValueView, Raised>(
                body_completion(
                    function,
                    closure,
                    arguments,
                    context,
                    heap,
                    fuel,
                    trace,
                ).0->Throw_0,
            ),
            body_completion(function, closure, arguments, context, heap, fuel, trace).1,
        ),
{
}

/// What a call expression gives once its callee, its arguments and its receiver are
/// evaluated, with `fuel` for these and for the call.
pub open spec fn called(
    callee: ExpressionView,
    arguments: Seq<ExpressionView>,
    context: ContextView,
    heap: Records,
    fuel: nat,
    trace: Trace,
) -> (Outcome, Records) {
    let function = eval_expression(callee, context, heap, fuel, trace.part(0));
    let values = eval_expression_list(
        arguments,
        context,
        function.1,
        fuel,
        0,
        Seq::empty(),
        trace.part(1),
    );
    let receiver = eval_receiver(callee, context, values.1, fuel, trace.part(2));
    apply_value(
        function.0->Ok_0,
        values.0->Ok_0,
        ContextView { this: receiver.0->Ok_0, local: context.local, global: context.global },
        receiver.1,
        fuel,
        trace.part(3),
    )
}

/// The callee, the arguments and the receiver of a call all evaluate to values.
pub open spec fn call_is_ready(
    callee: ExpressionView,
    arguments: Seq<ExpressionView>,
    context: ContextView,
    heap: Records,
    fuel: nat,
    trace: Trace,
) -> bool {
    let function = eval_expression(callee, context, heap, fuel, trace.part(0));
    let values = eval_expression_list(
        arguments,
        context,
        function.1,
        fuel,
        0,
        Seq::empty(),
        trace.part(1),
    );
    let receiver = eval_receiver(callee, context, values.1, fuel, trace.part(2));
    function.0 is Ok && values.0 is Ok && receiver.0 is Ok
}

/// The failure of a call is the failure of the call expression, and of the expression
/// statement that holds it.
pub proof fn law_throw_reaches_the_caller(
    callee: ExpressionView,
    arguments: Seq<ExpressionView>,
    context: ContextView,
    heap: Records,
    fuel: nat,
    trace: Trace,
)
    requires
        fuel > 0,
        call_is_ready(callee, arguments, context, heap, (fuel - 1) as nat, trace),
    ensures
        ({
            let result = called(callee, arguments, context, heap, (fuel - 1) as nat, trace);
            let call = ExpressionView::Call(Box::new(callee), arguments);
            &&& eval_expression(call, context, heap, fuel, trace) == result
            &&& result.0 matches Err(e) ==> eval_statement(
                StatementView::Expression(call),
                context,
                heap,
                fuel,
                trace,
            ) == (Completion::Throw(e), result.1)
        }),
{
    let call = ExpressionView::Call(Box::new(callee), arguments);
    assert(eval_expression(call, context, heap, fuel, trace) == eval_call(
        call,
        context,
        heap,
        (fuel - 1) as nat,
        trace,
    ));
}

/// What a block throws, the evaluation of the source that spells the block fails with.
pub proof fn law_throw_reaches_the_engine(
    source: Seq<char>,
    numbers: Seq<u64>,
    context: ContextView,
    heap: Records,
    fuel: nat,
    trace: Trace,
)
    requires
        trace.part(0) == Trace::Read(numbers),
        crate::parser::grammar::parse_text(source, numbers) is Ok,
        eval_block(
            crate::parser::grammar::parse_text(source, numbers)->Ok_0,
            context,
            heap,
            fuel,
            trace.part(1),
        ).0 is Throw,
    ensures
        eval_source(source, context, heap, fuel, trace).0 == Err::<ValueView, Raised>(
            eval_block(
                crate::parser::grammar::parse_text(source, numbers)->Ok_0,
                context,
                heap,
                fuel,
                trace.part(1),
            ).0->Throw_0,
        ),
{
}

/// The scope `scope` sees the variable `id` of the record at `outer` with the value
/// `value`: the scope is that record, or a record without the variable whose prototype
/// that record is.
pub open spec fn sees(
    heap: Records,
    scope: Object,
    outer: usize,
    id: Seq<char>,
    value: ValueView,
) -> bool {
    &&& outer < heap.len()
    &&& own(heap[outer as int].values, id) == Some(value)
    &&& scope == Object::Object(outer) || (match record(heap, scope) {
        Some(inner) => own(inner.values, id).is_none() && inner.prototype == Object::Object(
            outer,
        ),
        None => false,
    })
}

/// A variable that the scope sees is read with the value that the outer record has.
pub proof fn lemma_variable_is_read(
    heap: Records,
    context: ContextView,
    outer: usize,
    id: Seq<char>,
    value: ValueView,
    fuel: nat,
    trace: Trace,
)
    requires
        sees(heap, context.local, outer, id, value),
        fuel >= 1,
    ensures
        eval_expression(
            ExpressionView::Access(AccessView::Identifier(id)),
            context,
            heap,
            fuel,
            trace,
        ) == (Ok::<ValueView, Raised>(value), heap),
{
    let found = Walk::Found(outer as int, value);
    assert(record(heap, Object::Object(outer)) == Some(heap[outer as int]));
    assert forall|steps: nat| walk(heap, Object::Object(outer), id, steps) == found by {}
    if context.local != Object::Object(outer) {
        assert(heap.len() >= 1);
        assert(walk(heap, context.local, id, heap.len()) == walk(
            heap,
            Object::Object(outer),
            id,
            (heap.len() - 1) as nat,
        ));
    }
    assert(lookup(heap, context.local, id) == found);
    assert(eval_expression(
        ExpressionView::Access(AccessView::Identifier(id)),
        context,
        heap,
        fuel,
        trace,
    ) == access_get(AccessView::Identifier(id), context, heap, (fuel - 1) as nat, trace));
}

/// A function of the script without parameters, whose body is the one statement
/// `statement` and has no final expression.
pub open spec fn is_procedure(function: crate::ast::FunctionView, statement: StatementView) -> bool {
    &&& function.parameters.len() == 0
    &&& function.body.return_exp.is_none()
    &&& function.body.block == seq![statement]
    &&& !(statement is Declaration)
}

/// The scope in which the body of a function without parameters runs, where it is called
/// on `heap`: a fresh record without entries whose prototype is the scope of the function.
pub open spec fn entered(heap: Records, closure: Object) -> Records {
    heap.push(ObjectView { values: Seq::empty(), prototype: closure, otype: None })
}

/// A call, without arguments, of a variable that holds a function without parameters whose
/// body is one statement: the call gives what the statement gives in the scope of the
/// body, and undefined where the statement completes normally.
pub proof fn lemma_procedure_is_called(
    heap: Records,
    context: ContextView,
    outer: usize,
    id: Seq<char>,
    at: usize,
    function: crate::ast::FunctionView,
    closure: Object,
    statement: StatementView,
    fuel: nat,
    trace: Trace,
)
    requires
        sees(heap, context.local, outer, id, ValueView::Object(Object::Object(at))),
        at < heap.len(),
        heap[at as int].otype == Some(FunctionView::User(function, closure)),
        is_procedure(function, statement),
        fuel >= 2,
    ensures
        ({
            let inside = ContextView {
                this: ValueView::Object(context.global),
                local: fresh(heap),
                global: context.global,
            };
            let done = eval_statement(
                statement,
                inside,
                entered(heap, closure),
                (fuel - 2) as nat,
                trace.part(3).part(0).part(0),
            );
            eval_expression(
                ExpressionView::Call(
                    Box::new(ExpressionView::Access(AccessView::Identifier(id))),
                    Seq::empty(),
                ),
                context,
                heap,
                fuel,
                trace,
            ) == match done.0 {
                Completion::Continue(_) => (Ok::<ValueView, Raised>(ValueView::Undefined), done.1),
                Completion::Return(value) => (Ok::<ValueView, Raised>(value), done.1),
                Completion::Throw(e) => (Err::<ValueView, Raised>(e), done.1),
            }
        }),
{
    let callee = ExpressionView::Access(AccessView::Identifier(id));
    let call = ExpressionView::Call(Box::new(callee), Seq::empty());
    let less = (fuel - 1) as nat;
    let value = ValueView::Object(Object::Object(at));
    lemma_variable_is_read(heap, context, outer, id, value, less, trace.part(0));
    assert(eval_expression_list(
        Seq::empty(),
        context,
        heap,
        less,
        0,
        Seq::empty(),
        trace.part(1),
    ) == (Ok::<Seq<ValueView>, Raised>(Seq::empty()), heap));
    assert(eval_receiver(callee, context, heap, less, trace.part(2)) == (
        Ok::<ValueView, Raised>(ValueView::Object(context.global)),
        heap,
    ));
    assert(call_is_ready(callee, Seq::empty(), context, heap, less, trace));
    law_throw_reaches_the_caller(callee, Seq::empty(), context, heap, fuel, trace);
    let inside = ContextView {
        this: ValueView::Object(context.global),
        local: fresh(heap),
        global: context.global,
    };
    let calling = ContextView {
        this: ValueView::Object(context.global),
        local: context.local,
        global: context.global,
    };
    assert(callable(value, heap) == Some(FunctionView::User(function, closure)));
    assert(bound(function.parameters, Seq::empty(), 0) == Seq::<(Seq<char>, ValueView)>::empty());
    let scope = entered(heap, closure);
    assert(apply_value(value, Seq::empty(), calling, heap, less, trace.part(3)) == returned(
        eval_inner_block(function.body, inside, scope, less, trace.part(3)),
    )) by {
        assert(apply_value(value, Seq::empty(), calling, heap, less, trace.part(3))
            == apply_function(
            FunctionView::User(function, closure),
            Seq::empty(),
            calling,
            heap,
            less,
            trace.part(3),
        ));
    }
    let block = function.body.block;
    let deeper = (less - 1) as nat;
    let part = trace.part(3).part(0);
    assert(hoist(block, inside, scope, 1) == (Ok::<ValueView, ValueView>(ValueView::Undefined), scope));
    assert(hoist(block, inside, scope, 0) == (Ok::<ValueView, ValueView>(ValueView::Undefined), scope));
    let done = eval_statement(statement, inside, scope, deeper, part.part(0));
    assert(eval_statements(block, inside, scope, deeper, 0, ValueView::Undefined, part) == match done.0 {
        Completion::Continue(v) => (Completion::Continue(v), done.1),
        _ => done,
    }) by {
        assert(block[0] == statement);
        if let Completion::Continue(v) = done.0 {
            assert(eval_statements(block, inside, done.1, deeper, 1, v, part) == (
                Completion::Continue(v),
                done.1,
            ));
        }
    }
    assert(eval_block(block, inside, scope, deeper, part) == eval_statements(
        block,
        inside,
        scope,
        deeper,
        0,
        ValueView::Undefined,
        part,
    ));
    assert(eval_inner_block(function.body, inside, scope, less, trace.part(3)) == match done.0 {
        Completion::Continue(_) => (Completion::Continue(ValueView::Undefined), done.1),
        _ => done,
    });
}

/// The call of a function whose body throws a variable of its scope fails with the value
/// of the variable, and adds the record of the call to the heap.
proof fn lemma_thrower_fails(
    heap: Records,
    context: ContextView,
    outer: usize,
    o: Seq<char>,
    a: Seq<char>,
    value: ValueView,
    thrower: (usize, crate::ast::FunctionView),
    fuel: nat,
    trace: Trace,
)
    requires
        heap.len() + 1 <= usize::MAX,
        sees(heap, context.local, outer, a, ValueView::Object(Object::Object(thrower.0))),
        own(heap[outer as int].values, o) == Some(value),
        thrower.0 < heap.len(),
        heap[thrower.0 as int].otype == Some(
            FunctionView::User(thrower.1, Object::Object(outer)),
        ),
        is_procedure(
            thrower.1,
            StatementView::Throw(ExpressionView::Access(AccessView::Identifier(o))),
        ),
        fuel >= 3,
    ensures
        eval_expression(
            ExpressionView::Call(
                Box::new(ExpressionView::Access(AccessView::Identifier(a))),
                Seq::empty(),
            ),
            context,
            heap,
            fuel,
            trace,
        ) == (Err::<ValueView, Raised>(Raised::Thrown(value)), entered(heap, Object::Object(outer))),
{
    let read = ExpressionView::Access(AccessView::Identifier(o));
    let inside = ContextView {
        this: ValueView::Object(context.global),
        local: fresh(heap),
        global: context.global,
    };
    let scope = entered(heap, Object::Object(outer));
    let part = trace.part(3).part(0).part(0);
    lemma_position_missing(Seq::empty(), o);
    assert(scope[outer as int] == heap[outer as int]);
    assert(record(scope, fresh(heap)) == Some(scope[heap.len() as int]));
    assert(sees(scope, inside.local, outer, o, value));
    lemma_variable_is_read(scope, inside, outer, o, value, (fuel - 2) as nat, part);
    assert(eval_statement(StatementView::Throw(read), inside, scope, (fuel - 2) as nat, part) == (
        Completion::Throw(Raised::Thrown(value)),
        scope,
    ));
    lemma_procedure_is_called(
        heap,
        context,
        outer,
        a,
        thrower.0,
        thrower.1,
        Object::Object(outer),
        StatementView::Throw(read),
        fuel,
        trace,
    );
}

/// The call of a function whose body calls a function that throws a variable of their
/// scope fails with the value of the variable, and adds the records of the two calls to
/// the heap.
proof fn lemma_caller_fails(
    heap: Records,
    context: ContextView,
    outer: usize,
    names: (Seq<char>, Seq<char>, Seq<char>),
    value: ValueView,
    thrower: (usize, crate::ast::FunctionView),
    caller: (usize, crate::ast::FunctionView),
    fuel: nat,
    trace: Trace,
)
    requires
        heap.len() + 2 <= usize::MAX,
        context.local == Object::Object(outer),
        outer < heap.len(),
        own(heap[outer as int].values, names.0) == Some(value),
        own(heap[outer as int].values, names.1) == Some(
            ValueView::Object(Object::Object(thrower.0)),
        ),
        own(heap[outer as int].values, names.2) == Some(
            ValueView::Object(Object::Object(caller.0)),
        ),
        thrower.0 < heap.len(),
        caller.0 < heap.len(),
        heap[thrower.0 as int].otype == Some(
            FunctionView::User(thrower.1, Object::Object(outer)),
        ),
        heap[caller.0 as int].otype == Some(FunctionView::User(caller.1, Object::Object(outer))),
        is_procedure(
            thrower.1,
            StatementView::Throw(ExpressionView::Access(AccessView::Identifier(names.0))),
        ),
        is_procedure(
            caller.1,
            StatementView::Expression(
                ExpressionView::Call(
                    Box::new(ExpressionView::Access(AccessView::Identifier(names.1))),
                    Seq::empty(),
                ),
            ),
        ),
        fuel >= 5,
    ensures
        eval_expression(
            ExpressionView::Call(
                Box::new(ExpressionView::Access(AccessView::Identifier(names.2))),
                Seq::empty(),
            ),
            context,
            heap,
            fuel,
            trace,
        ) == (
            Err::<ValueView, Raised>(Raised::Thrown(value)),
            entered(entered(heap, Object::Object(outer)), Object::Object(outer)),
        ),
{
    let global = Object::Object(outer);
    let inner_call = ExpressionView::Call(
        Box::new(ExpressionView::Access(AccessView::Identifier(names.1))),
        Seq::empty(),
    );
    let first = entered(heap, global);
    let inside = ContextView {
        this: ValueView::Object(context.global),
        local: fresh(heap),
        global: context.global,
    };
    let part = trace.part(3).part(0).part(0);
    lemma_position_missing(Seq::empty(), names.1);
    assert(first[outer as int] == heap[outer as int]);
    assert(first[thrower.0 as int] == heap[thrower.0 as int]);
    assert(record(first, fresh(heap)) == Some(first[heap.len() as int]));
    assert(sees(first, inside.local, outer, names.1, ValueView::Object(Object::Object(thrower.0))));
    lemma_thrower_fails(
        first,
        inside,
        outer,
        names.0,
        names.1,
        value,
        thrower,
        (fuel - 2) as nat,
        part,
    );
    assert(eval_statement(
        StatementView::Expression(inner_call),
        inside,
        first,
        (fuel - 2) as nat,
        part,
    ) == (Completion::Throw(Raised::Thrown(value)), entered(first, global)));
    lemma_procedure_is_called(
        heap,
        context,
        outer,
        names.2,
        caller.0,
        caller.1,
        global,
        StatementView::Expression(inner_call),
        fuel,
        trace,
    );
}

/// A block of one statement that is an expression fails as the expression fails.
proof fn lemma_block_fails(
    expression: ExpressionView,
    context: ContextView,
    heap: Records,
    fuel: nat,
    trace: Trace,
)
    requires
        eval_expression(expression, context, heap, fuel, trace.part(0)).0 is Err,
    ensures
        ({
            let failed = eval_expression(expression, context, heap, fuel, trace.part(0));
            eval_block(seq![StatementView::Expression(expression)], context, heap, fuel, trace)
                == (Completion::Throw(failed.0->Err_0), failed.1)
        }),
{
    let only = seq![StatementView::Expression(expression)];
    assert(only[0] == StatementView::Expression(expression));
    assert(hoist(only, context, heap, 1) == (Ok::<ValueView, ValueView>(ValueView::Undefined), heap));
    assert(hoist(only, context, heap, 0) == (Ok::<ValueView, ValueView>(ValueView::Undefined), heap));
    assert(eval_statements(only, context, heap, fuel, 0, ValueView::Undefined, trace)
        == eval_statement(only[0], context, heap, fuel, trace.part(0)));
}

/// A value that a function throws passes through the function that called it: where the
/// variable `o` holds `value`, `a` a function whose body is `throw o;`, and `b` a function
/// whose body is `a();`, all three in the record that is the scope of the two functions
/// and of the caller, the call `b()` fails with `value` itself, and so does the block that
/// is this call; every record that was there is left as it was.
pub proof fn law_thrown_value_passes_through_calls(
    heap: Records,
    context: ContextView,
    outer: usize,
    names: (Seq<char>, Seq<char>, Seq<char>),
    value: ValueView,
    thrower: (usize, crate::ast::FunctionView),
    caller: (usize, crate::ast::FunctionView),
    fuel: nat,
    trace: Trace,
)
    requires
        heap.len() + 2 <= usize::MAX,
        context.local == Object::Object(outer),
        outer < heap.len(),
        own(heap[outer as int].values, names.0) == Some(value),
        own(heap[outer as int].values, names.1) == Some(
            ValueView::Object(Object::Object(thrower.0)),
        ),
        own(heap[outer as int].values, names.2) == Some(
            ValueView::Object(Object::Object(caller.0)),
        ),
        thrower.0 < heap.len(),
        caller.0 < heap.len(),
        heap[thrower.0 as int].otype == Some(
            FunctionView::User(thrower.1, Object::Object(outer)),
        ),
        heap[caller.0 as int].otype == Some(FunctionView::User(caller.1, Object::Object(outer))),
        is_procedure(
            thrower.1,
            StatementView::Throw(ExpressionView::Access(AccessView::Identifier(names.0))),
        ),
        is_procedure(
            caller.1,
            StatementView::Expression(
                ExpressionView::Call(
                    Box::new(ExpressionView::Access(AccessView::Identifier(names.1))),
                    Seq::empty(),
                ),
            ),
        ),
        fuel >= 5,
    ensures
        ({
            let call = ExpressionView::Call(
                Box::new(ExpressionView::Access(AccessView::Identifier(names.2))),
                Seq::empty(),
            );
            let failed = eval_block(
                seq![StatementView::Expression(call)],
                context,
                heap,
                fuel,
                trace,
            );
            &&& eval_expression(call, context, heap, fuel, trace).0 == Err::<ValueView, Raised>(
                Raised::Thrown(value),
            )
            &&& failed.0 == Completion::Throw(Raised::Thrown(value))
            &&& failed.1.len() == heap.len() + 2
            &&& failed.1.subrange(0, heap.len() as int) == heap
        }),
{
    let call = ExpressionView::Call(
        Box::new(ExpressionView::Access(AccessView::Identifier(names.2))),
        Seq::empty(),
    );
    let after = entered(entered(heap, Object::Object(outer)), Object::Object(outer));
    lemma_caller_fails(heap, context, outer, names, value, thrower, caller, fuel, trace);
    lemma_caller_fails(heap, context, outer, names, value, thrower, caller, fuel, trace.part(0));
    lemma_block_fails(call, context, heap, fuel, trace);
    assert(after.subrange(0, heap.len() as int) =~= heap);
}

/// In a call of a property of a value, `this` is that value: the receiver is what the
/// expression left of the property gives when it is evaluated once more.
pub proof fn law_method_call_binds_this(
    target: ExpressionView,
    accessor: crate::ast::AccessorView,
    context: ContextView,
    heap: Records,
    fuel: nat,
    trace: Trace,
)
    ensures
        eval_receiver(
            ExpressionView::Access(AccessView::Member(Box::new(target), accessor)),
            context,
            heap,
            fuel,
            trace,
        ) == eval_expression(target, context, heap, fuel, trace),
{
}

/// In a call of anything but a property, `this` is the global object.
pub proof fn law_bare_call_binds_global(
    callee: ExpressionView,
    context: ContextView,
    heap: Records,
    fuel: nat,
    trace: Trace,
)
    requires
        !(callee matches ExpressionView::Access(AccessView::Member(_, _))),
    ensures
        eval_receiver(callee, context, heap, fuel, trace) == (
            Ok::<ValueView, Raised>(ValueView::Object(context.global)),
            heap,
        ),
{
}

/// Two objects are strictly equal exactly when they are the same object, and an object
/// is strictly equal to nothing that is no object.
pub proof fn law_objects_equal_by_identity(a: Object, other: ValueView)
    ensures
        ValueView::Object(a).strict_equals(other) <==> other == ValueView::Object(a),
{
}

/// A function value closes over the scope in which its expression is evaluated, in a heap
/// whose handles fit the machine: calling it runs its body in a record whose prototype is
/// that scope.
pub proof fn law_function_captures_its_scope(
    function: crate::ast::FunctionView,
    context: ContextView,
    heap: Records,
)
    requires
        heap.len() <= usize::MAX,
        crate::interpret::model::make_function(function, context, heap).0 is Ok,
    ensures
        ({
            let made = crate::interpret::model::make_function(function, context, heap);
            callable(made.0->Ok_0, made.1) == Some(FunctionView::User(function, context.local))
        }),
{
}

/// What a native function of the host gave is the result of the call that reached it, and
/// the heap that it left is the heap after the call.
pub proof fn law_host_call_gives_what_the_host_gave(
    native: u64,
    arguments: Seq<ValueView>,
    context: ContextView,
    heap: Records,
    fuel: nat,
    result: Result<ValueView, ValueView>,
    after: Records,
)
    ensures
        crate::interpret::model::apply_native(
            crate::interpret::object::Native::Host(native),
            arguments,
            context,
            heap,
            fuel,
            Trace::Host {
                native: native,
                arguments: arguments,
                context: context,
                before: heap,
                fuel: fuel,
                result: result,
                after: after,
            },
        ) == (crate::interpret::model::lift(result), after),
{
}

} // verus!
