//! Object records, the heap that holds them, and the walks along prototype chains.

use vstd::prelude::*;
use vstd::string::*;
use std::rc::Rc;
use crate::ast;
use crate::interpret::model::Trace;
use crate::interpret::value::{result_view, throw_string, JSResult, Object, Value, ValueView};
use crate::text::{concat, text};

verus! {

/// A function that the interpreter or its host supplies.
#[derive(Clone, Copy, Debug, PartialEq, Eq, Structural)]
pub enum Native {
    /// `toString` of the object prototype.
    ObjectToString,
    /// `toString` of the function prototype.
    FunctionToString,
    /// `Object.create`.
    ObjectCreate,
    /// `toString` of the number prototype.
    NumberToString,
    /// `toString` of the string prototype.
    StringToString,
    /// `console.log`.
    ConsoleLog,
    /// `eval`.
    Eval,
    /// The host's native function of this number.
    Host(u64),
}

/// A function of the script together with the scope it was made in.
#[derive(Debug)]
pub struct UserFunction {
    pub function: Rc<ast::Function>,
    pub local: Object,
}

/// What makes an object callable.
#[derive(Debug)]
pub enum Function {
    Native(String, Native),
    User(UserFunction),
}

/// A function with its texts as sequences of characters and its syntax as a view.
pub enum FunctionView {
    Native(Seq<char>, Native),
    User(ast::FunctionView, Object),
}

/// What an object is besides a bag of properties.
#[derive(Debug)]
pub enum ObjectExtension {
    Function(Function),
    Plain,
}

/// An object record: its own properties in the order in which they were first set, its
/// prototype, and its extension. Of two entries with one key only the first counts.
#[derive(Debug)]
pub struct ActualObject {
    pub values: Vec<(String, Value)>,
    pub prototype: Object,
    pub otype: ObjectExtension,
}

/// A record with its entries as a sequence of keys and values.
pub struct ObjectView {
    pub values: Seq<(Seq<char>, ValueView)>,
    pub prototype: Object,
    pub otype: Option<FunctionView>,
}

/// The records of all live objects. A handle `Object(i)` names the record at index `i`;
/// records are never removed. For the proofs, a heap also carries the trace of what the
/// host answered and did during the last evaluation on it. The view of a heap is its
/// records alone; contracts speak of the trace by its name.
pub struct Heap {
    pub objects: Vec<ActualObject>,
    pub trace: Ghost<Trace>,
}

impl View for Function {
    type V = FunctionView;

    open spec fn view(&self) -> FunctionView {
        match self {
            Function::Native(id, native) => FunctionView::Native(id@, *native),
            Function::User(user) => FunctionView::User((*user.function)@, user.local),
        }
    }
}

/// The entries of a record as keys and values.
pub open spec fn values_view(values: Seq<(String, Value)>) -> Seq<(Seq<char>, ValueView)> {
    Seq::new(values.len(), |i: int| (values[i].0@, values[i].1@))
}

impl View for ActualObject {
    type V = ObjectView;

    open spec fn view(&self) -> ObjectView {
        ObjectView {
            values: values_view(self.values@),
            prototype: self.prototype,
            otype: match self.otype {
                ObjectExtension::Function(f) => Some(f@),
                ObjectExtension::Plain => None,
            },
        }
    }
}

impl View for Heap {
    type V = Seq<ObjectView>;

    open spec fn view(&self) -> Seq<ObjectView> {
        Seq::new(self.objects@.len(), |i: int| self.objects@[i]@)
    }
}

/// `i` is the first entry of `values` under `key`.
pub open spec fn is_first(values: Seq<(Seq<char>, ValueView)>, key: Seq<char>, i: int) -> bool {
    &&& 0 <= i < values.len()
    &&& values[i].0 == key
    &&& forall|j: int| 0 <= j < i ==> (#[trigger] values[j]).0 != key
}

/// The index of the first entry under `key`, if there is one.
pub open spec fn position(values: Seq<(Seq<char>, ValueView)>, key: Seq<char>) -> Option<int> {
    if exists|i: int| is_first(values, key, i) {
        Some(choose|i: int| is_first(values, key, i))
    } else {
        None
    }
}

/// The own property `key` of a record with these entries.
pub open spec fn own(values: Seq<(Seq<char>, ValueView)>, key: Seq<char>) -> Option<ValueView> {
    match position(values, key) {
        Some(i) => Some(values[i].1),
        None => None,
    }
}

/// The entries after `key` is set to `value`: rewritten in place where the key is present,
/// added at the end where it is not.
pub open spec fn stored(values: Seq<(Seq<char>, ValueView)>, key: Seq<char>, value: ValueView) -> Seq<
    (Seq<char>, ValueView),
> {
    match position(values, key) {
        Some(i) => values.update(i, (key, value)),
        None => values.push((key, value)),
    }
}

/// No key occurs twice among these entries.
pub open spec fn distinct_keys(values: Seq<(Seq<char>, ValueView)>) -> bool {
    forall|i: int, j: int|
        0 <= i < j < values.len() ==> (#[trigger] values[i]).0 != (#[trigger] values[j]).0
}

/// Every record of a heap keeps its keys apart.
pub open spec fn keys_apart(heap: Seq<ObjectView>) -> bool {
    forall|i: int| 0 <= i < heap.len() ==> distinct_keys((#[trigger] heap[i]).values)
}

/// The first entry under a key is the only index that `position` can give.
pub proof fn lemma_position_found(values: Seq<(Seq<char>, ValueView)>, key: Seq<char>, i: int)
    requires
        is_first(values, key, i),
    ensures
        position(values, key) == Some(i),
{
    let j = choose|j: int| is_first(values, key, j);
    assert(is_first(values, key, j));
    if j < i {
        assert(values[j].0 != key);
    } else if i < j {
        assert(values[i].0 != key);
    }
}

/// Where no entry is under a key, `position` gives none.
pub proof fn lemma_position_missing(values: Seq<(Seq<char>, ValueView)>, key: Seq<char>)
    requires
        forall|j: int| 0 <= j < values.len() ==> (#[trigger] values[j]).0 != key,
    ensures
        position(values, key).is_none(),
{
    if exists|i: int| is_first(values, key, i) {
        let i = choose|i: int| is_first(values, key, i);
        assert(values[i].0 != key);
    }
}

/// A property that was set is read back, and setting it leaves every other property as it was.
pub proof fn lemma_stored_own(
    values: Seq<(Seq<char>, ValueView)>,
    key: Seq<char>,
    value: ValueView,
    other: Seq<char>,
)
    ensures
        own(stored(values, key, value), key) == Some(value),
        other != key ==> own(stored(values, key, value), other) == own(values, other),
{
    let after = stored(values, key, value);
    match position(values, key) {
        Some(i) => {
            assert(is_first(values, key, i));
            assert forall|j: int| 0 <= j < i implies (#[trigger] after[j]).0 != key by {
                assert(values[j].0 != key);
            }
            assert(is_first(after, key, i));
            lemma_position_found(after, key, i);
        },
        None => {
            let n = values.len() as int;
            assert forall|j: int| 0 <= j < n implies (#[trigger] after[j]).0 != key by {
                if values[j].0 == key {
                    lemma_first_exists(values, key, j);
                }
            }
            assert(is_first(after, key, n));
            lemma_position_found(after, key, n);
        },
    }
    if other != key {
        match position(values, other) {
            Some(k) => {
                assert(is_first(values, other, k));
                assert(after[k] == values[k]);
                assert forall|j: int| 0 <= j < k implies (#[trigger] after[j]).0 != other by {
                    assert(values[j].0 != other);
                }
                assert(is_first(after, other, k));
                lemma_position_found(after, other, k);
            },
            None => {
                assert forall|j: int| 0 <= j < after.len() implies (#[trigger] after[j]).0
                    != other by {
                    if j < values.len() && values[j].0 == other {
                        lemma_first_exists(values, other, j);
                    }
                }
                lemma_position_missing(after, other);
            },
        }
    }
}

/// Setting a property keeps the keys of a record apart.
pub proof fn law_setting_keeps_keys_apart(
    values: Seq<(Seq<char>, ValueView)>,
    key: Seq<char>,
    value: ValueView,
)
    requires
        distinct_keys(values),
    ensures
        distinct_keys(stored(values, key, value)),
{
    let after = stored(values, key, value);
    match position(values, key) {
        Some(k) => {
            assert(is_first(values, key, k));
            assert forall|i: int, j: int| 0 <= i < j < after.len() implies (#[trigger] after[i]).0
                != (#[trigger] after[j]).0 by {
                assert(values[i].0 != values[j].0);
                assert(values[k].0 == key);
            }
        },
        None => {
            assert forall|i: int, j: int| 0 <= i < j < after.len() implies (#[trigger] after[i]).0
                != (#[trigger] after[j]).0 by {
                if j < values.len() {
                    assert(values[i].0 != values[j].0);
                } else if values[i].0 == key {
                    lemma_first_exists(values, key, i);
                }
            }
        },
    }
}

/// Where some entry is under a key, a first one is.
pub proof fn lemma_first_exists(values: Seq<(Seq<char>, ValueView)>, key: Seq<char>, i: int)
    requires
        0 <= i < values.len(),
        values[i].0 == key,
    ensures
        position(values, key).is_some(),
    decreases i,
{
    if forall|j: int| 0 <= j < i ==> (#[trigger] values[j]).0 != key {
        assert(is_first(values, key, i));
    } else {
        let j = choose|j: int| 0 <= j < i && (#[trigger] values[j]).0 == key;
        lemma_first_exists(values, key, j);
    }
}

/// The record that a handle names in a heap, if it names one.
pub open spec fn record(heap: Seq<ObjectView>, object: Object) -> Option<ObjectView> {
    match object {
        Object::Object(i) => if i < heap.len() {
            Some(heap[i as int])
        } else {
            None
        },
        Object::Null => None,
    }
}

/// Where a walk along a prototype chain ends.
pub enum Walk {
    /// The handle at which the walk started names no record.
    Null,
    /// The record at this index is the nearest one that has the key, with this value.
    Found(int, ValueView),
    /// No record of the chain has the key; the record at this index is the outermost.
    Missing(int),
    /// The walk took more steps than the heap has records: the chain runs in a circle.
    Cycle,
}

/// Walks from `object` along the prototypes, looking for `key`, for at most `steps` steps.
pub open spec fn walk(heap: Seq<ObjectView>, object: Object, key: Seq<char>, steps: nat) -> Walk
    decreases steps,
{
    match record(heap, object) {
        None => Walk::Null,
        Some(found) => match own(found.values, key) {
            Some(value) => Walk::Found(object->Object_0 as int, value),
            None => if record(heap, found.prototype).is_none() {
                Walk::Missing(object->Object_0 as int)
            } else if steps == 0 {
                Walk::Cycle
            } else {
                walk(heap, found.prototype, key, (steps - 1) as nat)
            },
        },
    }
}

/// The walk that the operations on handles make: as many steps as the heap has records, which
/// is enough for every chain that does not run in a circle.
pub open spec fn lookup(heap: Seq<ObjectView>, object: Object, key: Seq<char>) -> Walk {
    walk(heap, object, key, heap.len())
}

/// The heap with `key` set to `value` on the record at `index`.
pub open spec fn updated(heap: Seq<ObjectView>, index: int, key: Seq<char>, value: ValueView) -> Seq<
    ObjectView,
> {
    heap.update(
        index,
        ObjectView { values: stored(heap[index].values, key, value), ..heap[index] },
    )
}

/// What an access through a handle that names nothing throws.
pub open spec fn null_has_no_properties() -> ValueView {
    ValueView::String("null has no properties"@)
}

/// What an access throws that walks along a chain that runs in a circle.
pub open spec fn cyclic_prototype_chain() -> ValueView {
    ValueView::String("cyclic prototype chain"@)
}

/// Reading a property through a handle: the nearest value along the chain, and undefined
/// where no record of the chain has the key.
pub open spec fn get_spec(heap: Seq<ObjectView>, object: Object, key: Seq<char>) -> Result<
    ValueView,
    ValueView,
> {
    match lookup(heap, object, key) {
        Walk::Null => Err(null_has_no_properties()),
        Walk::Found(_, value) => Ok(value),
        Walk::Missing(_) => Ok(ValueView::Undefined),
        Walk::Cycle => Err(cyclic_prototype_chain()),
    }
}

/// Reading a variable through a scope: as `get_spec`, but a name that no record of the chain
/// binds is an error.
pub open spec fn get_or_err_spec(heap: Seq<ObjectView>, object: Object, key: Seq<char>) -> Result<
    ValueView,
    ValueView,
> {
    match lookup(heap, object, key) {
        Walk::Null => Err(null_has_no_properties()),
        Walk::Found(_, value) => Ok(value),
        Walk::Missing(_) => Err(ValueView::String(key + " is not defined"@)),
        Walk::Cycle => Err(cyclic_prototype_chain()),
    }
}

/// Writing a property through a handle: always on the record that the handle names.
pub open spec fn set_spec(
    heap: Seq<ObjectView>,
    object: Object,
    key: Seq<char>,
    value: ValueView,
) -> (Result<ValueView, ValueView>, Seq<ObjectView>) {
    match record(heap, object) {
        None => (Err(null_has_no_properties()), heap),
        Some(_) => (Ok(value), updated(heap, object->Object_0 as int, key, value)),
    }
}

/// Assigning to a variable through a scope: on the nearest record of the chain that binds
/// the name, and on the outermost record where none does.
pub open spec fn outer_set_spec(
    heap: Seq<ObjectView>,
    object: Object,
    key: Seq<char>,
    value: ValueView,
) -> (Result<ValueView, ValueView>, Seq<ObjectView>) {
    match lookup(heap, object, key) {
        Walk::Null => (Err(null_has_no_properties()), heap),
        Walk::Found(owner, _) => (Ok(value), updated(heap, owner, key, value)),
        Walk::Missing(last) => (Ok(value), updated(heap, last, key, value)),
        Walk::Cycle => (Err(cyclic_prototype_chain()), heap),
    }
}

/// The value of `key` on the nearest of three records that has it.
pub open spec fn nearest_of_three(
    first: ObjectView,
    second: ObjectView,
    third: ObjectView,
    key: Seq<char>,
) -> Option<ValueView> {
    if own(first.values, key).is_some() {
        own(first.values, key)
    } else if own(second.values, key).is_some() {
        own(second.values, key)
    } else {
        own(third.values, key)
    }
}

/// Along a chain of three objects that ends after the third, reading a property gives the
/// value of the nearest object that has it. Where none has it, reading a property gives
/// undefined, and reading a variable throws that the name is not defined.
pub proof fn law_nearest_ancestor(
    heap: Seq<ObjectView>,
    a: Object,
    b: Object,
    c: Object,
    key: Seq<char>,
)
    requires
        record(heap, a).is_some(),
        record(heap, b).is_some(),
        record(heap, c).is_some(),
        record(heap, a).unwrap().prototype == b,
        record(heap, b).unwrap().prototype == c,
        record(heap, record(heap, c).unwrap().prototype).is_none(),
    ensures
        get_spec(heap, a, key) == Ok::<ValueView, ValueView>(
            match nearest_of_three(
                record(heap, a).unwrap(),
                record(heap, b).unwrap(),
                record(heap, c).unwrap(),
                key,
            ) {
                Some(value) => value,
                None => ValueView::Undefined,
            },
        ),
        get_or_err_spec(heap, a, key) == match nearest_of_three(
            record(heap, a).unwrap(),
            record(heap, b).unwrap(),
            record(heap, c).unwrap(),
            key,
        ) {
            Some(value) => Ok::<ValueView, ValueView>(value),
            None => Err::<ValueView, ValueView>(ValueView::String(key + " is not defined"@)),
        },
{
    assert(a != c);
    assert(heap.len() >= 2);
    let n = heap.len();
    assert(walk(heap, c, key, (n - 2) as nat) == match own(record(heap, c).unwrap().values, key) {
        Some(value) => Walk::Found(c->Object_0 as int, value),
        None => Walk::Missing(c->Object_0 as int),
    });
    assert(walk(heap, b, key, (n - 1) as nat) == match own(record(heap, b).unwrap().values, key) {
        Some(value) => Walk::Found(b->Object_0 as int, value),
        None => walk(heap, c, key, (n - 2) as nat),
    });
    assert(walk(heap, a, key, n) == match own(record(heap, a).unwrap().values, key) {
        Some(value) => Walk::Found(a->Object_0 as int, value),
        None => walk(heap, b, key, (n - 1) as nat),
    });
}

/// `chain` is a prototype chain of the heap: the indices of records of which each has the
/// next as its prototype, none occurs twice, and the prototype of the last names no record.
pub open spec fn is_chain(heap: Seq<ObjectView>, chain: Seq<int>) -> bool {
    &&& chain.len() > 0
    &&& chain.no_duplicates()
    &&& forall|i: int|
        0 <= i < chain.len() ==> 0 <= #[trigger] chain[i] < heap.len() && chain[i] <= usize::MAX
    &&& forall|i: int|
        0 <= i < chain.len() - 1 ==> heap[#[trigger] chain[i]].prototype == Object::Object(
            chain[i + 1] as usize,
        )
    &&& record(heap, heap[chain.last()].prototype).is_none()
}

/// The own value of `key` on the first record of the chain, from place `from` on, that has
/// the key.
pub open spec fn nearest(heap: Seq<ObjectView>, chain: Seq<int>, key: Seq<char>, from: int) -> Option<
    ValueView,
>
    decreases chain.len() - from,
{
    if from < 0 || from >= chain.len() {
        None
    } else if own(heap[chain[from]].values, key).is_some() {
        own(heap[chain[from]].values, key)
    } else {
        nearest(heap, chain, key, from + 1)
    }
}

/// The nearest value is the own value of the record at place `k`, where that record has
/// the key and none before it has; and there is none where no record of the chain has the
/// key.
pub proof fn law_nearest_is_the_first_holder(
    heap: Seq<ObjectView>,
    chain: Seq<int>,
    key: Seq<char>,
    from: int,
    k: int,
)
    requires
        0 <= from <= k <= chain.len(),
        forall|i: int| from <= i < k ==> own(heap[#[trigger] chain[i]].values, key).is_none(),
        k < chain.len() ==> own(heap[chain[k]].values, key).is_some(),
    ensures
        nearest(heap, chain, key, from) == if k < chain.len() {
            own(heap[chain[k]].values, key)
        } else {
            None
        },
    decreases k - from,
{
    if from < k {
        assert(own(heap[chain[from]].values, key).is_none());
        law_nearest_is_the_first_holder(heap, chain, key, from + 1, k);
    }
}

/// A chain of records that do not repeat is no longer than the heap.
proof fn lemma_chain_fits(heap: Seq<ObjectView>, chain: Seq<int>)
    requires
        is_chain(heap, chain),
    ensures
        chain.len() <= heap.len(),
{
    let all = vstd::set_lib::set_int_range(0, heap.len() as int);
    vstd::set_lib::lemma_int_range(0, heap.len() as int);
    chain.unique_seq_to_set();
    assert forall|i: int| chain.to_set().contains(i) implies all.contains(i) by {
        let at = choose|at: int| 0 <= at < chain.len() && chain[at] == i;
        assert(0 <= chain[at] < heap.len());
    }
    vstd::set_lib::lemma_len_subset(chain.to_set(), all);
}

/// A walk from place `from` of a chain that may take as many steps as the chain has
/// records behind that place ends at the nearest record that has the key, or at the last.
proof fn lemma_walk_along(
    heap: Seq<ObjectView>,
    chain: Seq<int>,
    key: Seq<char>,
    from: int,
    steps: nat,
)
    requires
        is_chain(heap, chain),
        0 <= from < chain.len(),
        steps >= chain.len() - 1 - from,
    ensures
        match nearest(heap, chain, key, from) {
            Some(value) => walk(heap, Object::Object(chain[from] as usize), key, steps)
                matches Walk::Found(_, found) && found == value,
            None => walk(heap, Object::Object(chain[from] as usize), key, steps) is Missing,
        },
    decreases chain.len() - from,
{
    let here = Object::Object(chain[from] as usize);
    assert(0 <= chain[from] < heap.len());
    assert(record(heap, here) == Some(heap[chain[from]]));
    if own(heap[chain[from]].values, key).is_none() {
        if from == chain.len() - 1 {
            assert(chain[from] == chain.last());
            assert(nearest(heap, chain, key, from + 1).is_none());
        } else {
            assert(heap[chain[from]].prototype == Object::Object(chain[from + 1] as usize));
            assert(0 <= chain[from + 1] < heap.len());
            lemma_walk_along(heap, chain, key, from + 1, (steps - 1) as nat);
        }
    }
}

/// Along a prototype chain of any length, reading a property gives the own value of the
/// first record of the chain that has it. Where none has it, reading a property gives
/// undefined, and reading a variable throws that the name is not defined.
pub proof fn law_nearest_holder_answers(heap: Seq<ObjectView>, chain: Seq<int>, key: Seq<char>)
    requires
        is_chain(heap, chain),
    ensures
        get_spec(heap, Object::Object(chain[0] as usize), key) == Ok::<ValueView, ValueView>(
            match nearest(heap, chain, key, 0) {
                Some(value) => value,
                None => ValueView::Undefined,
            },
        ),
        get_or_err_spec(heap, Object::Object(chain[0] as usize), key) == match nearest(
            heap,
            chain,
            key,
            0,
        ) {
            Some(value) => Ok::<ValueView, ValueView>(value),
            None => Err::<ValueView, ValueView>(ValueView::String(key + " is not defined"@)),
        },
{
    lemma_chain_fits(heap, chain);
    lemma_walk_along(heap, chain, key, 0, heap.len());
}

/// Every prototype of the heap is the null handle or names an earlier record.
pub open spec fn prototypes_precede(heap: Seq<ObjectView>) -> bool {
    forall|i: int|
        0 <= i < heap.len() ==> match (#[trigger] heap[i]).prototype {
            Object::Object(j) => j < i,
            Object::Null => true,
        }
}

/// In a heap whose prototypes all name earlier records, a walk that may take as many steps
/// as the index it starts at never gives up.
pub proof fn lemma_walk_ends(heap: Seq<ObjectView>, object: Object, key: Seq<char>, steps: nat)
    requires
        prototypes_precede(heap),
        object matches Object::Object(i) ==> i <= steps,
    ensures
        !(walk(heap, object, key, steps) is Cycle),
    decreases steps,
{
    if let Some(found) = record(heap, object) {
        assert(heap[object->Object_0 as int] == found);
        if own(found.values, key).is_none() && record(heap, found.prototype).is_some() && steps
            > 0 {
            lemma_walk_ends(heap, found.prototype, key, (steps - 1) as nat);
        }
    }
}

/// Where every object was made after its prototype, no read and no assignment fails for a
/// chain that runs in a circle: a walk always ends at the nearest owner or at the end of
/// the chain.
pub proof fn law_lookup_ends(heap: Seq<ObjectView>, object: Object, key: Seq<char>)
    requires
        prototypes_precede(heap),
    ensures
        !(lookup(heap, object, key) is Cycle),
{
    if record(heap, object).is_some() {
        lemma_walk_ends(heap, object, key, heap.len());
    }
}

/// After `key` is set on the record where a walk for it ends, the same walk finds the
/// new value there.
pub proof fn lemma_walk_after_store(
    heap: Seq<ObjectView>,
    object: Object,
    key: Seq<char>,
    steps: nat,
    value: ValueView,
)
    ensures
        match walk(heap, object, key, steps) {
            Walk::Found(owner, _) => 0 <= owner < heap.len() && walk(
                updated(heap, owner, key, value),
                object,
                key,
                steps,
            ) == Walk::Found(owner, value),
            Walk::Missing(last) => 0 <= last < heap.len() && walk(
                updated(heap, last, key, value),
                object,
                key,
                steps,
            ) == Walk::Found(last, value),
            _ => true,
        },
    decreases steps,
{
    if let Some(found) = record(heap, object) {
        let i = object->Object_0 as int;
        lemma_stored_own(found.values, key, value, key);
        if own(found.values, key).is_some() || record(heap, found.prototype).is_none() {
            assert(record(updated(heap, i, key, value), object).unwrap().values == stored(
                found.values,
                key,
                value,
            ));
        } else if steps > 0 {
            lemma_walk_after_store(heap, found.prototype, key, (steps - 1) as nat, value);
            lemma_walk_result(heap, found.prototype, key, (steps - 1) as nat);
            match walk(heap, found.prototype, key, (steps - 1) as nat) {
                Walk::Found(owner, _) => {
                    assert(own(heap[owner].values, key).is_some());
                    assert(owner != i);
                    let after = updated(heap, owner, key, value);
                    assert(record(after, object) == Some(found));
                    assert(record(after, found.prototype).is_some());
                },
                Walk::Missing(last) => {
                    assert(record(heap, heap[last].prototype).is_none());
                    assert(last != i);
                    let after = updated(heap, last, key, value);
                    assert(record(after, object) == Some(found));
                    assert(record(after, found.prototype).is_some());
                },
                _ => {},
            }
        }
    }
}

/// Where a walk finds a key, the record it names has the key; where it misses, the record
/// it names is the outermost of the chain.
pub proof fn lemma_walk_result(heap: Seq<ObjectView>, object: Object, key: Seq<char>, steps: nat)
    ensures
        match walk(heap, object, key, steps) {
            Walk::Found(owner, value) => 0 <= owner < heap.len() && own(heap[owner].values, key)
                == Some(value),
            Walk::Missing(last) => 0 <= last < heap.len() && own(heap[last].values, key).is_none()
                && record(heap, heap[last].prototype).is_none(),
            _ => true,
        },
    decreases steps,
{
    if let Some(found) = record(heap, object) {
        if own(found.values, key).is_none() && record(heap, found.prototype).is_some() && steps
            > 0 {
            lemma_walk_result(heap, found.prototype, key, (steps - 1) as nat);
        }
    }
}

/// What is assigned to a variable is what reading the variable from the same scope gives
/// next, whether the assignment rewrote a binding or made one on the outermost object.
pub proof fn law_assignment_is_read_back(
    heap: Seq<ObjectView>,
    scope: Object,
    key: Seq<char>,
    value: ValueView,
)
    requires
        outer_set_spec(heap, scope, key, value).0 is Ok,
    ensures
        get_or_err_spec(outer_set_spec(heap, scope, key, value).1, scope, key) == Ok::<
            ValueView,
            ValueView,
        >(value),
{
    lemma_walk_after_store(heap, scope, key, heap.len(), value);
}

/// An assignment to a variable that some scope of the chain binds rewrites the nearest such
/// binding and touches no other record; where no scope binds it, only the outermost record
/// of the chain changes.
pub proof fn law_assignment_rewrites_in_place(
    heap: Seq<ObjectView>,
    scope: Object,
    key: Seq<char>,
    value: ValueView,
    other: int,
)
    requires
        outer_set_spec(heap, scope, key, value).0 is Ok,
        0 <= other < heap.len(),
    ensures
        outer_set_spec(heap, scope, key, value).1.len() == heap.len(),
        match lookup(heap, scope, key) {
            Walk::Found(owner, _) => other != owner,
            Walk::Missing(last) => other != last,
            _ => true,
        } ==> outer_set_spec(heap, scope, key, value).1[other] == heap[other],
{
    lemma_walk_result(heap, scope, key, heap.len());
}

/// What is set on an object is what reading the property from that object gives next, and
/// no other record changes: a property is always written on the receiver itself.
pub proof fn law_set_writes_the_receiver(
    heap: Seq<ObjectView>,
    object: Object,
    key: Seq<char>,
    value: ValueView,
    other: int,
)
    requires
        set_spec(heap, object, key, value).0 is Ok,
        0 <= other < heap.len(),
    ensures
        get_spec(set_spec(heap, object, key, value).1, object, key) == Ok::<ValueView, ValueView>(
            value,
        ),
        other != object->Object_0 ==> set_spec(heap, object, key, value).1[other] == heap[other],
{
    let found = record(heap, object).unwrap();
    lemma_stored_own(found.values, key, value, key);
    let after = set_spec(heap, object, key, value).1;
    assert(record(after, object).unwrap().values == stored(found.values, key, value));
}

/// The entries that setting each of the first `n` of `entries` in turn leaves.
pub open spec fn collected(entries: Seq<(Seq<char>, ValueView)>, n: int) -> Seq<
    (Seq<char>, ValueView),
>
    decreases n,
{
    if n <= 0 {
        Seq::empty()
    } else {
        stored(collected(entries, n - 1), entries[n - 1].0, entries[n - 1].1)
    }
}

/// Entries that were set one by one hold no key twice.
pub proof fn law_collected_keys_differ(entries: Seq<(Seq<char>, ValueView)>, n: int)
    ensures
        distinct_keys(collected(entries, n)),
    decreases n,
{
    if n > 0 {
        law_collected_keys_differ(entries, n - 1);
        law_setting_keeps_keys_apart(collected(entries, n - 1), entries[n - 1].0, entries[n - 1].1);
    }
}

/// Writing a property, through a handle or through a scope, keeps the keys of every record
/// of the heap apart.
pub proof fn law_writing_keeps_keys_apart(
    heap: Seq<ObjectView>,
    object: Object,
    key: Seq<char>,
    value: ValueView,
)
    requires
        keys_apart(heap),
    ensures
        keys_apart(set_spec(heap, object, key, value).1),
        keys_apart(outer_set_spec(heap, object, key, value).1),
{
    assert forall|index: int| 0 <= index < heap.len() implies keys_apart(
        #[trigger] updated(heap, index, key, value),
    ) by {
        law_setting_keeps_keys_apart(heap[index].values, key, value);
        let after = updated(heap, index, key, value);
        assert forall|i: int| 0 <= i < after.len() implies distinct_keys(
            (#[trigger] after[i]).values,
        ) by {
            if i != index {
                assert(after[i] == heap[i]);
            }
        }
    }
    match lookup(heap, object, key) {
        Walk::Found(owner, _) => {
            lemma_walk_result(heap, object, key, heap.len());
        },
        Walk::Missing(last) => {
            lemma_walk_result(heap, object, key, heap.len());
        },
        _ => {},
    }
}

impl Clone for UserFunction {
    fn clone(&self) -> (r: UserFunction)
        ensures
            r == *self,
    {
        UserFunction { function: Rc::clone(&self.function), local: self.local }
    }
}

impl UserFunction {
    /// The function `function` closed over the scope `local`.
    pub fn new(function: Rc<ast::Function>, local: Object) -> (r: UserFunction)
        ensures
            r.function == function,
            r.local == local,
    {
        UserFunction { function, local }
    }
}

impl Clone for Function {
    fn clone(&self) -> (r: Function)
        ensures
            r == *self,
    {
        match self {
            Function::Native(id, native) => Function::Native(id.clone(), *native),
            Function::User(user) => Function::User(user.clone()),
        }
    }
}

impl FunctionView {
    /// The short form of a function: the word `function`, its name if it has one, and `()`.
    pub open spec fn debug_text(self) -> Seq<char> {
        match self {
            FunctionView::Native(id, _) => "function "@ + id + "()"@,
            FunctionView::User(function, _) => match function.id {
                Some(id) => "function "@ + id + "()"@,
                None => "function()"@,
            },
        }
    }

    /// The text of a function: its source where the script defined it, and a stand-in that
    /// names it where it is native.
    pub open spec fn to_text(self) -> Seq<char> {
        match self {
            FunctionView::Native(id, _) => "function "@ + id + "() { [native code] }"@,
            FunctionView::User(function, _) => function.source,
        }
    }
}

impl Function {
    /// The short form of this function.
    pub fn debug_string(&self) -> (r: String)
        ensures
            r@ == self@.debug_text(),
    {
        match self {
            Function::Native(id, _) => crate::text::concat3("function ", id.as_str(), "()"),
            Function::User(user) => match &user.function.id {
                Some(id) => crate::text::concat3("function ", id.as_str(), "()"),
                None => text("function()"),
            },
        }
    }

    /// The text of this function.
    pub fn to_string(&self) -> (r: String)
        ensures
            r@ == self@.to_text(),
    {
        match self {
            Function::Native(id, _) => crate::text::concat3(
                "function ",
                id.as_str(),
                "() { [native code] }",
            ),
            Function::User(user) => user.function.source.clone(),
        }
    }
}

impl ActualObject {
    /// A record with no property, no prototype and no extension.
    pub fn new() -> (r: ActualObject)
        ensures
            r@ == (ObjectView { values: Seq::empty(), prototype: Object::Null, otype: None }),
            distinct_keys(r@.values),
    {
        let r = ActualObject {
            values: Vec::new(),
            prototype: Object::Null,
            otype: ObjectExtension::Plain,
        };
        assert(r@.values =~= Seq::empty());
        r
    }

    /// A record with no property and the prototype `proto`.
    pub fn create(proto: Object) -> (r: ActualObject)
        ensures
            r@ == (ObjectView { values: Seq::empty(), prototype: proto, otype: None }),
    {
        let r = ActualObject { values: Vec::new(), prototype: proto, otype: ObjectExtension::Plain };
        assert(r@.values =~= Seq::empty());
        r
    }

    /// A record without prototype whose properties are those of `map`, set in order: of two
    /// entries with one key the later one stays.
    pub fn from_map(map: Vec<(String, Value)>) -> (r: ActualObject)
        ensures
            r@ == (ObjectView {
                values: collected(values_view(map@), map@.len() as int),
                prototype: Object::Null,
                otype: None,
            }),
            distinct_keys(r@.values),
    {
        let mut r = ActualObject::new();
        let mut i: usize = 0;
        while i < map.len()
            invariant
                i <= map.len(),
                r@ == (ObjectView {
                    values: collected(values_view(map@), i as int),
                    prototype: Object::Null,
                    otype: None,
                }),
            decreases map.len() - i,
        {
            r.set(map[i].0.as_str(), map[i].1.clone());
            i += 1;
        }
        proof {
            law_collected_keys_differ(values_view(map@), map@.len() as int);
        }
        r
    }

    /// A callable record with no property.
    pub fn from_function(func: Function, prototype: Object) -> (r: ActualObject)
        ensures
            r@ == (ObjectView { values: Seq::empty(), prototype: prototype, otype: Some(func@) }),
    {
        let r = ActualObject {
            values: Vec::new(),
            prototype,
            otype: ObjectExtension::Function(func),
        };
        assert(r@.values =~= Seq::empty());
        r
    }

    /// The index of the first entry under `key`.
    fn position(&self, key: &str) -> (r: Option<usize>)
        ensures
            match r {
                Some(i) => position(self@.values, key@) == Some(i as int),
                None => position(self@.values, key@).is_none(),
            },
    {
        let wanted = text(key);
        let mut i: usize = 0;
        while i < self.values.len()
            invariant
                i <= self.values.len(),
                wanted@ == key@,
                forall|j: int| 0 <= j < i ==> (#[trigger] self@.values[j]).0 != key@,
            decreases self.values.len() - i,
        {
            if self.values[i].0 == wanted {
                proof {
                    assert(self@.values[i as int].0 == key@);
                    lemma_position_found(self@.values, key@, i as int);
                }
                return Some(i);
            }
            i += 1;
        }
        proof {
            lemma_position_missing(self@.values, key@);
        }
        None
    }

    /// The own property `key` of this record.
    pub fn own(&self, key: &str) -> (r: Option<Value>)
        ensures
            match r {
                Some(v) => own(self@.values, key@) == Some(v@),
                None => own(self@.values, key@).is_none(),
            },
    {
        match self.position(key) {
            Some(i) => Some(self.values[i].1.clone()),
            None => None,
        }
    }

    /// Sets the own property `key` of this record, and gives the value back. A record
    /// whose keys were apart keeps them apart.
    pub fn set(&mut self, key: &str, val: Value) -> (r: Value)
        ensures
            r == val,
            final(self)@ == (ObjectView {
                values: stored(old(self)@.values, key@, val@),
                ..old(self)@
            }),
            distinct_keys(old(self)@.values) ==> distinct_keys(final(self)@.values),
    {
        proof {
            if distinct_keys(old(self)@.values) {
                law_setting_keeps_keys_apart(old(self)@.values, key@, val@);
            }
        }
        let r = val.clone();
        match self.position(key) {
            Some(i) => {
                self.values.set(i, (text(key), val));
                assert(self@.values =~= stored(old(self)@.values, key@, val@));
            },
            None => {
                self.values.push((text(key), val));
                assert(self@.values =~= stored(old(self)@.values, key@, val@));
            },
        }
        r
    }
}

/// Where a walk ended, with the value it found.
pub enum Walked {
    Null,
    Found(usize, Value),
    Missing(usize),
    Cycle,
}

impl View for Walked {
    type V = Walk;

    open spec fn view(&self) -> Walk {
        match self {
            Walked::Null => Walk::Null,
            Walked::Found(i, v) => Walk::Found(*i as int, v@),
            Walked::Missing(i) => Walk::Missing(*i as int),
            Walked::Cycle => Walk::Cycle,
        }
    }
}

impl Heap {
    /// A heap without records, on which no evaluation has left a trace yet.
    pub fn new() -> (r: Heap)
        ensures
            r@ == Seq::<ObjectView>::empty(),
            r.objects@ == Seq::<ActualObject>::empty(),
            r.trace@ == Trace::Empty,
    {
        let r = Heap { objects: Vec::new(), trace: Ghost(Trace::Empty) };
        assert(r@ =~= Seq::<ObjectView>::empty());
        r
    }

    /// The number of records.
    pub fn len(&self) -> (r: usize)
        ensures
            r == self@.len(),
    {
        self.objects.len()
    }

    /// Whether a handle names a record of this heap.
    pub fn has(&self, object: Object) -> (r: bool)
        ensures
            r == record(self@, object).is_some(),
    {
        match object {
            Object::Object(i) => i < self.objects.len(),
            Object::Null => false,
        }
    }

    /// Adds a record, and gives the handle that names it. A heap whose records kept their
    /// keys apart still does, where the new record does.
    pub fn insert(&mut self, record: ActualObject) -> (r: Object)
        ensures
            final(self)@ == old(self)@.push(record@),
            final(self).trace == old(self).trace,
            r == Object::Object(old(self)@.len() as usize),
            keys_apart(old(self)@) && distinct_keys(record@.values) ==> keys_apart(final(self)@),
    {
        let index = self.objects.len();
        self.objects.push(record);
        assert(self@ =~= old(self)@.push(record@));
        Object::Object(index)
    }

    /// Walks from `object` along the prototypes, looking for `key`.
    pub fn walk(&self, object: Object, key: &str) -> (r: Walked)
        ensures
            r@ == lookup(self@, object, key@),
            r matches Walked::Found(i, _) ==> i < self@.len(),
            r matches Walked::Missing(i) ==> i < self@.len(),
    {
        let mut current = object;
        let mut steps: usize = self.objects.len();
        loop
            invariant
                walk(self@, current, key@, steps as nat) == lookup(self@, object, key@),
            decreases steps,
        {
            match current {
                Object::Null => {
                    return Walked::Null;
                },
                Object::Object(i) => {
                    if i >= self.objects.len() {
                        return Walked::Null;
                    }
                    match self.objects[i].own(key) {
                        Some(v) => {
                            return Walked::Found(i, v);
                        },
                        None => {
                            let next = self.objects[i].prototype;
                            if !self.has(next) {
                                return Walked::Missing(i);
                            }
                            if steps == 0 {
                                return Walked::Cycle;
                            }
                            steps -= 1;
                            current = next;
                        },
                    }
                },
            }
        }
    }

    /// Sets `key` on the record at `index`.
    fn store(&mut self, index: usize, key: &str, val: Value) -> (r: Value)
        requires
            index < old(self)@.len(),
        ensures
            r == val,
            final(self)@ == updated(old(self)@, index as int, key@, val@),
            final(self).trace == old(self).trace,
    {
        let r = self.objects[index].set(key, val);
        assert(self@ =~= updated(old(self)@, index as int, key@, val@));
        r
    }
}

impl Object {
    /// A fresh object with no property and no prototype.
    pub fn new(heap: &mut Heap) -> (r: Object)
        ensures
            final(heap)@ == old(heap)@.push(
                ObjectView { values: Seq::empty(), prototype: Object::Null, otype: None },
            ),
            r == Object::Object(old(heap)@.len() as usize),
            final(heap).trace == old(heap).trace,
    {
        heap.insert(ActualObject::new())
    }

    /// A fresh object with no property and the prototype `proto`.
    pub fn create(proto: Object, heap: &mut Heap) -> (r: Object)
        ensures
            final(heap)@ == old(heap)@.push(
                ObjectView { values: Seq::empty(), prototype: proto, otype: None },
            ),
            r == Object::Object(old(heap)@.len() as usize),
            final(heap).trace == old(heap).trace,
    {
        heap.insert(ActualObject::create(proto))
    }

    /// A fresh object without prototype whose properties are those of `obj`, set in order.
    /// A heap whose records kept their keys apart still does.
    pub fn from_map(obj: Vec<(String, Value)>, heap: &mut Heap) -> (r: Object)
        ensures
            final(heap)@ == old(heap)@.push(
                ObjectView {
                    values: collected(values_view(obj@), obj@.len() as int),
                    prototype: Object::Null,
                    otype: None,
                },
            ),
            r == Object::Object(old(heap)@.len() as usize),
            final(heap).trace == old(heap).trace,
            keys_apart(old(heap)@) ==> keys_apart(final(heap)@),
    {
        heap.insert(ActualObject::from_map(obj))
    }

    /// A fresh callable object.
    pub fn from_function(func: Function, prototype: Object, heap: &mut Heap) -> (r: Object)
        ensures
            final(heap)@ == old(heap)@.push(
                ObjectView { values: Seq::empty(), prototype: prototype, otype: Some(func@) },
            ),
            r == Object::Object(old(heap)@.len() as usize),
            final(heap).trace == old(heap).trace,
    {
        heap.insert(ActualObject::from_function(func, prototype))
    }

    /// Assigns to the variable `key` as seen from this scope. A heap whose records kept
    /// their keys apart still does.
    pub fn outer_set(&self, key: &str, val: Value, heap: &mut Heap) -> (r: JSResult)
        ensures
            (result_view(r), final(heap)@) == outer_set_spec(old(heap)@, *self, key@, val@),
            final(heap).trace == old(heap).trace,
            keys_apart(old(heap)@) ==> keys_apart(final(heap)@),
    {
        proof {
            if keys_apart(old(heap)@) {
                law_writing_keeps_keys_apart(old(heap)@, *self, key@, val@);
            }
        }
        match heap.walk(*self, key) {
            Walked::Null => throw_string(text("null has no properties")),
            Walked::Found(owner, _) => Ok(heap.store(owner, key, val)),
            Walked::Missing(last) => Ok(heap.store(last, key, val)),
            Walked::Cycle => throw_string(text("cyclic prototype chain")),
        }
    }

    /// Reads the property `key` of this object.
    pub fn get(&self, key: &str, heap: &Heap) -> (r: JSResult)
        ensures
            result_view(r) == get_spec(heap@, *self, key@),
    {
        match heap.walk(*self, key) {
            Walked::Null => throw_string(text("null has no properties")),
            Walked::Found(_, v) => Ok(v),
            Walked::Missing(_) => Ok(Value::Undefined),
            Walked::Cycle => throw_string(text("cyclic prototype chain")),
        }
    }

    /// Reads the variable `key` as seen from this scope.
    pub fn get_or_err(&self, key: &str, heap: &Heap) -> (r: JSResult)
        ensures
            result_view(r) == get_or_err_spec(heap@, *self, key@),
    {
        match heap.walk(*self, key) {
            Walked::Null => throw_string(text("null has no properties")),
            Walked::Found(_, v) => Ok(v),
            Walked::Missing(_) => throw_string(concat(key, " is not defined")),
            Walked::Cycle => throw_string(text("cyclic prototype chain")),
        }
    }

    /// Sets the property `key` of this object itself. A heap whose records kept their keys
    /// apart still does.
    pub fn set(&self, key: &str, val: Value, heap: &mut Heap) -> (r: JSResult)
        ensures
            (result_view(r), final(heap)@) == set_spec(old(heap)@, *self, key@, val@),
            final(heap).trace == old(heap).trace,
            keys_apart(old(heap)@) ==> keys_apart(final(heap)@),
    {
        proof {
            if keys_apart(old(heap)@) {
                law_writing_keeps_keys_apart(old(heap)@, *self, key@, val@);
            }
        }
        match *self {
            Object::Object(i) => {
                if i < heap.len() {
                    Ok(heap.store(i, key, val))
                } else {
                    throw_string(text("null has no properties"))
                }
            },
            Object::Null => throw_string(text("null has no properties")),
        }
    }
}

} // verus!
