//! Values of the language and what can be told of one without a heap.

use vstd::prelude::*;
use vstd::string::*;
use crate::host::Host;
use crate::number;

verus! {

/// A handle to an object record of a heap, or the null handle. Two handles are equal when
/// they name the same record. A handle that names no record of the heap it is used with
/// behaves as the null handle does.
#[derive(Clone, Copy, Debug, PartialEq, Eq, Structural)]
pub enum Object {
    Object(usize),
    Null,
}

/// A value of the language. A number is held as its binary64 bit pattern.
#[derive(Debug)]
pub enum Value {
    Number(u64),
    Boolean(bool),
    String(String),
    Object(Object),
    Undefined,
}

/// A value with its text as a sequence of characters.
pub enum ValueView {
    Number(u64),
    Boolean(bool),
    String(Seq<char>),
    Object(Object),
    Undefined,
}

/// What an expression or a call gives: a value, or a thrown value.
pub type JSResult = Result<Value, Value>;

impl View for Value {
    type V = ValueView;

    open spec fn view(&self) -> ValueView {
        match self {
            Value::Number(n) => ValueView::Number(*n),
            Value::Boolean(b) => ValueView::Boolean(*b),
            Value::String(s) => ValueView::String(s@),
            Value::Object(o) => ValueView::Object(*o),
            Value::Undefined => ValueView::Undefined,
        }
    }
}

impl Clone for Value {
    fn clone(&self) -> (r: Value)
        ensures
            r == *self,
    {
        match self {
            Value::Number(n) => Value::Number(*n),
            Value::Boolean(b) => Value::Boolean(*b),
            Value::String(s) => Value::String(s.clone()),
            Value::Object(o) => Value::Object(*o),
            Value::Undefined => Value::Undefined,
        }
    }
}

impl ValueView {
    /// Strict equality: the same variant with the same payload, numbers compared as numbers
    /// and objects by identity.
    pub open spec fn strict_equals(self, right: ValueView) -> bool {
        match (self, right) {
            (ValueView::Number(a), ValueView::Number(b)) => number::equal_spec(a, b),
            (ValueView::Boolean(a), ValueView::Boolean(b)) => a == b,
            (ValueView::String(a), ValueView::String(b)) => a == b,
            (ValueView::Object(a), ValueView::Object(b)) => a == b,
            (ValueView::Undefined, ValueView::Undefined) => true,
            _ => false,
        }
    }

    /// The number that a value coerces to without a question to the host: a number itself;
    /// one or zero for a boolean; a not-a-number for an object and for undefined. Also a
    /// not-a-number for a string, of which it is the host that says what its text
    /// denotes.
    pub open spec fn fixed_number(self) -> u64 {
        match self {
            ValueView::Number(n) => n,
            ValueView::Boolean(b) => number::from_bool_spec(b),
            _ => number::NAN,
        }
    }

    /// Truthiness: a number that is neither zero nor a not-a-number; a boolean itself; a
    /// string that is not empty; every object; not undefined.
    pub open spec fn to_boolean(self) -> bool {
        match self {
            ValueView::Number(n) => !number::is_zero_spec(n) && !number::is_nan_spec(n),
            ValueView::Boolean(b) => b,
            ValueView::String(s) => s.len() != 0,
            ValueView::Object(_) => true,
            ValueView::Undefined => false,
        }
    }

    /// The simple textual form: the text of a string, and the empty text of anything else.
    pub open spec fn to_text(self) -> Seq<char> {
        match self {
            ValueView::String(s) => s,
            _ => Seq::empty(),
        }
    }
}

impl Value {
    /// Strict equality of two values.
    pub fn strict_equals(&self, right: &Value) -> (r: bool)
        ensures
            r == self@.strict_equals(right@),
    {
        match (self, right) {
            (Value::Number(a), Value::Number(b)) => number::equal(*a, *b),
            (Value::Boolean(a), Value::Boolean(b)) => *a == *b,
            (Value::String(a), Value::String(b)) => *a == *b,
            (Value::Object(a), Value::Object(b)) => *a == *b,
            (Value::Undefined, Value::Undefined) => true,
            _ => false,
        }
    }

    /// The number this value coerces to. For a string it is what the host reads its text
    /// as, whatever that is.
    pub fn to_number<H: Host>(&self, host: &H) -> (r: u64)
        ensures
            !(self@ is String) ==> r == self@.fixed_number(),
    {
        match self {
            Value::Number(n) => *n,
            Value::Boolean(b) => number::from_bool(*b),
            Value::String(s) => host.number_parse(s.as_str()),
            Value::Object(_) => number::NAN,
            Value::Undefined => number::NAN,
        }
    }

    /// Whether this value counts as true.
    pub fn to_boolean(&self) -> (r: bool)
        ensures
            r == self@.to_boolean(),
    {
        match self {
            Value::Number(n) => !number::is_zero(*n) && !number::is_nan(*n),
            Value::Boolean(b) => *b,
            Value::String(s) => !s.as_str().is_empty(),
            Value::Object(_) => true,
            Value::Undefined => false,
        }
    }

    /// The simple textual form of this value.
    pub fn to_string(&self) -> (r: String)
        ensures
            r@ == self@.to_text(),
    {
        match self {
            Value::String(s) => s.clone(),
            _ => String::new(),
        }
    }
}

impl PartialEq for Value {
    fn eq(&self, other: &Value) -> (r: bool) {
        self.strict_equals(other)
    }
}

impl vstd::std_specs::cmp::PartialEqSpecImpl for Value {
    open spec fn obeys_eq_spec() -> bool {
        true
    }

    open spec fn eq_spec(&self, other: &Value) -> bool {
        self@.strict_equals(other@)
    }
}

/// What can be made into a value.
pub trait ToValue {
    /// This, as a value.
    fn to_value(&self) -> Value;
}

impl ToValue for Object {
    fn to_value(&self) -> (r: Value)
        ensures
            r == Value::Object(*self),
    {
        Value::Object(*self)
    }
}

impl ToValue for Value {
    fn to_value(&self) -> (r: Value)
        ensures
            r == *self,
    {
        self.clone()
    }
}

/// The calling state of the interpreter: the value of `this`, the scope in which names are
/// looked up, and the global object.
#[derive(Debug)]
pub struct Context {
    pub this: Value,
    pub local: Object,
    pub global: Object,
}

/// A calling state with its value of `this` as a view.
pub struct ContextView {
    pub this: ValueView,
    pub local: Object,
    pub global: Object,
}

impl View for Context {
    type V = ContextView;

    open spec fn view(&self) -> ContextView {
        ContextView { this: self.this@, local: self.local, global: self.global }
    }
}

impl Clone for Context {
    fn clone(&self) -> (r: Context)
        ensures
            r == *self,
    {
        Context { this: self.this.clone(), local: self.local, global: self.global }
    }
}

impl Context {
    /// A top-level context: `this`, the scope and the global object are all `obj`.
    pub fn new(obj: Object) -> (r: Context)
        ensures
            r == (Context { this: Value::Object(obj), local: obj, global: obj }),
    {
        Context { this: Value::Object(obj), local: obj, global: obj }
    }
}

/// How a statement completes: normally with its value, by returning a value from the
/// enclosing function, or by throwing a value.
#[must_use]
#[derive(Debug)]
pub enum Tri {
    Continue(Value),
    Return(Value),
    Error(Value),
}

/// A completion with its value as a view.
pub enum TriView {
    Continue(ValueView),
    Return(ValueView),
    Error(ValueView),
}

impl View for Tri {
    type V = TriView;

    open spec fn view(&self) -> TriView {
        match self {
            Tri::Continue(v) => TriView::Continue(v@),
            Tri::Return(v) => TriView::Return(v@),
            Tri::Error(v) => TriView::Error(v@),
        }
    }
}

/// A result with its values as views.
pub open spec fn result_view(r: JSResult) -> Result<ValueView, ValueView> {
    match r {
        Ok(v) => Ok(v@),
        Err(e) => Err(e@),
    }
}

/// The failure that throws the text `err`.
pub fn throw_string<T>(err: String) -> (r: Result<T, Value>)
    ensures
        r == Err::<T, Value>(Value::String(err)),
{
    Err(Value::String(err))
}

} // verus!
