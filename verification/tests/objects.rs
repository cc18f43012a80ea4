use std::rc::Rc;

use ack::ast;
use ack::interpret::object::Walked;
use ack::interpret::{
    throw_string, ActualObject, Context, Function, Heap, JSResult, Native, Object,
    ObjectExtension, ToValue, UserFunction, Value,
};

fn number(n: f64) -> Value {
    Value::Number(n.to_bits())
}

fn string(s: &str) -> Value {
    Value::String(s.to_string())
}

fn chain(heap: &mut Heap) -> (Object, Object, Object) {
    let c = Object::new(heap);
    let b = Object::create(c, heap);
    let a = Object::create(b, heap);
    (a, b, c)
}

#[test]
fn get_gives_the_value_of_the_nearest_ancestor() {
    let mut heap = Heap::new();
    let (a, b, c) = chain(&mut heap);
    c.set("k", number(3.0), &mut heap).unwrap();
    assert_eq!(a.get("k", &heap), Ok(number(3.0)));
    b.set("k", number(2.0), &mut heap).unwrap();
    assert_eq!(a.get("k", &heap), Ok(number(2.0)));
    assert_eq!(c.get("k", &heap), Ok(number(3.0)));
    a.set("k", number(1.0), &mut heap).unwrap();
    assert_eq!(a.get("k", &heap), Ok(number(1.0)));
    assert_eq!(b.get("k", &heap), Ok(number(2.0)));
}

#[test]
fn missing_key_is_undefined_on_get_and_an_error_on_lookup() {
    let mut heap = Heap::new();
    let (a, _, c) = chain(&mut heap);
    assert_eq!(a.get("missing", &heap), Ok(Value::Undefined));
    assert_eq!(a.get_or_err("missing", &heap), Err(string("missing is not defined")));
    assert_eq!(c.get_or_err("missing", &heap), Err(string("missing is not defined")));
    c.set("found", number(1.0), &mut heap).unwrap();
    assert_eq!(a.get_or_err("found", &heap), Ok(number(1.0)));
}

#[test]
fn set_writes_the_receiver_and_never_the_prototype() {
    let mut heap = Heap::new();
    let (a, b, c) = chain(&mut heap);
    c.set("k", number(3.0), &mut heap).unwrap();
    assert_eq!(a.set("k", number(1.0), &mut heap), Ok(number(1.0)));
    assert_eq!(c.get("k", &heap), Ok(number(3.0)));
    assert_eq!(b.get("k", &heap), Ok(number(3.0)));
    assert_eq!(a.get("k", &heap), Ok(number(1.0)));
}

#[test]
fn outer_set_rewrites_the_nearest_binding() {
    let mut heap = Heap::new();
    let (a, b, c) = chain(&mut heap);
    c.set("k", number(3.0), &mut heap).unwrap();
    b.set("k", number(2.0), &mut heap).unwrap();
    assert_eq!(a.outer_set("k", number(9.0), &mut heap), Ok(number(9.0)));
    assert_eq!(b.get("k", &heap), Ok(number(9.0)));
    assert_eq!(c.get("k", &heap), Ok(number(3.0)));
    assert_eq!(heap.objects[2].values.len(), 0);
}

#[test]
fn outer_set_creates_on_the_outermost_object() {
    let mut heap = Heap::new();
    let (a, b, c) = chain(&mut heap);
    assert_eq!(a.outer_set("fresh", number(1.0), &mut heap), Ok(number(1.0)));
    assert_eq!(c.get("fresh", &heap), Ok(number(1.0)));
    assert_eq!(heap.objects[0].values.len(), 1);
    assert_eq!(heap.objects[1].values.len(), 0);
    assert_eq!(heap.objects[2].values.len(), 0);
    assert_eq!(b.get_or_err("fresh", &heap), Ok(number(1.0)));
}

#[test]
fn null_handle_fails_every_access() {
    let mut heap = Heap::new();
    let null = Object::Null;
    assert_eq!(null.get("k", &heap), Err(string("null has no properties")));
    assert_eq!(null.get_or_err("k", &heap), Err(string("null has no properties")));
    assert_eq!(null.set("k", number(1.0), &mut heap), Err(string("null has no properties")));
    assert_eq!(null.outer_set("k", number(1.0), &mut heap), Err(string("null has no properties")));
    assert_eq!(heap.len(), 0);
}

#[test]
fn handle_that_names_nothing_behaves_as_null() {
    let mut heap = Heap::new();
    let stray = Object::Object(5);
    assert!(!heap.has(stray));
    assert_eq!(stray.get("k", &heap), Err(string("null has no properties")));
    assert_eq!(stray.set("k", number(1.0), &mut heap), Err(string("null has no properties")));
    let child = Object::create(stray, &mut heap);
    assert!(heap.has(child));
    assert_eq!(child.get("k", &heap), Ok(Value::Undefined));
    assert_eq!(child.outer_set("k", number(1.0), &mut heap), Ok(number(1.0)));
    assert_eq!(child.get("k", &heap), Ok(number(1.0)));
}

#[test]
fn chain_that_runs_in_a_circle_is_reported() {
    let mut heap = Heap::new();
    let a = Object::new(&mut heap);
    let b = Object::create(a, &mut heap);
    heap.objects[0].prototype = b;
    b.set("on_b", number(1.0), &mut heap).unwrap();
    assert_eq!(a.get("on_b", &heap), Ok(number(1.0)));
    assert_eq!(a.get("nowhere", &heap), Err(string("cyclic prototype chain")));
    assert_eq!(a.get_or_err("nowhere", &heap), Err(string("cyclic prototype chain")));
    assert_eq!(
        a.outer_set("nowhere", number(1.0), &mut heap),
        Err(string("cyclic prototype chain"))
    );
    assert!(matches!(heap.walk(a, "nowhere"), Walked::Cycle));
    heap.objects[0].prototype = a;
    assert_eq!(a.get("nowhere", &heap), Err(string("cyclic prototype chain")));
}

#[test]
fn walk_names_the_owner() {
    let mut heap = Heap::new();
    let (a, _, c) = chain(&mut heap);
    c.set("k", string("v"), &mut heap).unwrap();
    match heap.walk(a, "k") {
        Walked::Found(owner, value) => {
            assert_eq!(Object::Object(owner), c);
            assert_eq!(value, string("v"));
        }
        _ => panic!("expected the key to be found"),
    }
    assert!(matches!(heap.walk(a, "other"), Walked::Missing(0)));
    assert!(matches!(heap.walk(Object::Null, "k"), Walked::Null));
}

#[test]
fn record_keeps_one_entry_for_each_key() {
    let mut record = ActualObject::new();
    assert_eq!(record.own("a"), None);
    assert_eq!(record.set("a", number(1.0)), number(1.0));
    assert_eq!(record.set("b", number(2.0)), number(2.0));
    assert_eq!(record.set("a", number(3.0)), number(3.0));
    assert_eq!(record.values.len(), 2);
    assert_eq!(record.own("a"), Some(number(3.0)));
    assert_eq!(record.own("b"), Some(number(2.0)));
    assert_eq!(record.values[0].0, "a");
    assert_eq!(record.values[1].0, "b");
}

#[test]
fn record_from_map_takes_the_later_of_two_equal_keys() {
    let record = ActualObject::from_map(vec![
        ("a".to_string(), number(1.0)),
        ("b".to_string(), number(2.0)),
        ("a".to_string(), number(3.0)),
    ]);
    assert_eq!(record.values.len(), 2);
    assert_eq!(record.own("a"), Some(number(3.0)));
    assert_eq!(record.prototype, Object::Null);
    assert!(matches!(record.otype, ObjectExtension::Plain));
    let mut heap = Heap::new();
    let object = Object::from_map(vec![("x".to_string(), string("y"))], &mut heap);
    assert_eq!(object.get("x", &heap), Ok(string("y")));
    assert_eq!(heap.objects[0].prototype, Object::Null);
}

#[test]
fn record_constructors() {
    let plain = ActualObject::create(Object::Object(7));
    assert_eq!(plain.prototype, Object::Object(7));
    assert_eq!(plain.values.len(), 0);
    let callable = ActualObject::from_function(
        Function::Native("f".to_string(), Native::ObjectToString),
        Object::Object(1),
    );
    assert_eq!(callable.prototype, Object::Object(1));
    assert!(matches!(
        callable.otype,
        ObjectExtension::Function(Function::Native(_, Native::ObjectToString))
    ));
}

#[test]
fn handles_are_given_in_order() {
    let mut heap = Heap::new();
    assert_eq!(Object::new(&mut heap), Object::Object(0));
    assert_eq!(Object::create(Object::Null, &mut heap), Object::Object(1));
    assert_eq!(heap.insert(ActualObject::new()), Object::Object(2));
    let f = Object::from_function(
        Function::Native("f".to_string(), Native::Host(3)),
        Object::Object(0),
        &mut heap,
    );
    assert_eq!(f, Object::Object(3));
    assert_eq!(
        Value::from_function(
            Function::Native("g".to_string(), Native::Host(4)),
            Object::Object(0),
            &mut heap
        ),
        Value::Object(Object::Object(4))
    );
    assert_eq!(heap.len(), 5);
    assert_eq!(Object::Object(2), Object::Object(2));
    assert_ne!(Object::Object(2), Object::Object(3));
    assert_ne!(Object::Object(0), Object::Null);
    assert_eq!(Object::Null, Object::Null);
}

#[test]
fn value_get_and_set() {
    let mut heap = Heap::new();
    let global = Object::new(&mut heap);
    let object = Value::Object(Object::new(&mut heap));
    assert_eq!(object.set("k", number(1.0), &mut heap), Ok(number(1.0)));
    assert_eq!(object.get("k", global, &heap), Ok(number(1.0)));
    assert_eq!(number(1.0).set("k", number(1.0), &mut heap), Ok(Value::Undefined));
    assert_eq!(string("s").set("k", number(1.0), &mut heap), Ok(Value::Undefined));
    assert_eq!(Value::Boolean(true).set("k", number(1.0), &mut heap), Ok(Value::Undefined));
    assert_eq!(
        Value::Undefined.set("k", number(1.0), &mut heap),
        Err(string("undefined has no properties"))
    );
    assert_eq!(
        Value::Undefined.get("k", global, &heap),
        Err(string("undefined has no properties"))
    );
    assert_eq!(
        Value::Object(Object::Null).get("k", global, &heap),
        Err(string("null has no properties"))
    );
}

#[test]
fn value_get_of_a_primitive_goes_through_the_global_object() {
    let mut heap = Heap::new();
    let global = Object::new(&mut heap);
    assert_eq!(number(1.0).get("k", global, &heap), Err(string("undefined has no properties")));
    let prototype = Object::new(&mut heap);
    prototype.set("k", string("from prototype"), &mut heap).unwrap();
    let constructor = Object::new(&mut heap);
    constructor.set("prototype", Value::Object(prototype), &mut heap).unwrap();
    global.set("Number", Value::Object(constructor), &mut heap).unwrap();
    assert_eq!(number(1.0).get("k", global, &heap), Ok(string("from prototype")));
    assert_eq!(number(1.0).get("other", global, &heap), Ok(Value::Undefined));
    assert_eq!(string("s").get("k", global, &heap), Err(string("undefined has no properties")));
    global.set("Boolean", Value::Object(constructor), &mut heap).unwrap();
    assert_eq!(Value::Boolean(false).get("k", global, &heap), Ok(string("from prototype")));
    global.set("String", number(5.0), &mut heap).unwrap();
    assert_eq!(string("s").get("k", global, &heap), Err(string("undefined has no properties")));
    prototype.set("prototype", Value::Object(prototype), &mut heap).unwrap();
    assert_eq!(string("s").get("k", global, &heap), Ok(string("from prototype")));
    global.set("Number", number(5.0), &mut heap).unwrap();
    assert_eq!(number(1.0).get("k", global, &heap), Err(string("too much recursion")));
}

#[test]
fn function_texts() {
    let native = Function::Native("log".to_string(), Native::ConsoleLog);
    assert_eq!(native.debug_string(), "function log()");
    assert_eq!(native.to_string(), "function log() { [native code] }");
    let body = ast::InnerBlock { block: vec![], return_exp: None };
    let named = Function::User(UserFunction::new(
        Rc::new(ast::Function {
            id: Some("f".to_string()),
            parameters: vec!["a".to_string()],
            body,
            source: "function f(a) {}".to_string(),
        }),
        Object::Null,
    ));
    assert_eq!(named.debug_string(), "function f()");
    assert_eq!(named.to_string(), "function f(a) {}");
    let body = ast::InnerBlock { block: vec![], return_exp: None };
    let anonymous = Function::User(UserFunction::new(
        Rc::new(ast::Function {
            id: None,
            parameters: vec![],
            body,
            source: "function () {}".to_string(),
        }),
        Object::Object(2),
    ));
    assert_eq!(anonymous.debug_string(), "function()");
    assert_eq!(anonymous.to_string(), "function () {}");
    match anonymous.clone() {
        Function::User(user) => assert_eq!(user.local, Object::Object(2)),
        _ => panic!("expected a function of the script"),
    }
}

#[test]
fn context_new_uses_one_object_for_all() {
    let context = Context::new(Object::Object(4));
    assert_eq!(context.this, Value::Object(Object::Object(4)));
    assert_eq!(context.local, Object::Object(4));
    assert_eq!(context.global, Object::Object(4));
    let copy = context.clone();
    assert_eq!(copy.this, context.this);
    assert_eq!(copy.local, context.local);
}

#[test]
fn throw_string_wraps_the_text() {
    let thrown: JSResult = throw_string("nope".to_string());
    assert_eq!(thrown, Err(string("nope")));
    let other: Result<String, Value> = throw_string("again".to_string());
    assert_eq!(other, Err(string("again")));
}

#[test]
fn to_value_wraps_a_handle_and_copies_a_value() {
    assert_eq!(Object::Object(3).to_value(), Value::Object(Object::Object(3)));
    assert_eq!(Object::Null.to_value(), Value::Object(Object::Null));
    assert_eq!(string("s").to_value(), string("s"));
    assert_eq!(number(1.5).to_value(), number(1.5));
    assert_eq!(Value::Undefined.to_value(), Value::Undefined);
}

#[test]
fn heap_knows_its_handles() {
    let mut heap = Heap::new();
    assert_eq!(heap.len(), 0);
    assert!(!heap.has(Object::Object(0)));
    assert!(!heap.has(Object::Null));
    let a = Object::new(&mut heap);
    assert!(heap.has(a));
    assert!(!heap.has(Object::Object(1)));
    assert_eq!(heap.len(), 1);
}

#[test]
fn callable_gives_the_function_of_an_object() {
    let mut heap = Heap::new();
    let plain = Value::Object(Object::new(&mut heap));
    assert!(plain.callable(&heap).is_none());
    assert!(number(1.0).callable(&heap).is_none());
    assert!(Value::Object(Object::Null).callable(&heap).is_none());
    assert!(Value::Object(Object::Object(9)).callable(&heap).is_none());
    let f = Value::from_function(
        Function::Native("f".to_string(), Native::Host(7)),
        Object::Null,
        &mut heap,
    );
    assert!(matches!(f.callable(&heap), Some(Function::Native(name, Native::Host(7))) if name == "f"));
}

#[test]
fn get_follows_a_chain_of_any_length() {
    let mut heap = Heap::new();
    let mut handles = vec![Object::new(&mut heap)];
    for _ in 0..40 {
        let below = *handles.last().unwrap();
        handles.push(Object::create(below, &mut heap));
    }
    let nearest = *handles.last().unwrap();
    assert_eq!(nearest.get("k", &heap), Ok(Value::Undefined));
    assert_eq!(nearest.get_or_err("k", &heap), Err(string("k is not defined")));
    handles[0].set("k", number(0.0), &mut heap).unwrap();
    assert_eq!(nearest.get("k", &heap), Ok(number(0.0)));
    handles[17].set("k", number(17.0), &mut heap).unwrap();
    assert_eq!(nearest.get("k", &heap), Ok(number(17.0)));
    assert_eq!(handles[16].get("k", &heap), Ok(number(0.0)));
    handles[30].set("k", number(30.0), &mut heap).unwrap();
    assert_eq!(nearest.get("k", &heap), Ok(number(30.0)));
    assert_eq!(handles[29].get("k", &heap), Ok(number(17.0)));
    assert_eq!(heap.len(), 41);
}

fn keys_are_apart(heap: &Heap) -> bool {
    heap.objects.iter().all(|record| {
        let keys: Vec<&String> = record.values.iter().map(|entry| &entry.0).collect();
        keys.iter().enumerate().all(|(i, key)| !keys[..i].contains(key))
    })
}

#[test]
fn writing_keeps_the_keys_of_a_record_apart() {
    let mut heap = Heap::new();
    let (a, _, c) = chain(&mut heap);
    for round in 0..3 {
        for key in ["x", "y", "x", "z", "y"] {
            a.set(key, number(round as f64), &mut heap).unwrap();
            a.outer_set(key, number(1.0), &mut heap).unwrap();
            a.outer_set("fresh", number(2.0), &mut heap).unwrap();
        }
    }
    let made = Object::from_map(
        vec![
            ("x".to_string(), number(1.0)),
            ("y".to_string(), number(2.0)),
            ("x".to_string(), number(3.0)),
        ],
        &mut heap,
    );
    assert!(keys_are_apart(&heap));
    assert_eq!(heap.objects[0].values.len(), 1);
    assert_eq!(heap.objects[2].values.len(), 3);
    assert_eq!(heap.objects[3].values.len(), 2);
    assert_eq!(made.get("x", &heap), Ok(number(3.0)));
    assert_eq!(c.get("fresh", &heap), Ok(number(2.0)));
}
