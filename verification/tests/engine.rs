use std::cell::Cell;

use ack::host::Host;
use ack::interpret::{Context, Function, Heap, JSResult, Native, Object, Value};
use ack::runtime::Ack;

const ASSERT_EQ: u64 = 0;
const SIDE_EFFECT: u64 = 1;
const CALL_BACK: u64 = 2;
const COUNTED_ASSERT_EQ: u64 = 3;
const COUNT: &str = "__assert_eq_call_count";

const SCRIPTS: [(&str, f64); 6] = [
    ("assert_eq(1 + 2, 3); assert_eq(\"a\" + \"b\", \"ab\"); assert_eq(7 / 2, 3.5);", 3.0),
    (
        "function fact(n){ return n && n * fact(n - 1) || 1; } \
         assert_eq(fact(0), 1); assert_eq(fact(5), 120);",
        2.0,
    ),
    (
        "var o = { a: 1 }; var p = Object.create(o); p.b = 2; \
         assert_eq(p.a + p.b, 3); assert_eq(o.b, undefined); var q = p; assert_eq(p, q);",
        3.0,
    ),
    (
        "var c = 0; function inc(){ c = c + 1; return c; } inc(); inc(); \
         assert_eq(c, 2); assert_eq(inc(), 3);",
        2.0,
    ),
    (
        "function mk(){ var n = 10; function g(){ return n; } return g; } \
         assert_eq(mk()(), 10); assert_eq(eval(\"1 + 1\"), 2); \
         assert_eq(true ? \"y\" : \"n\", \"y\"); assert_eq(!0, true);",
        4.0,
    ),
    ("", 0.0),
];

struct Machine {
    calls: Cell<u32>,
    lines: std::cell::RefCell<Vec<String>>,
}

impl Machine {
    fn new() -> Machine {
        Machine { calls: Cell::new(0), lines: std::cell::RefCell::new(Vec::new()) }
    }
}

impl Host for Machine {
    fn number_add(&self, left: u64, right: u64) -> u64 {
        (f64::from_bits(left) + f64::from_bits(right)).to_bits()
    }

    fn number_subtract(&self, left: u64, right: u64) -> u64 {
        (f64::from_bits(left) - f64::from_bits(right)).to_bits()
    }

    fn number_multiply(&self, left: u64, right: u64) -> u64 {
        (f64::from_bits(left) * f64::from_bits(right)).to_bits()
    }

    fn number_divide(&self, left: u64, right: u64) -> u64 {
        (f64::from_bits(left) / f64::from_bits(right)).to_bits()
    }

    fn number_parse(&self, text: &str) -> u64 {
        text.parse::<f64>().unwrap_or(f64::NAN).to_bits()
    }

    fn number_format(&self, bits: u64) -> String {
        f64::from_bits(bits).to_string()
    }

    fn print(&self, line: &str) {
        self.lines.borrow_mut().push(line.to_string());
    }

    fn call(
        &self,
        native: u64,
        arguments: Vec<Value>,
        context: Context,
        heap: &mut Heap,
        depth: usize,
    ) -> JSResult {
        match native {
            ASSERT_EQ => {
                let undefined = Value::Undefined;
                let a = arguments.get(0).unwrap_or(&undefined);
                let b = arguments.get(1).unwrap_or(&undefined);
                if a.strict_equals(b) {
                    Ok(Value::Undefined)
                } else {
                    Err(Value::String(format!(
                        "{} !== {}",
                        a.debug_string(heap, self),
                        b.debug_string(heap, self)
                    )))
                }
            }
            SIDE_EFFECT => {
                self.calls.set(self.calls.get() + 1);
                Ok(Value::Boolean(true))
            }
            COUNTED_ASSERT_EQ => {
                let calls = match context.global.get(COUNT, heap) {
                    Ok(Value::Number(n)) => f64::from_bits(n),
                    _ => 0.0,
                };
                context
                    .global
                    .set(COUNT, number(calls + 1.0), heap)
                    .unwrap_or(Value::Undefined);
                self.call(ASSERT_EQ, arguments, context, heap, depth)
            }
            CALL_BACK => {
                let callee = arguments.get(0).cloned().unwrap_or(Value::Undefined);
                callee.apply(vec![number(7.0)], context, heap, self, depth)
            }
            _ => Err(Value::String("no such native".to_string())),
        }
    }
}

fn number(n: f64) -> Value {
    Value::Number(n.to_bits())
}

fn string(s: &str) -> Value {
    Value::String(s.to_string())
}

fn engine() -> Ack {
    let mut ack = Ack::create_stdlib();
    register(&mut ack, "assert_eq", ASSERT_EQ);
    register(&mut ack, "side_effect", SIDE_EFFECT);
    register(&mut ack, "call_back", CALL_BACK);
    ack
}

fn register(ack: &mut Ack, name: &str, native: u64) {
    let prototype = Object::Object(ack::runtime::FUNCTION_PROTOTYPE);
    let function = Value::from_function(
        Function::Native(name.to_string(), Native::Host(native)),
        prototype,
        &mut ack.heap,
    );
    ack.context.global.set(name, function, &mut ack.heap).unwrap();
}

fn run(source: &str) -> JSResult {
    engine().eval(&Machine::new(), source)
}

fn thrown_text(result: JSResult) -> String {
    match result {
        Err(Value::String(s)) => s,
        other => panic!("expected a thrown text, got {:?}", other),
    }
}

#[test]
fn a_declared_sum_is_read_back() {
    assert_eq!(run("var x = 40 + 2; x"), Ok(number(42.0)));
}

#[test]
fn factorial_by_recursion() {
    assert_eq!(
        run("function fact(n){ return n && n * fact(n-1) || 1; } fact(5)"),
        Ok(number(120.0))
    );
}

#[test]
fn properties_of_object_and_prototype_add_up() {
    assert_eq!(
        run("var o = { a: 1 }; var p = Object.create(o); p.b = 2; p.a + p.b"),
        Ok(number(3.0))
    );
}

#[test]
fn a_function_counts_in_an_outer_variable() {
    assert_eq!(run("var c = 0; function inc(){ c = c + 1; } inc(); inc(); c"), Ok(number(2.0)));
}

#[test]
fn a_thrown_text_is_the_error() {
    assert_eq!(run("throw \"nope\""), Err(string("nope")));
}

#[test]
fn undefined_has_no_properties() {
    assert!(thrown_text(run("undefined.x")).contains("undefined has no properties"));
}

#[test]
fn a_string_joins_a_sum_in_parentheses() {
    assert_eq!(run("\"x\" + (1 + 2)"), Ok(string("x3")));
}

#[test]
fn eval_evaluates_its_text() {
    assert_eq!(run("eval(\"1 + 1\")"), Ok(number(2.0)));
}

#[test]
fn assignment_rewrites_the_outer_binding() {
    assert_eq!(run("var x = 1; function f(){ x = 2; } f(); x"), Ok(number(2.0)));
}

#[test]
fn assignment_without_binding_creates_a_global() {
    assert_eq!(run("function g(){ y = 3; } g(); y"), Ok(number(3.0)));
}

#[test]
fn declaration_in_a_function_does_not_touch_the_outer_binding() {
    assert_eq!(run("var x = 1; function f(){ var x = 2; } f(); x"), Ok(number(1.0)));
}

#[test]
fn closure_captures_its_scope() {
    assert_eq!(
        run("function mk(){ var n = 10; function g(){ return n; } return g; } mk()()"),
        Ok(number(10.0))
    );
}

#[test]
fn closures_share_one_scope() {
    assert_eq!(
        run("function mk(){ var n = 0; return { up: function(){ n = n + 1; return n; } }; } \
             var c = mk(); c.up(); c.up()"),
        Ok(number(2.0))
    );
}

#[test]
fn and_does_not_evaluate_the_right_side_of_false() {
    let mut ack = engine();
    let machine = Machine::new();
    assert_eq!(ack.eval(&machine, "false && side_effect()"), Ok(Value::Boolean(false)));
    assert_eq!(machine.calls.get(), 0);
}

#[test]
fn or_does_not_evaluate_the_right_side_of_true() {
    let mut ack = engine();
    let machine = Machine::new();
    assert_eq!(ack.eval(&machine, "true || side_effect()"), Ok(Value::Boolean(true)));
    assert_eq!(machine.calls.get(), 0);
}

#[test]
fn and_evaluates_the_right_side_of_true() {
    let mut ack = engine();
    let machine = Machine::new();
    assert_eq!(ack.eval(&machine, "true && side_effect()"), Ok(Value::Boolean(true)));
    assert_eq!(machine.calls.get(), 1);
}

#[test]
fn or_gives_false_for_two_falsy_sides() {
    assert_eq!(run("0 || \"\""), Ok(Value::Boolean(false)));
    assert_eq!(run("0 || 5"), Ok(number(5.0)));
    assert_eq!(run("1 && 0"), Ok(Value::Boolean(false)));
    assert_eq!(run("1 && 2"), Ok(number(2.0)));
}

#[test]
fn number_plus_string_joins() {
    assert_eq!(run("1 + \"2\""), Ok(string("12")));
}

#[test]
fn string_plus_object_joins() {
    assert_eq!(
        run("\"a\" + Object.create(Object.prototype)"),
        Ok(string("a[object Object]"))
    );
    assert_eq!(run("console + \"a\""), Ok(string("[object Object]a")));
}

#[test]
fn object_literal_has_no_prototype_and_so_no_text() {
    assert_eq!(run("\"a\" + {}"), Err(string("can't convert {} to primitive type")));
}

#[test]
fn number_plus_number_adds() {
    assert_eq!(run("1 + 2"), Ok(number(3.0)));
}

#[test]
fn sum_that_is_not_finite_falls_back_to_text() {
    assert_eq!(run("var u; u + 1"), Err(string("can't convert undefined to primitive type")));
    assert_eq!(run("(1 / 0) + 1"), Ok(string("inf1")));
    assert_eq!(run("true + 1"), Ok(number(2.0)));
}

#[test]
fn arithmetic_on_numbers() {
    assert_eq!(run("7 - 2"), Ok(number(5.0)));
    assert_eq!(run("7 * 2"), Ok(number(14.0)));
    assert_eq!(run("7 / 2"), Ok(number(3.5)));
    assert_eq!(run("2 + 3 * 4 - 6 / 2"), Ok(number(11.0)));
    assert_eq!(run("(2 + 3) * 4"), Ok(number(20.0)));
    assert_eq!(run("10 - 4 - 3"), Ok(number(3.0)));
    assert_eq!(run("0.5 + 0.25"), Ok(number(0.75)));
}

#[test]
fn arithmetic_coerces_its_operands() {
    assert_eq!(run("\"5\" * 2"), Ok(number(10.0)));
    assert_eq!(run("true - false"), Ok(number(1.0)));
    match run("\"five\" * 2") {
        Ok(Value::Number(bits)) => assert!(f64::from_bits(bits).is_nan()),
        other => panic!("expected a number, got {:?}", other),
    }
    match run("({}) - 1") {
        Ok(Value::Number(bits)) => assert!(f64::from_bits(bits).is_nan()),
        other => panic!("expected a number, got {:?}", other),
    }
}

#[test]
fn prefix_operators() {
    assert_eq!(run("-3"), Ok(number(-3.0)));
    assert_eq!(run("+\"4\""), Ok(number(4.0)));
    assert_eq!(run("- -3"), Ok(number(3.0)));
    assert_eq!(run("!0"), Ok(Value::Boolean(true)));
    assert_eq!(run("!\"a\""), Ok(Value::Boolean(false)));
    assert_eq!(run("!{}"), Ok(Value::Boolean(false)));
    assert_eq!(run("!undefined"), Ok(Value::Boolean(true)));
    assert_eq!(run("!(0 / 0)"), Ok(Value::Boolean(true)));
    assert_eq!(run("-0"), Ok(Value::Number((-0.0f64).to_bits())));
}

#[test]
fn ternary_chooses_a_branch() {
    assert_eq!(run("1 ? \"yes\" : \"no\""), Ok(string("yes")));
    assert_eq!(run("\"\" ? \"yes\" : \"no\""), Ok(string("no")));
    assert_eq!(run("0 ? side_effect() : 2"), Ok(number(2.0)));
}

#[test]
fn this_is_the_receiver_of_a_method_call() {
    let mut ack = engine();
    let machine = Machine::new();
    let called = ack.eval(&machine, "var obj = { m: function(){ return this; } }; obj.m()");
    let object = ack.eval(&machine, "obj");
    assert!(matches!(called, Ok(Value::Object(Object::Object(_)))));
    assert_eq!(called, object);
}

#[test]
fn this_is_the_global_object_in_a_bare_call() {
    let mut ack = engine();
    let machine = Machine::new();
    let called = ack.eval(&machine, "function f(){ return this; } f()");
    assert_eq!(called, Ok(Value::Object(ack.context.global)));
    assert_eq!(ack.eval(&machine, "this"), Ok(Value::Object(ack.context.global)));
}

#[test]
fn the_receiver_of_a_method_call_is_evaluated_twice() {
    let mut ack = engine();
    let machine = Machine::new();
    let result = ack.eval(
        &machine,
        "var n = 0; function pick(){ n = n + 1; return { m: function(){ return 1; } }; } \
         pick().m(); n",
    );
    assert_eq!(result, Ok(number(2.0)));
}

#[test]
fn a_throw_in_a_nested_call_reaches_the_top() {
    assert_eq!(
        run("function f(){ throw \"boom\"; } function g(){ f(); return 1; } g()"),
        Err(string("boom"))
    );
}

#[test]
fn a_thrown_object_keeps_its_identity() {
    let mut ack = engine();
    let machine = Machine::new();
    let thrown = ack.eval(
        &machine,
        "var e = { code: 1 }; function f(){ throw e; } function g(){ f(); } g()",
    );
    let object = ack.eval(&machine, "e");
    assert!(matches!(thrown, Err(Value::Object(Object::Object(_)))));
    assert_eq!(thrown.unwrap_err(), object.unwrap());
}

#[test]
fn a_throw_ends_the_block() {
    assert_eq!(run("var x = 1; throw x; x = 2;"), Err(number(1.0)));
    assert_eq!(run("throw 1 + 1"), Err(number(2.0)));
}

#[test]
fn an_object_equals_itself_only() {
    assert_eq!(run("var a = {}; var b = a; assert_eq(a, b);"), Ok(Value::Undefined));
    assert_eq!(thrown_text(run("assert_eq({}, {})")), "{} !== {}");
    assert_eq!(run("assert_eq(1, 1); assert_eq(\"a\", \"a\"); assert_eq(null, null)"),
        Ok(Value::Undefined));
    assert_eq!(thrown_text(run("assert_eq(1, \"1\")")), "1 !== 1");
    assert_eq!(thrown_text(run("assert_eq(0 / 0, 0 / 0)")), "NaN !== NaN");
    assert_eq!(run("assert_eq(0, -0)"), Ok(Value::Undefined));
}

#[test]
fn a_native_of_the_host_can_call_back() {
    assert_eq!(run("call_back(function(x){ return x * 2; })"), Ok(number(14.0)));
}

#[test]
fn if_statement_runs_one_branch() {
    assert_eq!(run("var r = 0; if (1) { r = 1; } else { r = 2; } r"), Ok(number(1.0)));
    assert_eq!(run("var r = 0; if (0) { r = 1; } else { r = 2; } r"), Ok(number(2.0)));
    assert_eq!(run("var r = 0; if (0) { r = 1; } r"), Ok(number(0.0)));
    assert_eq!(
        run("var r = 0; if (0) { r = 1; } else if (1) { r = 3; } else { r = 4; } r"),
        Ok(number(3.0))
    );
}

#[test]
fn return_in_an_if_leaves_the_function() {
    assert_eq!(
        run("function sign(n){ if (n) { return \"some\"; } return \"none\"; } sign(0) + sign(1)"),
        Ok(string("nonesome"))
    );
    assert_eq!(run("function f(){ return; } f()"), Ok(Value::Undefined));
    assert_eq!(run("function f(){ 1; } f()"), Ok(Value::Undefined));
}

#[test]
fn block_gives_the_value_of_its_last_statement() {
    assert_eq!(run(""), Ok(Value::Undefined));
    assert_eq!(run("1; 2"), Ok(number(2.0)));
    assert_eq!(run("1; var x = 5;"), Ok(Value::Undefined));
    assert_eq!(run(";"), Ok(Value::Undefined));
}

#[test]
fn declarations_are_hoisted() {
    assert_eq!(run("var r = f(); function f(){ return 4; } r"), Ok(number(4.0)));
    assert_eq!(run("x; var x = 1;"), Ok(Value::Undefined));
    assert_eq!(
        run("function f(){ var r = g(); function g(){ return 5; } return r; } f()"),
        Ok(number(5.0))
    );
}

#[test]
fn missing_arguments_are_undefined_and_extra_ones_are_dropped() {
    assert_eq!(run("function f(a, b){ return b; } f(1)"), Ok(Value::Undefined));
    assert_eq!(run("function f(a){ return a; } f(1, 2, 3)"), Ok(number(1.0)));
    assert_eq!(run("function f(a, a){ return a; } f(1, 2)"), Ok(number(2.0)));
}

#[test]
fn arguments_are_evaluated_from_left_to_right() {
    assert_eq!(
        run("var log = \"\"; function t(x){ log = log + x; return x; } \
             function f(a, b, c){ return log; } f(t(\"a\"), t(\"b\"), t(\"c\"))"),
        Ok(string("abc"))
    );
}

#[test]
fn assignment_evaluates_the_right_side_first() {
    assert_eq!(
        run("var log = \"\"; function t(x){ log = log + x; return {}; } \
             t(\"l\").p = t(\"r\"); log"),
        Ok(string("rl"))
    );
    assert_eq!(run("var a; var b; a = b = 3; a + b"), Ok(number(6.0)));
}

#[test]
fn object_literal_takes_the_last_of_two_equal_keys() {
    assert_eq!(run("var o = { a: 1, a: 2 }; o.a"), Ok(number(2.0)));
    assert_eq!(run("var o = { \"x y\": 1, 2: 3 }; o[\"x y\"] + o[2]"), Ok(number(4.0)));
    assert_eq!(run("({}).toString"), Ok(Value::Undefined));
}

#[test]
fn computed_member_is_coerced_to_text() {
    assert_eq!(run("var o = { a1: 5 }; o[\"a\" + 1]"), Ok(number(5.0)));
    assert_eq!(run("var o = {}; o[1] = 6; o[\"1\"]"), Ok(number(6.0)));
    assert_eq!(
        run("var k = { toString: function(){ return \"key\"; } }; var o = { key: 7 }; o[k]"),
        Ok(number(7.0))
    );
}

#[test]
fn property_of_a_primitive_comes_from_its_prototype() {
    assert_eq!(run("(5).toString()"), Ok(string("5")));
    assert_eq!(run("\"abc\".toString()"), Ok(string("abc")));
    assert_eq!(run("var n = 5; n.x = 1; n.x"), Ok(Value::Undefined));
    assert_eq!(run("Number.prototype.twice = function(){ return this * 2; }; (4).twice()"),
        Ok(number(8.0)));
    assert!(thrown_text(run("true.x")).contains("undefined has no properties"));
}

#[test]
fn missing_property_is_undefined_and_missing_variable_throws() {
    assert_eq!(run("var o = {}; o.nothing"), Ok(Value::Undefined));
    assert_eq!(run("nothing"), Err(string("nothing is not defined")));
    assert_eq!(run("function f(){ return nothing; } f()"), Err(string("nothing is not defined")));
}

#[test]
fn errors_of_values_that_cannot_do_what_is_asked() {
    assert_eq!(run("null.x"), Err(string("null has no properties")));
    assert_eq!(run("null.x = 1"), Err(string("null has no properties")));
    assert_eq!(run("undefined.x = 1"), Err(string("undefined has no properties")));
    assert_eq!(run("var x = 1; x()"), Err(string("1 is not a function")));
    assert_eq!(run("({})()"), Err(string("{} is not a function")));
    assert_eq!(run("undefined()"), Err(string("undefined is not a function")));
    assert_eq!(run("Object.create(1)"), Err(string("1 is not a Object")));
    assert_eq!(run("eval(1)"), Err(string("1 is not a String")));
    assert_eq!(
        run("var f = Number.prototype.toString; f()"),
        Err(string("{\"console\": {\"log\": function log()}, \"Object\": {\"create\": function \
             create(), \"prototype\": {\"toString\": function toString()}}, \"Number\": \
             {\"prototype\": {\"toString\": function toString()}}, \"String\": {\"prototype\": \
             {\"toString\": function toString()}}, \"eval\": function eval(), \"Function\": \
             {\"prototype\": {\"toString\": function toString()}}, \"assert_eq\": function \
             assert_eq(), \"side_effect\": function side_effect(), \"call_back\": function \
             call_back(), \"f\": function toString()} is not a number!"))
    );
    assert_eq!(
        run("var o = { t: String.prototype.toString }; o.t()"),
        Err(string("{\"t\": function toString()} is not a string!"))
    );
    assert_eq!(
        run("var o = { t: Function.prototype.toString }; o.t()"),
        Err(string("{\"t\": function toString()} is not a function!"))
    );
    assert_eq!(
        run("var o = Object.create(null); \"\" + o"),
        Err(string("can't convert {} to primitive type"))
    );
    assert_eq!(
        run("var o = { toString: function(){ throw 1; } }; \"\" + o"),
        Err(string("can't convert {\"toString\": function()} to primitive type"))
    );
}

#[test]
fn function_needs_the_function_prototype() {
    assert_eq!(
        run("Function.prototype = 1; (function(){})"),
        Err(string("Function.prototype must be an object"))
    );
    let mut ack = engine();
    let machine = Machine::new();
    assert_eq!(ack.eval(&machine, "Function.prototype = 1; function f(){}"), Ok(Value::Undefined));
    assert_eq!(
        ack.eval(&machine, "var before = 1; function g(){}"),
        Err(string("Function.prototype must be an object"))
    );
    assert_eq!(ack.eval(&machine, "before"), Ok(Value::Undefined));
    assert_eq!(ack.eval(&machine, "2"), Ok(number(2.0)));
    assert_eq!(
        run("Function = undefined; (function(){})"),
        Err(string("Function.prototype must be an object"))
    );
    assert_eq!(
        run("Function = 1; Number = undefined; (function(){})"),
        Err(string("Function.prototype must be an object"))
    );
}

#[test]
fn syntax_errors_are_thrown() {
    assert_eq!(run("1 +"), Err(string("SyntaxError: unexpected end of input")));
    assert_eq!(run("1 + )"), Err(string("SyntaxError: unexpected `)`")));
    assert_eq!(run("var 1"), Err(string("SyntaxError: unexpected `1`")));
    assert_eq!(run("1 = 2"), Err(string("SyntaxError: unexpected `=`")));
    assert_eq!(run("#"), Err(string("SyntaxError: unexpected `#`")));
    assert_eq!(run("eval(\"1 +\")"), Err(string("SyntaxError: unexpected end of input")));
    assert_eq!(run("return 1"), Err(string("SyntaxError: unexpected `return`")));
    let mut nested = String::new();
    for _ in 0..400 {
        nested.push('(');
    }
    assert_eq!(run(&nested), Err(string("SyntaxError: nesting too deep")));
}

#[test]
fn evaluation_deeper_than_the_bound_throws() {
    assert_eq!(run("function f(){ return f(); } f()"), Err(string("too much recursion")));
    assert_eq!(run("function f(n){ return n ? f(n - 1) + 1 : 0; } f(100)"), Ok(number(100.0)));

    let mut ack = engine();
    let machine = Machine::new();
    assert_eq!(ack.eval(&machine, "function a(){ return 1; }"), Ok(Value::Undefined));
    ack.depth = 3;
    assert_eq!(ack.eval(&machine, "a()"), Ok(number(1.0)));
    assert_eq!(ack.eval(&machine, "1 + 1"), Ok(number(2.0)));
    ack.depth = 2;
    assert_eq!(ack.eval(&machine, "a()"), Err(string("too much recursion")));
    assert_eq!(ack.eval(&machine, "1 + 1"), Ok(number(2.0)));
    assert_eq!(ack.eval(&machine, "1 + 1 + 1"), Err(string("too much recursion")));
    ack.depth = 1;
    assert_eq!(ack.eval(&machine, "1"), Ok(number(1.0)));
    assert_eq!(ack.eval(&machine, "1 + 1"), Err(string("too much recursion")));
    assert_eq!(ack.eval(&machine, "if (1) { }"), Ok(Value::Undefined));
    assert_eq!(ack.eval(&machine, "if (1) { 2; }"), Err(string("too much recursion")));
    ack.depth = 0;
    assert_eq!(ack.eval(&machine, ""), Ok(Value::Undefined));
    assert_eq!(ack.eval(&machine, "var v; function g(){}"), Ok(Value::Undefined));
    assert_eq!(ack.eval(&machine, "1"), Err(string("too much recursion")));
    assert_eq!(ack.eval(&machine, "if (1) { }"), Err(string("too much recursion")));
}

#[test]
fn deep_expressions_throw_and_do_not_crash() {
    let mut sum = String::from("1");
    for _ in 0..1500 {
        sum.push_str(" + 1");
    }
    assert_eq!(run(&sum), Err(string("too much recursion")));

    let mut deep = String::from("function f(n){ return n ? (f(n - 1)");
    for _ in 0..600 {
        deep.push_str(" + 1");
    }
    deep.push_str(") : 0; } f(60)");
    assert_eq!(run(&deep), Err(string("too much recursion")));

    let mut chain = String::from("var o = {}; o.a = o; o");
    for _ in 0..1500 {
        chain.push_str(".a");
    }
    assert_eq!(run(&chain), Err(string("too much recursion")));

    let mut ack = engine();
    ack.depth = 5000;
    let machine = Machine::new();
    assert_eq!(ack.eval(&machine, &sum), Ok(number(1501.0)));
}

#[test]
fn eval_runs_in_the_scope_of_its_caller() {
    assert_eq!(run("function f(){ var secret = 9; return eval(\"secret\"); } f()"),
        Ok(number(9.0)));
    assert_eq!(run("eval(\"var made = 3;\"); made"), Ok(number(3.0)));
    assert_eq!(run("eval(\"throw 4\")"), Err(number(4.0)));
}

#[test]
fn built_in_to_string() {
    assert_eq!(run("var o = Object.create(Object.prototype); o.toString()"),
        Ok(string("[object Object]")));
    assert_eq!(run("\"\" + console"), Ok(string("[object Object]")));
    assert_eq!(run("function f(a){ return a; } f.toString()"),
        Ok(string("function f(a){ return a; }")));
    assert_eq!(run("\"\" + function (){}"), Ok(string("function (){}")));
    assert_eq!(run("eval.toString()"), Ok(string("function eval() { [native code] }")));
    assert_eq!(run("(1.5).toString()"), Ok(string("1.5")));
    assert_eq!(run("\"\" + (0 / 0)"), Ok(string("NaN")));
}

#[test]
fn object_create_sets_the_prototype() {
    assert_eq!(run("var p = { a: 1 }; var o = Object.create(p); p.a = 2; o.a"), Ok(number(2.0)));
    assert_eq!(run("var p = { a: 1 }; var o = Object.create(p); o.a = 2; p.a"), Ok(number(1.0)));
    assert_eq!(run("var o = Object.create(null); o.toString"), Ok(Value::Undefined));
    assert_eq!(run("Object.create()"), Err(string("undefined is not a Object")));
}

#[test]
fn console_log_writes_the_debugging_forms() {
    let mut ack = engine();
    let machine = Machine::new();
    let result = ack.eval(
        &machine,
        "console.log(1, \"two\", true, undefined, null, { a: { b: 2 } }, function f(){}); \
         console.log(); console.log(function(){}, eval)",
    );
    assert_eq!(result, Ok(Value::Undefined));
    assert_eq!(
        *machine.lines.borrow(),
        vec![
            "1 two true undefined null {\"a\": {\"b\": 2}} function f()".to_string(),
            "".to_string(),
            "function() function eval()".to_string(),
        ]
    );
}

#[test]
fn debugging_form_stops_at_its_depth() {
    let mut ack = engine();
    let machine = Machine::new();
    let value = ack.eval(&machine, "var a = { n: 1 }; a.me = a; a").unwrap();
    assert_eq!(
        value.debug_string_to(&ack.heap, &machine, 2),
        "{\"n\": 1, \"me\": {\"n\": 1, \"me\": {...}}}"
    );
    assert_eq!(value.debug_string_to(&ack.heap, &machine, 0), "{...}");
    assert_eq!(number(2.5).debug_string(&ack.heap, &machine), "2.5");
    assert_eq!(Value::Object(Object::Object(100000)).debug_string(&ack.heap, &machine), "null");
}

#[test]
fn comments_and_white_space_are_skipped() {
    assert_eq!(run("// nothing here\n 1 // one\n + 2 // two"), Ok(number(3.0)));
    assert_eq!(run("\t1\r\n+\n2"), Ok(number(3.0)));
}

#[test]
fn strings_and_their_escapes() {
    assert_eq!(run("'single'"), Ok(string("single")));
    assert_eq!(run("\"a\\nb\\t\\\"c\\\"\\\\\""), Ok(string("a\nb\t\"c\"\\")));
    assert_eq!(run("'it\\'s'"), Ok(string("it's")));
    assert_eq!(run("\"\u{e9}\u{4e16}\""), Ok(string("\u{e9}\u{4e16}")));
    assert_eq!(run("\"open"), Err(string("SyntaxError: unexpected end of input")));
}

#[test]
fn the_engine_keeps_its_state_between_evaluations() {
    let mut ack = engine();
    let machine = Machine::new();
    assert_eq!(ack.eval(&machine, "var kept = 1;"), Ok(Value::Undefined));
    assert_eq!(ack.eval(&machine, "kept = kept + 1; kept"), Ok(number(2.0)));
    assert_eq!(ack.eval(&machine, "kept"), Ok(number(2.0)));
}

#[test]
fn strict_equality_of_values() {
    assert!(number(1.0).strict_equals(&number(1.0)));
    assert!(!number(1.0).strict_equals(&number(2.0)));
    assert!(!number(f64::NAN).strict_equals(&number(f64::NAN)));
    assert!(number(0.0).strict_equals(&number(-0.0)));
    assert!(!number(1.0).strict_equals(&string("1")));
    assert!(string("a").strict_equals(&string("a")));
    assert!(!string("a").strict_equals(&string("b")));
    assert!(Value::Boolean(true).strict_equals(&Value::Boolean(true)));
    assert!(!Value::Boolean(true).strict_equals(&Value::Boolean(false)));
    assert!(Value::Undefined.strict_equals(&Value::Undefined));
    assert!(!Value::Undefined.strict_equals(&Value::Object(Object::Null)));
    assert!(Value::Object(Object::Null).strict_equals(&Value::Object(Object::Null)));
    assert!(Value::Object(Object::Object(3)).strict_equals(&Value::Object(Object::Object(3))));
    assert!(!Value::Object(Object::Object(3)).strict_equals(&Value::Object(Object::Object(4))));
    assert!(number(1.0) == number(1.0));
    assert!(number(f64::NAN) != number(f64::NAN));
}

#[test]
fn coercions_of_values() {
    let machine = Machine::new();
    assert_eq!(f64::from_bits(number(2.5).to_number(&machine)), 2.5);
    assert_eq!(f64::from_bits(Value::Boolean(true).to_number(&machine)), 1.0);
    assert_eq!(f64::from_bits(Value::Boolean(false).to_number(&machine)), 0.0);
    assert_eq!(f64::from_bits(string("12.5").to_number(&machine)), 12.5);
    assert!(f64::from_bits(string("twelve").to_number(&machine)).is_nan());
    assert!(f64::from_bits(Value::Undefined.to_number(&machine)).is_nan());
    assert!(f64::from_bits(Value::Object(Object::Null).to_number(&machine)).is_nan());
    assert!(number(1.0).to_boolean());
    assert!(number(-1.0).to_boolean());
    assert!(!number(0.0).to_boolean());
    assert!(!number(-0.0).to_boolean());
    assert!(!number(f64::NAN).to_boolean());
    assert!(number(f64::INFINITY).to_boolean());
    assert!(string("0").to_boolean());
    assert!(!string("").to_boolean());
    assert!(Value::Object(Object::Null).to_boolean());
    assert!(!Value::Undefined.to_boolean());
    assert_eq!(string("text").to_string(), "text");
    assert_eq!(number(1.0).to_string(), "");
    assert_eq!(Value::Undefined.to_string(), "");
    assert_eq!(Value::Boolean(true).to_string(), "");
}

#[test]
fn long_sources_run_in_loops() {
    let mut source = String::from("var x = 0;\n");
    for _ in 0..20000 {
        source.push_str("x = x + 1;\n");
    }
    source.push_str("x");
    assert_eq!(run(&source), Ok(number(20000.0)));

    let mut call = String::from("function last(){ return 1; } last(");
    for i in 0..5000 {
        call.push_str(&format!("{}, ", i));
    }
    call.push_str("0)");
    assert_eq!(run(&call), Ok(number(1.0)));

    let mut literal = String::from("var o = {");
    for i in 0..2000 {
        literal.push_str(&format!("k{}: {}, ", i, i));
    }
    literal.push_str("}; o.k1999");
    assert_eq!(run(&literal), Ok(number(1999.0)));

    let mut sum = String::from("0");
    for _ in 0..200 {
        sum.push_str(" + 1");
    }
    assert_eq!(run(&sum), Ok(number(200.0)));

    let mut chain = String::from("var o = {}; o.a = o; o");
    for _ in 0..200 {
        chain.push_str(".a");
    }
    chain.push_str(".a = 5; o.a");
    assert_eq!(run(&chain), Ok(number(5.0)));
}

#[test]
fn js_run_tests() {
    for (script, _) in SCRIPTS.iter() {
        let mut ack = Ack::create_stdlib();
        register(&mut ack, "assert_eq", ASSERT_EQ);

        match ack.eval(&Machine::new(), script) {
            Ok(_) => (),
            Err(e) => panic!(
                "Script failed with error \"{}\"",
                e.debug_string(&ack.heap, &Machine::new())
            ),
        }
    }
}

#[test]
fn runner_run_tests() {
    for (script, expected) in SCRIPTS.iter() {
        let mut ack = Ack::create_stdlib();
        register(&mut ack, "assert_eq", COUNTED_ASSERT_EQ);

        let result = ack.eval(&Machine::new(), script);
        let count = match ack.context.global.get(COUNT, &ack.heap) {
            Ok(Value::Number(n)) => f64::from_bits(n),
            _ => 0.0,
        };
        println!("{} assertions called", count);
        assert_eq!(count, *expected);

        match result {
            Ok(_) => (),
            Err(e) => panic!(
                "{} failed with error \"{}\"",
                script,
                e.debug_string(&ack.heap, &Machine::new())
            ),
        }
    }
}

#[test]
fn a_failed_assertion_of_a_script_is_its_error() {
    let mut ack = Ack::create_stdlib();
    register(&mut ack, "assert_eq", COUNTED_ASSERT_EQ);
    let result = ack.eval(&Machine::new(), "assert_eq(1, 1); assert_eq(1, 2); assert_eq(3, 3);");
    assert_eq!(result, Err(string("1 !== 2")));
    assert_eq!(ack.context.global.get(COUNT, &ack.heap), Ok(number(2.0)));
}

#[test]
fn a_declaration_binds_anew_in_the_current_scope() {
    assert_eq!(run("var x = 1; var x; x"), Ok(number(1.0)));
    let mut ack = engine();
    let machine = Machine::new();
    assert_eq!(ack.eval(&machine, "var x = 1; x"), Ok(number(1.0)));
    assert_eq!(ack.eval(&machine, "var x; x"), Ok(Value::Undefined));
    assert_eq!(
        run("var x = 1; function f(){ var seen = x; var x = 2; return seen; } f()"),
        Ok(Value::Undefined)
    );
    assert_eq!(run("var x = 1; if (1) { var x = 2; } x"), Ok(number(2.0)));
}

#[test]
fn two_operands_that_are_no_numbers_are_joined_as_texts() {
    assert_eq!(
        run("var a = Object.create(Object.prototype); a + a"),
        Ok(string("[object Object][object Object]"))
    );
    assert_eq!(run("var f = function(){}; f + 1"), Ok(string("function(){}1")));
    assert_eq!(run("(0 / 0) + (0 / 0)"), Ok(string("NaNNaN")));
    assert_eq!(run("({}) + 1"), Err(string("can't convert {} to primitive type")));
}

#[test]
fn fibonacci_by_two_recursive_calls() {
    assert_eq!(
        run("function fib(n){ if (n - 1) { if (n) { return fib(n - 1) + fib(n - 2); } } \
             return n; } fib(15)"),
        Ok(number(610.0))
    );
}

#[test]
fn a_list_of_linked_objects_is_summed() {
    assert_eq!(
        run("function cons(head, tail){ return { head: head, tail: tail }; } \
             function sum(list){ return list ? list.head + sum(list.tail) : 0; } \
             var list = cons(1, cons(2, cons(3, cons(4, undefined)))); sum(list)"),
        Ok(number(10.0))
    );
}

#[test]
fn methods_are_inherited_through_the_prototype() {
    assert_eq!(
        run("var animal = { describe: function(){ return this.name + \" says \" + this.sound; } }; \
             var dog = Object.create(animal); dog.name = \"Rex\"; dog.sound = \"woof\"; \
             var cat = Object.create(animal); cat.name = \"Tom\"; cat.sound = \"meow\"; \
             dog.describe() + \", \" + cat.describe()"),
        Ok(string("Rex says woof, Tom says meow"))
    );
    assert_eq!(
        run("var base = { get: function(){ return this.v; } }; \
             var a = Object.create(base); a.v = 1; \
             var b = Object.create(a); b.v = 2; \
             var c = Object.create(b); \
             a.get() + b.get() * 10 + c.get() * 100"),
        Ok(number(221.0))
    );
}

#[test]
fn functions_are_values() {
    assert_eq!(
        run("function twice(f){ return function(x){ return f(f(x)); }; } \
             function inc(x){ return x + 1; } twice(twice(inc))(0)"),
        Ok(number(4.0))
    );
    assert_eq!(
        run("function compose(f, g){ return function(x){ return f(g(x)); }; } \
             var shout = compose(function(s){ return s + \"!\"; }, function(s){ return s + s; }); \
             shout(\"ab\")"),
        Ok(string("abab!"))
    );
    assert_eq!(
        run("var counters = { a: 0 }; function bump(o){ o.a = o.a + 1; return o; } \
             bump(bump(bump(counters))).a"),
        Ok(number(3.0))
    );
}

#[test]
fn this_in_a_nested_bare_call_is_the_global_object() {
    assert_eq!(
        run("var seen; var o = { m: function(){ function inner(){ return this; } \
             return inner(); } }; seen = o.m(); seen.o.m ? 1 : 0"),
        Ok(number(1.0))
    );
    assert_eq!(
        run("var o = { v: 5, m: function(){ return this.v; } }; var f = o.m; var v = 7; f()"),
        Ok(number(7.0))
    );
}

#[test]
fn eval_makes_functions_that_last() {
    let mut ack = engine();
    let machine = Machine::new();
    assert_eq!(
        ack.eval(&machine, "eval(\"function made(x){ return x * 3; }\"); made(4)"),
        Ok(number(12.0))
    );
    assert_eq!(ack.eval(&machine, "eval(\"made\")(5)"), Ok(number(15.0)));
    assert_eq!(
        ack.eval(&machine, "eval(\"eval(\\\"1 + 2\\\")\") + eval(\"3\")"),
        Ok(number(6.0))
    );
}

#[test]
fn the_built_in_objects_can_be_reached_and_changed() {
    assert_eq!(
        run("Object.prototype.hello = function(){ return \"hi\"; }; \
             Object.create(Object.prototype).hello() + console.hello() + (1).hello()"),
        Ok(string("hihihi"))
    );
    assert_eq!(
        run("String.prototype.twice = function(){ return this + this; }; \"ab\".twice()"),
        Ok(string("abab"))
    );
    assert_eq!(
        run("Function.prototype.tag = \"fn\"; (function(){}).tag + eval.tag"),
        Ok(string("fnfn"))
    );
    assert_eq!(run("Number = String; (5).toString()"), Err(string("5 is not a string!")));
}

/// A host whose numbers are its own: every sum is 42, every reading 7, every text "n".
struct Stubborn;

impl Host for Stubborn {
    fn number_add(&self, _: u64, _: u64) -> u64 {
        42.0f64.to_bits()
    }

    fn number_subtract(&self, _: u64, _: u64) -> u64 {
        1.0f64.to_bits()
    }

    fn number_multiply(&self, _: u64, _: u64) -> u64 {
        2.0f64.to_bits()
    }

    fn number_divide(&self, _: u64, _: u64) -> u64 {
        3.0f64.to_bits()
    }

    fn number_parse(&self, _: &str) -> u64 {
        7.0f64.to_bits()
    }

    fn number_format(&self, _: u64) -> String {
        "n".to_string()
    }

    fn print(&self, _: &str) {
    }

    fn call(&self, _: u64, _: Vec<Value>, _: Context, _: &mut Heap, _: usize) -> JSResult {
        Ok(Value::Undefined)
    }
}

#[test]
fn numbers_are_what_the_host_gives() {
    let mut ack = Ack::create_stdlib();
    assert_eq!(ack.eval(&Stubborn, "1 + 2"), Ok(number(42.0)));
    assert_eq!(ack.eval(&Stubborn, "9 - 2"), Ok(number(1.0)));
    assert_eq!(ack.eval(&Stubborn, "9 * 2"), Ok(number(2.0)));
    assert_eq!(ack.eval(&Stubborn, "9 / 2"), Ok(number(3.0)));
    assert_eq!(ack.eval(&Stubborn, "5"), Ok(number(7.0)));
    assert_eq!(ack.eval(&Stubborn, "\"5\" * 1"), Ok(number(2.0)));
    assert_eq!(ack.eval(&Stubborn, "5 + \"a\""), Ok(string("na")));
    assert_eq!(ack.eval(&Stubborn, "\"a\" + 5"), Ok(string("an")));
    assert_eq!(ack.eval(&Stubborn, "5()"), Err(string("n is not a function")));
    assert_eq!(ack.eval(&Stubborn, "true + true"), Ok(number(42.0)));
    assert_eq!(ack.eval(&Stubborn, "-true"), Ok(number(-1.0)));
    assert_eq!(ack.eval(&Stubborn, "-\"x\""), Ok(number(-7.0)));
}

#[test]
fn a_fresh_engine_keeps_the_keys_of_its_records_apart() {
    let mut ack = engine();
    let machine = Machine::new();
    ack.eval(&machine, "var o = { a: 1, b: 2, a: 3 }; o.b = 4; o.c = 5; var o = 6; eval = 7;")
        .unwrap();
    for record in ack.heap.objects.iter() {
        let keys: Vec<&String> = record.values.iter().map(|entry| &entry.0).collect();
        for (i, key) in keys.iter().enumerate() {
            assert!(!keys[..i].contains(key), "{} occurs twice", key);
        }
    }
}

#[test]
fn a_thrown_object_is_the_declared_record() {
    let mut ack = Ack::create_stdlib();
    let machine = Machine::new();
    assert_eq!(
        ack.eval(&machine, "var o = {}; function a(){ throw o; } function b(){ a(); }"),
        Ok(Value::Undefined)
    );
    let held = ack.context.global.get("o", &ack.heap).unwrap();
    assert_eq!(held, Value::Object(Object::Object(19)));
    let before = ack.heap.len();
    let thrown = ack.eval(&machine, "b()").unwrap_err();
    assert!(thrown.strict_equals(&held));
    assert_eq!(thrown, Value::Object(Object::Object(19)));
    assert_eq!(ack.heap.len(), before + 2);
    assert!(ack.heap.objects[19].values.is_empty());
}

#[test]
fn debugging_forms_ask_the_host_for_numbers() {
    let mut ack = Ack::create_stdlib();
    let machine = Machine::new();
    let value = ack.eval(&machine, "var o = { a: 1, b: { c: 2.5 } }; o").unwrap();
    assert_eq!(value.debug_traced(&ack.heap, &machine, 8).0, "{\"a\": 1, \"b\": {\"c\": 2.5}}");
    assert_eq!(value.debug_traced(&ack.heap, &Stubborn, 8).0, "{\"a\": n, \"b\": {\"c\": n}}");
    assert_eq!(value.debug_string(&ack.heap, &Stubborn), "{\"a\": n, \"b\": {\"c\": n}}");
    assert_eq!(number(1.0).to_number(&Stubborn), 1.0f64.to_bits());
    assert_eq!(string("1").to_number(&Stubborn), 7.0f64.to_bits());
    assert_eq!(Value::Boolean(true).to_number(&Stubborn), 1.0f64.to_bits());
    assert!(f64::from_bits(Value::Undefined.to_number(&Stubborn)).is_nan());
}
