use std::cell::RefCell;

use ack::ast::{Access, Accessor, Expression, Statement};
use ack::host::Host;
use ack::interpret::{eval_block, Context, Heap, JSResult, Tri, Value};
use ack::parser::shift::{equal, parse, Node, Pattern};
use ack::runtime::Ack;

struct Machine {
    lines: RefCell<Vec<String>>,
}

impl Host for Machine {
    fn number_add(&self, left: u64, right: u64) -> u64 {
        (f64::from_bits(left) + f64::from_bits(right)).to_bits()
    }

    fn number_subtract(&self, left: u64, right: u64) -> u64 {
        (f64::from_bits(left) - f64::from_bits(right)).to_bits()
    }

    fn number_multiply(&self, left: u64, right: u64) -> u64 {
        (f64::from_bits(left) * f64::from_bits(right)).to_bits()
    }

    fn number_divide(&self, left: u64, right: u64) -> u64 {
        (f64::from_bits(left) / f64::from_bits(right)).to_bits()
    }

    fn number_parse(&self, text: &str) -> u64 {
        text.parse::<f64>().unwrap_or(f64::NAN).to_bits()
    }

    fn number_format(&self, bits: u64) -> String {
        f64::from_bits(bits).to_string()
    }

    fn print(&self, line: &str) {
        self.lines.borrow_mut().push(line.to_string());
    }

    fn call(
        &self,
        _native: u64,
        _arguments: Vec<Value>,
        _context: Context,
        _heap: &mut Heap,
        _depth: usize,
    ) -> JSResult {
        Ok(Value::Undefined)
    }
}

fn machine() -> Machine {
    Machine { lines: RefCell::new(Vec::new()) }
}

fn shape(e: &Expression) -> String {
    match e {
        Expression::Literal(Value::Number(bits)) => f64::from_bits(*bits).to_string(),
        Expression::Access(Access::Identifier(id)) => id.clone(),
        Expression::Access(Access::Member(target, Accessor::Identifier(id))) => {
            format!("{}.{}", shape(target), id)
        }
        Expression::Call(f, arguments) => {
            let list: Vec<String> = arguments.iter().map(shape).collect();
            format!("{}({})", shape(f), list.join(", "))
        }
        other => format!("{:?}", other),
    }
}

fn statements(source: &str) -> Option<Vec<String>> {
    parse(&machine(), source).map(|block| {
        block
            .iter()
            .map(|s| match s {
                Statement::Expression(e) => shape(e),
                other => format!("{:?}", other),
            })
            .collect()
    })
}

#[test]
fn member_access_and_calls_are_reduced() {
    assert_eq!(statements("a.b;"), Some(vec!["a.b".to_string()]));
    assert_eq!(statements("a.b.c;"), Some(vec!["a.b.c".to_string()]));
    assert_eq!(statements("f(1);"), Some(vec!["f(1)".to_string()]));
    assert_eq!(statements("console.log(42);"), Some(vec!["console.log(42)".to_string()]));
    assert_eq!(statements("f(a.b);"), Some(vec!["f(a.b)".to_string()]));
    assert_eq!(statements("f(1)(2);"), Some(vec!["f(1)(2)".to_string()]));
    assert_eq!(statements("f(g(1));"), Some(vec!["f(g(1))".to_string()]));
    assert_eq!(statements("12;"), Some(vec!["12".to_string()]));
}

#[test]
fn statements_gather_in_a_block() {
    assert_eq!(
        statements("a.b;\n f(1);\n\tc.d(2);"),
        Some(vec!["a.b".to_string(), "f(1)".to_string(), "c.d(2)".to_string()])
    );
    assert_eq!(statements(" a . b ; "), Some(vec!["a.b".to_string()]));
}

#[test]
fn what_the_rules_do_not_reach() {
    assert_eq!(statements(""), None);
    assert_eq!(statements("a"), None);
    assert_eq!(statements("a;"), None);
    assert_eq!(statements("a.b"), None);
    assert_eq!(statements("f(x);"), None);
    assert_eq!(statements("a.b; c"), None);
    assert_eq!(statements(";"), None);
    assert_eq!(statements("f(1, 2);"), None);
    assert_eq!(statements("a.b; + c.d;"), Some(vec!["a.b".to_string()]));
}

#[test]
fn patterns_ask_for_kinds_and_for_the_text_of_symbols() {
    let name = Node::Identifier("a".to_string());
    let sign = Node::Symbol(".".to_string());
    let literal = Node::Expression(Expression::This);
    let statement = Node::Statement(Statement::Empty);
    let block = Node::Block(vec![]);
    assert!(equal(&Pattern::Identifier, &name));
    assert!(!equal(&Pattern::Identifier, &sign));
    assert!(equal(&Pattern::Symbol("."), &sign));
    assert!(!equal(&Pattern::Symbol(";"), &sign));
    assert!(!equal(&Pattern::Symbol("a"), &name));
    assert!(equal(&Pattern::Expression, &literal));
    assert!(!equal(&Pattern::Expression, &name));
    assert!(equal(&Pattern::Statement, &statement));
    assert!(!equal(&Pattern::Statement, &block));
    assert!(equal(&Pattern::Block, &block));
    assert!(!equal(&Pattern::Block, &statement));
}

#[test]
fn a_parsed_block_runs() {
    let host = machine();
    let block = parse(&host, "console.log(42); console.log(7);").unwrap();
    let mut ack = Ack::create_stdlib();
    let done = eval_block(&block, ack.context.clone(), &mut ack.heap, &host, ack.depth);
    assert!(matches!(done, Tri::Continue(Value::Undefined)));
    assert_eq!(*host.lines.borrow(), vec!["42".to_string(), "7".to_string()]);
}

#[test]
fn tokens_are_parsed_with_the_numbers_read_for_them() {
    let tokens = ack::lexer::Lexer::new("f(12); g(3);").tokens();
    let numbers: Vec<u64> = (0..tokens.len()).map(|i| (i as f64).to_bits()).collect();
    let block = ack::parser::shift::parse_read(&tokens, &numbers).unwrap();
    let shapes: Vec<String> = block
        .iter()
        .map(|s| match s {
            Statement::Expression(e) => shape(e),
            other => format!("{:?}", other),
        })
        .collect();
    assert_eq!(shapes, vec!["f(2)".to_string(), "g(8)".to_string()]);
    let short: Vec<u64> = Vec::new();
    let block = ack::parser::shift::parse_read(&tokens, &short).unwrap();
    match &block[0] {
        Statement::Expression(e) => assert_eq!(shape(e), "f(0)"),
        other => panic!("expected an expression, got {:?}", other),
    }
    assert!(ack::parser::shift::parse_read(&ack::lexer::Lexer::new("f(").tokens(), &short)
        .is_none());
}
