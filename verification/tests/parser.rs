use ack::ast::{Access, Accessor, BinaryOp, Declaration, Expression, Statement, UnaryOp};
use ack::host::Host;
use ack::interpret::{Context, Heap, JSResult, Object, Value};
use ack::parser::token::scan;
use ack::parser::{is_complete, parse, Kind, ParseError};

struct Machine;

impl Host for Machine {
    fn number_add(&self, left: u64, right: u64) -> u64 {
        (f64::from_bits(left) + f64::from_bits(right)).to_bits()
    }

    fn number_subtract(&self, left: u64, right: u64) -> u64 {
        (f64::from_bits(left) - f64::from_bits(right)).to_bits()
    }

    fn number_multiply(&self, left: u64, right: u64) -> u64 {
        (f64::from_bits(left) * f64::from_bits(right)).to_bits()
    }

    fn number_divide(&self, left: u64, right: u64) -> u64 {
        (f64::from_bits(left) / f64::from_bits(right)).to_bits()
    }

    fn number_parse(&self, text: &str) -> u64 {
        text.parse::<f64>().unwrap_or(f64::NAN).to_bits()
    }

    fn number_format(&self, bits: u64) -> String {
        f64::from_bits(bits).to_string()
    }

    fn print(&self, _line: &str) {}

    fn call(
        &self,
        _native: u64,
        _arguments: Vec<Value>,
        _context: Context,
        _heap: &mut Heap,
        _depth: usize,
    ) -> JSResult {
        Ok(Value::Undefined)
    }
}

fn words(source: &str) -> Vec<(Kind, String)> {
    let chars: Vec<char> = source.chars().collect();
    scan(&chars).unwrap().into_iter().map(|w| (w.kind, w.text)).collect()
}

fn one_expression(source: &str) -> Expression {
    let mut block = parse(&Machine, source).unwrap();
    assert_eq!(block.len(), 1);
    match block.remove(0) {
        Statement::Expression(e) => e,
        other => panic!("expected an expression, got {:?}", other),
    }
}

fn shape(e: &Expression) -> String {
    match e {
        Expression::Literal(Value::Number(bits)) => f64::from_bits(*bits).to_string(),
        Expression::Literal(Value::String(s)) => format!("{:?}", s),
        Expression::Literal(Value::Boolean(b)) => b.to_string(),
        Expression::Literal(Value::Undefined) => "undefined".to_string(),
        Expression::Literal(Value::Object(Object::Null)) => "null".to_string(),
        Expression::Literal(other) => format!("{:?}", other),
        Expression::This => "this".to_string(),
        Expression::Access(access) => place(access),
        Expression::Assignment(lhs, rhs) => format!("({} = {})", place(lhs), shape(rhs)),
        Expression::Call(f, arguments) => {
            let list: Vec<String> = arguments.iter().map(shape).collect();
            format!("{}({})", shape(f), list.join(", "))
        }
        Expression::Function(f) => format!("<{}>", f.source),
        Expression::Unary(op, operand) => {
            let sign = match op {
                UnaryOp::Positive => "+",
                UnaryOp::Negative => "-",
                UnaryOp::LogicalNot => "!",
            };
            format!("({}{})", sign, shape(operand))
        }
        Expression::Binary(op, left, right) => {
            let sign = match op {
                BinaryOp::Add => "+",
                BinaryOp::Subtract => "-",
                BinaryOp::Multiply => "*",
                BinaryOp::Divide => "/",
                BinaryOp::LogicalAnd => "&&",
                BinaryOp::LogicalOr => "||",
            };
            format!("({} {} {})", shape(left), sign, shape(right))
        }
        Expression::Ternary(c, t, e) => format!("({} ? {} : {})", shape(c), shape(t), shape(e)),
        Expression::Object(entries) => {
            let list: Vec<String> =
                entries.iter().map(|(k, v)| format!("{}: {}", k, shape(v))).collect();
            format!("{{{}}}", list.join(", "))
        }
    }
}

fn place(access: &Access) -> String {
    match access {
        Access::Identifier(id) => id.clone(),
        Access::Member(target, Accessor::Identifier(id)) => format!("{}.{}", shape(target), id),
        Access::Member(target, Accessor::Expression(e)) => {
            format!("{}[{}]", shape(target), shape(e))
        }
    }
}

fn parsed(source: &str) -> String {
    shape(&one_expression(source))
}

fn error(source: &str) -> ParseError {
    parse(&Machine, source).unwrap_err()
}

#[test]
fn words_of_each_kind() {
    assert_eq!(
        words("var x1 = 12.5 + \"a b\";"),
        vec![
            (Kind::Var, "var".to_string()),
            (Kind::Name, "x1".to_string()),
            (Kind::Assign, "=".to_string()),
            (Kind::Number, "12.5".to_string()),
            (Kind::Plus, "+".to_string()),
            (Kind::Text, "a b".to_string()),
            (Kind::Semicolon, ";".to_string()),
        ]
    );
    let kinds: Vec<Kind> = words("( ) { } [ ] . , ; : ? = + - * / ! && ||")
        .into_iter()
        .map(|w| w.0)
        .collect();
    assert_eq!(
        kinds,
        vec![
            Kind::LeftParen,
            Kind::RightParen,
            Kind::LeftBrace,
            Kind::RightBrace,
            Kind::LeftBracket,
            Kind::RightBracket,
            Kind::Dot,
            Kind::Comma,
            Kind::Semicolon,
            Kind::Colon,
            Kind::Question,
            Kind::Assign,
            Kind::Plus,
            Kind::Minus,
            Kind::Star,
            Kind::Slash,
            Kind::Bang,
            Kind::AndAnd,
            Kind::OrOr,
        ]
    );
    let kinds: Vec<Kind> =
        words("var function return throw if else this true false null undefined other $_a9")
            .into_iter()
            .map(|w| w.0)
            .collect();
    assert_eq!(
        kinds,
        vec![
            Kind::Var,
            Kind::Function,
            Kind::Return,
            Kind::Throw,
            Kind::If,
            Kind::Else,
            Kind::This,
            Kind::True,
            Kind::False,
            Kind::Null,
            Kind::Undefined,
            Kind::Name,
            Kind::Name,
        ]
    );
}

#[test]
fn words_know_their_place() {
    let chars: Vec<char> = "  ab  12".chars().collect();
    let found = scan(&chars).unwrap();
    assert_eq!(found.len(), 2);
    assert_eq!((found[0].start, found[0].end), (2, 4));
    assert_eq!((found[1].start, found[1].end), (6, 8));
}

#[test]
fn numbers_take_a_fraction_only_with_digits_after_the_point() {
    assert_eq!(
        words("1.5 2. 3.x 10"),
        vec![
            (Kind::Number, "1.5".to_string()),
            (Kind::Number, "2".to_string()),
            (Kind::Dot, ".".to_string()),
            (Kind::Number, "3".to_string()),
            (Kind::Dot, ".".to_string()),
            (Kind::Name, "x".to_string()),
            (Kind::Number, "10".to_string()),
        ]
    );
}

#[test]
fn words_that_are_none() {
    let chars: Vec<char> = "a & b".chars().collect();
    assert!(matches!(scan(&chars), Err(ParseError::Unexpected(w)) if w == "&"));
    let chars: Vec<char> = "a | b".chars().collect();
    assert!(matches!(scan(&chars), Err(ParseError::Unexpected(w)) if w == "|"));
    let chars: Vec<char> = "a @".chars().collect();
    assert!(matches!(scan(&chars), Err(ParseError::Unexpected(w)) if w == "@"));
    let chars: Vec<char> = "'open".chars().collect();
    assert!(matches!(scan(&chars), Err(ParseError::UnexpectedEnd)));
    let chars: Vec<char> = "'open\\".chars().collect();
    assert!(matches!(scan(&chars), Err(ParseError::UnexpectedEnd)));
    let chars: Vec<char> = "".chars().collect();
    assert_eq!(scan(&chars).unwrap().len(), 0);
    let chars: Vec<char> = " // only a comment".chars().collect();
    assert_eq!(scan(&chars).unwrap().len(), 0);
}

#[test]
fn precedence_of_operators() {
    assert_eq!(parsed("1 + 2 * 3"), "(1 + (2 * 3))");
    assert_eq!(parsed("1 * 2 + 3"), "((1 * 2) + 3)");
    assert_eq!(parsed("1 - 2 - 3"), "((1 - 2) - 3)");
    assert_eq!(parsed("8 / 4 / 2"), "((8 / 4) / 2)");
    assert_eq!(parsed("a || b && c"), "(a || (b && c))");
    assert_eq!(parsed("a && b || c && d"), "((a && b) || (c && d))");
    assert_eq!(parsed("a && b + c"), "(a && (b + c))");
    assert_eq!(parsed("n && n * f(n - 1) || 1"), "((n && (n * f((n - 1)))) || 1)");
    assert_eq!(parsed("(1 + 2) * 3"), "((1 + 2) * 3)");
    assert_eq!(parsed("-a * b"), "((-a) * b)");
    assert_eq!(parsed("!a.b"), "(!a.b)");
    assert_eq!(parsed("- - a"), "(-(-a))");
    assert_eq!(parsed("a ? b : c ? d : e"), "(a ? b : (c ? d : e))");
    assert_eq!(parsed("a || b ? c : d"), "((a || b) ? c : d)");
    assert_eq!(parsed("a = b = c"), "(a = (b = c))");
    assert_eq!(parsed("a = b ? c : d"), "(a = (b ? c : d))");
    assert_eq!(parsed("a.b = c + 1"), "(a.b = (c + 1))");
    assert_eq!(parsed("a[b] = c"), "(a[b] = c)");
}

#[test]
fn postfix_chains() {
    assert_eq!(parsed("a.b.c"), "a.b.c");
    assert_eq!(parsed("a.b(1, 2).c"), "a.b(1, 2).c");
    assert_eq!(parsed("f()()"), "f()()");
    assert_eq!(parsed("a[1 + 2][\"k\"]"), "a[(1 + 2)][\"k\"]");
    assert_eq!(parsed("f(a, b,)"), "f(a, b)");
    assert_eq!(parsed("this.x"), "this.x");
    assert_eq!(parsed("(5).toString()"), "5.toString()");
}

#[test]
fn literals() {
    assert_eq!(parsed("12.5"), "12.5");
    assert_eq!(parsed("\"text\""), "\"text\"");
    assert_eq!(parsed("true"), "true");
    assert_eq!(parsed("false"), "false");
    assert_eq!(parsed("null"), "null");
    assert_eq!(parsed("undefined"), "undefined");
    assert_eq!(parsed("this"), "this");
    assert_eq!(parsed("({})"), "{}");
    assert_eq!(parsed("({ a: 1, \"b c\": 2, 3: x, })"), "{a: 1, b c: 2, 3: x}");
    assert_eq!(parsed("{ a: { b: 1 } }"), "{a: {b: 1}}");
}

#[test]
fn functions_keep_their_source() {
    match one_expression("  (function  add (a, b) { return a + b; })  ") {
        Expression::Function(f) => {
            assert_eq!(f.id, Some("add".to_string()));
            assert_eq!(f.parameters, vec!["a".to_string(), "b".to_string()]);
            assert_eq!(f.source, "function  add (a, b) { return a + b; }");
            assert_eq!(f.body.block.len(), 0);
            assert_eq!(shape(f.body.return_exp.as_ref().unwrap()), "(a + b)");
        }
        other => panic!("expected a function, got {:?}", other),
    }
    match one_expression("(function(){ x; y })") {
        Expression::Function(f) => {
            assert_eq!(f.id, None);
            assert_eq!(f.parameters.len(), 0);
            assert_eq!(f.body.block.len(), 2);
            assert!(f.body.return_exp.is_none());
        }
        other => panic!("expected a function, got {:?}", other),
    }
    match one_expression("(function(){ return; })") {
        Expression::Function(f) => {
            assert_eq!(shape(f.body.return_exp.as_ref().unwrap()), "undefined");
        }
        other => panic!("expected a function, got {:?}", other),
    }
}

#[test]
fn statements_of_each_kind() {
    let block = parse(
        &Machine,
        "var a; var b = 1; function f(x) { return x; } throw b; if (a) { b; } else { a; } ; a",
    )
    .unwrap();
    assert_eq!(block.len(), 7);
    assert!(matches!(
        &block[0],
        Statement::Declaration(Declaration::Variable(id, None)) if id == "a"
    ));
    assert!(matches!(
        &block[1],
        Statement::Declaration(Declaration::Variable(id, Some(_))) if id == "b"
    ));
    assert!(matches!(
        &block[2],
        Statement::Declaration(Declaration::Function(id, f))
            if id == "f" && f.id == Some("f".to_string())
    ));
    assert!(matches!(&block[3], Statement::Throw(_)));
    assert!(matches!(&block[4], Statement::If(_, _, Some(_))));
    assert!(matches!(&block[5], Statement::Empty));
    assert!(matches!(&block[6], Statement::Expression(_)));
}

#[test]
fn else_if_nests_in_the_alternate() {
    let block = parse(&Machine, "if (a) { 1; } else if (b) { 2; } else { 3; }").unwrap();
    match &block[0] {
        Statement::If(_, _, Some(alternate)) => {
            assert_eq!(alternate.block.len(), 1);
            assert!(alternate.return_exp.is_none());
            assert!(matches!(&alternate.block[0], Statement::If(_, _, Some(_))));
        }
        other => panic!("expected an if statement, got {:?}", other),
    }
    let block = parse(&Machine, "if (a) { return 1; }").unwrap();
    match &block[0] {
        Statement::If(_, consequent, None) => {
            assert_eq!(shape(consequent.return_exp.as_ref().unwrap()), "1");
        }
        other => panic!("expected an if statement, got {:?}", other),
    }
}

#[test]
fn what_the_grammar_refuses() {
    assert!(matches!(error("1 +"), ParseError::UnexpectedEnd));
    assert!(matches!(error("(1"), ParseError::UnexpectedEnd));
    assert!(matches!(error("f(1,"), ParseError::UnexpectedEnd));
    assert!(matches!(error("var"), ParseError::UnexpectedEnd));
    assert!(matches!(error("function f("), ParseError::UnexpectedEnd));
    assert!(matches!(error("function f() {"), ParseError::UnexpectedEnd));
    assert!(matches!(error("if (a) {"), ParseError::UnexpectedEnd));
    assert!(matches!(error("a ? b"), ParseError::UnexpectedEnd));
    assert!(matches!(error("a."), ParseError::UnexpectedEnd));
    assert!(matches!(error("({ a: 1"), ParseError::UnexpectedEnd));
    assert!(matches!(error("1 2"), ParseError::Unexpected(w) if w == "2"));
    assert!(matches!(error("1 = 2"), ParseError::Unexpected(w) if w == "="));
    assert!(matches!(error("a + * b"), ParseError::Unexpected(w) if w == "*"));
    assert!(matches!(error("}"), ParseError::Unexpected(w) if w == "}"));
    assert!(matches!(error("return 1"), ParseError::Unexpected(w) if w == "return"));
    assert!(matches!(error("var if"), ParseError::Unexpected(w) if w == "if"));
    assert!(matches!(error("a.1"), ParseError::Unexpected(w) if w == "1"));
    assert!(matches!(error("f(a b)"), ParseError::Unexpected(w) if w == "b"));
    assert!(matches!(error("function (a,, b) {}"), ParseError::Unexpected(w) if w == ","));
    assert!(matches!(error("({ a 1 })"), ParseError::Unexpected(w) if w == "1"));
    assert!(matches!(error("if a { }"), ParseError::Unexpected(w) if w == "a"));
    assert!(matches!(
        error("function f() { return 1; 2; }"),
        ParseError::Unexpected(w) if w == "2"
    ));
    assert_eq!(error("1 +").message(), "unexpected end of input");
    assert_eq!(error("1 2").message(), "unexpected `2`");
    assert_eq!(ParseError::TooDeep.message(), "nesting too deep");
}

fn nested(depth: usize) -> String {
    let mut source = String::new();
    for _ in 0..depth {
        source.push('(');
    }
    source.push('1');
    for _ in 0..depth {
        source.push(')');
    }
    source
}

#[test]
fn nesting_up_to_the_bound_parses() {
    assert_eq!(parsed(&nested(150)), "1");
    assert!(matches!(error(&nested(300)), ParseError::TooDeep));
    assert!(matches!(error(&nested(5000)), ParseError::TooDeep));
    let mut bangs = String::new();
    for _ in 0..3000 {
        bangs.push('!');
    }
    bangs.push('x');
    assert!(matches!(error(&bangs), ParseError::TooDeep));
    let mut sum = String::from("1");
    for _ in 0..3000 {
        sum.push_str(" + 1");
    }
    assert!(matches!(error(&sum), ParseError::TooDeep));
}

#[test]
fn lists_of_any_length_parse() {
    let mut statements = String::new();
    for _ in 0..50000 {
        statements.push_str("x = x + 1;\n");
    }
    assert_eq!(parse(&Machine, &statements).unwrap().len(), 50000);
    let mut call = String::from("f(");
    for _ in 0..50000 {
        call.push_str("1, ");
    }
    call.push(')');
    match one_expression(&call) {
        Expression::Call(_, arguments) => assert_eq!(arguments.len(), 50000),
        other => panic!("expected a call, got {:?}", other),
    }
    let mut function = String::from("(function(");
    for i in 0..50000 {
        function.push_str(&format!("p{}, ", i));
    }
    function.push_str("){})");
    match one_expression(&function) {
        Expression::Function(f) => assert_eq!(f.parameters.len(), 50000),
        other => panic!("expected a function, got {:?}", other),
    }
    let mut literal = String::from("({");
    for i in 0..50000 {
        literal.push_str(&format!("k{}: 1, ", i));
    }
    literal.push_str("})");
    match one_expression(&literal) {
        Expression::Object(entries) => assert_eq!(entries.len(), 50000),
        other => panic!("expected an object literal, got {:?}", other),
    }
}

#[test]
fn complete_and_incomplete_sources() {
    assert!(is_complete("var x = 1;"));
    assert!(is_complete(""));
    assert!(is_complete("x"));
    assert!(is_complete("function f() { return 1; }"));
    assert!(is_complete("1 + )"));
    assert!(!is_complete("function f() {"));
    assert!(!is_complete("1 +"));
    assert!(!is_complete("f(1,"));
    assert!(!is_complete("var o = { a: 1,"));
    assert!(!is_complete("\"open"));
    assert!(!is_complete("if (x) { y; } else"));
}

#[test]
fn declarations_and_a_call_parse_to_their_blocks() {
    let block = parse(&Machine, "var o = {}; function a(){ throw o; } function b(){ a(); }")
        .unwrap();
    assert_eq!(block.len(), 3);
    match &block[0] {
        Statement::Declaration(Declaration::Variable(id, Some(Expression::Object(entries)))) => {
            assert_eq!(id, "o");
            assert!(entries.is_empty());
        }
        other => panic!("expected a variable, got {:?}", other),
    }
    match &block[1] {
        Statement::Declaration(Declaration::Function(id, f)) => {
            assert_eq!(id, "a");
            assert_eq!(f.id.as_deref(), Some("a"));
            assert!(f.parameters.is_empty());
            assert!(f.body.return_exp.is_none());
            assert_eq!(f.body.block.len(), 1);
            match &f.body.block[0] {
                Statement::Throw(Expression::Access(Access::Identifier(id))) => {
                    assert_eq!(id, "o")
                }
                other => panic!("expected a throw, got {:?}", other),
            }
        }
        other => panic!("expected a function, got {:?}", other),
    }
    match &block[2] {
        Statement::Declaration(Declaration::Function(id, f)) => {
            assert_eq!(id, "b");
            assert_eq!(f.id.as_deref(), Some("b"));
            assert!(f.parameters.is_empty());
            assert!(f.body.return_exp.is_none());
            assert_eq!(f.body.block.len(), 1);
            match &f.body.block[0] {
                Statement::Expression(e) => assert_eq!(shape(e), "a()"),
                other => panic!("expected a call, got {:?}", other),
            }
        }
        other => panic!("expected a function, got {:?}", other),
    }
    assert_eq!(parsed("b()"), "b()");
}

struct Sevens;

impl Host for Sevens {
    fn number_add(&self, _: u64, _: u64) -> u64 {
        0
    }

    fn number_subtract(&self, _: u64, _: u64) -> u64 {
        0
    }

    fn number_multiply(&self, _: u64, _: u64) -> u64 {
        0
    }

    fn number_divide(&self, _: u64, _: u64) -> u64 {
        0
    }

    fn number_parse(&self, _: &str) -> u64 {
        7.0f64.to_bits()
    }

    fn number_format(&self, _: u64) -> String {
        String::new()
    }

    fn print(&self, _: &str) {
    }

    fn call(&self, _: u64, _: Vec<Value>, _: Context, _: &mut Heap, _: usize) -> JSResult {
        Ok(Value::Undefined)
    }
}

#[test]
fn numbers_belong_to_number_words() {
    let plain = "var o = { a: b }; function f(x) { return x.y(o) || \"1\"; } f(o);";
    assert_eq!(
        format!("{:?}", parse(&Machine, plain).unwrap()),
        format!("{:?}", parse(&Sevens, plain).unwrap())
    );
    assert_eq!(shape(&one_expression("12 + x")), "(12 + x)");
    let block = parse(&Sevens, "12 + x").unwrap();
    match &block[0] {
        Statement::Expression(e) => assert_eq!(shape(e), "(7 + x)"),
        other => panic!("expected an expression, got {:?}", other),
    }
    assert_eq!(
        parse(&Sevens, "1 +").unwrap_err().message(),
        parse(&Machine, "1 +").unwrap_err().message()
    );
}

#[test]
fn a_source_is_complete_unless_parsing_wants_more_text() {
    let sources = [
        "",
        "1",
        "1 +",
        "f(1, 2",
        "var o = { a: 1, b: 2",
        "var o = { a: 1, b: 2 };",
        "function f(a) { return a * 2; }",
        "function f(a) { return a * 2;",
        "if (x) { 1; } else",
        "if (x) { 1; } else { 2; }",
        "1 + )",
        "\"open",
        "o[1",
        "o[1] = 2",
    ];
    for source in sources.iter() {
        let wants_more = matches!(parse(&Machine, source), Err(ParseError::UnexpectedEnd));
        assert_eq!(is_complete(source), !wants_more, "{}", source);
        let wants_more = matches!(parse(&Sevens, source), Err(ParseError::UnexpectedEnd));
        assert_eq!(is_complete(source), !wants_more, "{}", source);
    }
}

#[test]
fn words_are_parsed_with_the_numbers_they_hold() {
    let chars: Vec<char> = "x = 1 + 2;".chars().collect();
    let mut found = scan(&chars).unwrap();
    for word in found.iter_mut() {
        if word.kind == Kind::Number {
            word.number = 9.0f64.to_bits();
        }
    }
    let block = ack::parser::parse::parse_words(&found, &chars).unwrap();
    match &block[0] {
        Statement::Expression(e) => assert_eq!(shape(e), "(x = (9 + 9))"),
        other => panic!("expected an expression, got {:?}", other),
    }
    let (block, _) = ack::parser::parse::parse_with_numbers(&Machine, "x = 1 + 2;");
    match &block.unwrap()[0] {
        Statement::Expression(e) => assert_eq!(shape(e), "(x = (1 + 2))"),
        other => panic!("expected an expression, got {:?}", other),
    }
}
