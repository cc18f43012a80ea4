use ack::lexer::{Lexer, Token, TokenType};

#[test]
fn whitespace() {
    let lexed: Vec<_> = Lexer::new(" \n\r\t").tokens();
    assert_eq!(lexed.len(), 1);
    assert_eq!(lexed[0], Token { which: TokenType::Whitespace, value: " \n\r\t" });
}

#[test]
fn identifier() {
    let lexed: Vec<_> = Lexer::new("hello_there").tokens();
    assert_eq!(lexed.len(), 1);
    assert_eq!(lexed[0], Token { which: TokenType::Identifier, value: "hello_there" });
}

#[test]
fn integer() {
    let lexed: Vec<_> = Lexer::new("1234").tokens();
    assert_eq!(lexed.len(), 1);
    assert_eq!(lexed[0], Token { which: TokenType::Integer, value: "1234" });
}

#[test]
fn symbol() {
    for s in [".", "(", ")"].iter() {
        let lexed: Vec<_> = Lexer::new(s).tokens();
        assert_eq!(lexed.len(), 1);
        assert_eq!(lexed[0], Token { which: TokenType::Symbol, value: s });
    }
}

#[test]
fn lexer_cuts_a_statement_into_tokens() {
    let lexed = Lexer::new("console.log(hello, 42);").tokens();
    let expected = vec![
        Token { which: TokenType::Identifier, value: "console" },
        Token { which: TokenType::Symbol, value: "." },
        Token { which: TokenType::Identifier, value: "log" },
        Token { which: TokenType::Symbol, value: "(" },
        Token { which: TokenType::Identifier, value: "hello" },
        Token { which: TokenType::Symbol, value: "," },
        Token { which: TokenType::Whitespace, value: " " },
        Token { which: TokenType::Integer, value: "42" },
        Token { which: TokenType::Symbol, value: ")" },
        Token { which: TokenType::Symbol, value: ";" },
    ];
    assert_eq!(lexed, expected);
}

#[test]
fn lexer_stops_where_no_class_matches() {
    let mut lexer = Lexer::new("ab+cd");
    assert_eq!(lexer.next(), Some(Token { which: TokenType::Identifier, value: "ab" }));
    assert_eq!(lexer.next(), None);
    assert_eq!(lexer.next(), None);
    assert_eq!(Lexer::new("ab+cd").tokens().len(), 1);
    assert_eq!(Lexer::new("").tokens().len(), 0);
    assert_eq!(Lexer::new("+").tokens().len(), 0);
}

#[test]
fn lexer_follows_the_classes_of_the_regular_expressions() {
    let lexed = Lexer::new("\u{a0}\u{2003}x").tokens();
    assert_eq!(lexed.len(), 2);
    assert_eq!(lexed[0], Token { which: TokenType::Whitespace, value: "\u{a0}\u{2003}" });
    let lexed = Lexer::new("\u{663}\u{664}").tokens();
    assert_eq!(lexed, vec![Token { which: TokenType::Integer, value: "\u{663}\u{664}" }]);
    assert_eq!(Lexer::new("\u{e9}").tokens().len(), 0);
    let lexed = Lexer::new("a1").tokens();
    assert_eq!(
        lexed,
        vec![
            Token { which: TokenType::Identifier, value: "a" },
            Token { which: TokenType::Integer, value: "1" },
        ]
    );
}

#[test]
fn tokens_lie_in_the_source_one_behind_the_other() {
    let source = "console.log(hello, 42);\n  f(x).y;";
    let mut lexer = Lexer::new(source);
    let mut joined = String::new();
    while let Some(token) = lexer.next() {
        assert!(source[joined.len()..].starts_with(token.value));
        joined.push_str(token.value);
    }
    assert_eq!(joined, source);
    let cut: Vec<&str> = Lexer::new("ab cd+ef").tokens().iter().map(|t| t.value).collect();
    assert_eq!(cut, vec!["ab", " ", "cd"]);
}
