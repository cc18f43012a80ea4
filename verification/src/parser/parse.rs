//! The parser: each function reads what the grammar function of the same name says.

use vstd::prelude::*;
use vstd::string::*;
use std::rc::Rc;
use crate::ast;
use crate::ast::{
    Access, Accessor, BinaryOp, Block, Declaration, Expression, InnerBlock, Statement, UnaryOp,
};
use crate::host::Host;
use crate::interpret::value::{Object, Value};
use crate::parser::token::LexemeView;
use crate::parser::grammar;
use crate::parser::grammar::Parsed;
use crate::parser::token::{
    lexeme_views, scan, text_of, Kind, Lexeme, ParseError, ParseErrorView,
};
use crate::text::chars_of;

verus! {

/// The parser read the phrase that the grammar gives, up to the same place, which is at
/// least `least` and within the source, or failed as the grammar does.
pub open spec fn same<T: View>(
    r: Result<(T, usize), ParseError>,
    model: Parsed<T::V>,
    least: int,
    length: nat,
) -> bool {
    match r {
        Ok((phrase, after)) => model == Ok::<(T::V, int), ParseErrorView>(
            (phrase@, after as int),
        ) && least <= after <= length,
        Err(e) => model == Err::<(T::V, int), ParseErrorView>(e@),
    }
}

/// The names of a run of parameters.
pub open spec fn names_view(names: Seq<String>) -> Seq<Seq<char>> {
    Seq::new(names.len(), |i: int| names[i]@)
}

fn kind_ahead(words: &Vec<Lexeme>, pos: usize, ahead: usize) -> (r: Kind)
    requires
        pos <= words.len(),
    ensures
        r == grammar::kind_at(lexeme_views(words@), pos + ahead),
        r != Kind::End ==> pos + ahead < words.len(),
{
    if ahead < words.len() - pos {
        words[pos + ahead].kind
    } else {
        Kind::End
    }
}

fn number_ahead(words: &Vec<Lexeme>, pos: usize) -> (r: u64)
    requires
        pos <= words.len(),
    ensures
        r == grammar::number_at(lexeme_views(words@), pos as int),
{
    if pos < words.len() {
        words[pos].number
    } else {
        0
    }
}

fn text_ahead(words: &Vec<Lexeme>, pos: usize, ahead: usize) -> (r: String)
    requires
        pos <= words.len(),
    ensures
        r@ == grammar::text_at(lexeme_views(words@), pos + ahead),
{
    if ahead < words.len() - pos {
        words[pos + ahead].text.clone()
    } else {
        String::new()
    }
}

fn unexpected(words: &Vec<Lexeme>, pos: usize, ahead: usize) -> (r: ParseError)
    requires
        pos <= words.len(),
    ensures
        r@ == grammar::unexpected(lexeme_views(words@), pos + ahead),
{
    if ahead < words.len() - pos {
        ParseError::Unexpected(words[pos + ahead].text.clone())
    } else {
        ParseError::UnexpectedEnd
    }
}

fn expect(words: &Vec<Lexeme>, pos: usize, kind: Kind) -> (r: Result<usize, ParseError>)
    requires
        pos <= words.len(),
        kind != Kind::End,
    ensures
        match r {
            Ok(after) => grammar::expect(lexeme_views(words@), pos as int, kind) == Ok::<
                int,
                ParseErrorView,
            >(after as int) && after <= words.len(),
            Err(e) => grammar::expect(lexeme_views(words@), pos as int, kind) == Err::<
                int,
                ParseErrorView,
            >(e@),
        },
{
    if kind_ahead(words, pos, 0) == kind {
        Ok(pos + 1)
    } else {
        Err(unexpected(words, pos, 0))
    }
}

fn end_of_statement(words: &Vec<Lexeme>, pos: usize) -> (r: Result<usize, ParseError>)
    requires
        pos <= words.len(),
    ensures
        match r {
            Ok(after) => grammar::end_of_statement(lexeme_views(words@), pos as int) == Ok::<
                int,
                ParseErrorView,
            >(after as int) && after <= words.len(),
            Err(e) => grammar::end_of_statement(lexeme_views(words@), pos as int) == Err::<
                int,
                ParseErrorView,
            >(e@),
        },
{
    let kind = kind_ahead(words, pos, 0);
    if kind == Kind::Semicolon {
        Ok(pos + 1)
    } else if kind == Kind::End || kind == Kind::RightBrace {
        Ok(pos)
    } else {
        Err(unexpected(words, pos, 0))
    }
}

fn operator(level: u8, kind: Kind) -> (r: Option<BinaryOp>)
    ensures
        r == grammar::operator(level as int, kind),
{
    if level == 0 && kind == Kind::OrOr {
        Some(BinaryOp::LogicalOr)
    } else if level == 1 && kind == Kind::AndAnd {
        Some(BinaryOp::LogicalAnd)
    } else if level == 2 && kind == Kind::Plus {
        Some(BinaryOp::Add)
    } else if level == 2 && kind == Kind::Minus {
        Some(BinaryOp::Subtract)
    } else if level == 3 && kind == Kind::Star {
        Some(BinaryOp::Multiply)
    } else if level == 3 && kind == Kind::Slash {
        Some(BinaryOp::Divide)
    } else {
        None
    }
}

fn prefix(kind: Kind) -> (r: Option<UnaryOp>)
    ensures
        r == grammar::prefix(kind),
{
    if kind == Kind::Plus {
        Some(UnaryOp::Positive)
    } else if kind == Kind::Minus {
        Some(UnaryOp::Negative)
    } else if kind == Kind::Bang {
        Some(UnaryOp::LogicalNot)
    } else {
        None
    }
}

fn source_between(words: &Vec<Lexeme>, chars: &Vec<char>, from: usize, to: usize) -> (r: String)
    ensures
        r@ == grammar::source_between(lexeme_views(words@), chars@, from as int, to as int),
{
    if from < to && to <= words.len() {
        let start = words[from].start;
        let end = words[to - 1].end;
        if start <= end && end <= chars.len() {
            text_of(chars, start, end)
        } else {
            String::new()
        }
    } else {
        String::new()
    }
}

fn parse_primary(
    words: &Vec<Lexeme>,
    chars: &Vec<char>,
    pos: usize,
    fuel: usize,
) -> (r: Result<(Expression, usize), ParseError>)
    requires
        pos <= words.len(),
    ensures
        same(
            r,
            grammar::parse_primary(lexeme_views(words@), chars@, pos as int, fuel as nat),
            pos + 1,
            words@.len(),
        ),
    decreases fuel, words.len() - pos,
{
    if fuel == 0 {
        return Err(ParseError::TooDeep);
    }
    proof {
        reveal_with_fuel(ast::expression_view, 3);
    }
    match kind_ahead(words, pos, 0) {
        Kind::Number => Ok(
            (
                Expression::Literal(
                    Value::Number(number_ahead(words, pos)),
                ),
                pos + 1,
            ),
        ),
        Kind::Text => Ok(
            (Expression::Literal(Value::String(text_ahead(words, pos, 0))), pos + 1),
        ),
        Kind::Name => Ok(
            (Expression::Access(Access::Identifier(text_ahead(words, pos, 0))), pos + 1),
        ),
        Kind::This => Ok((Expression::This, pos + 1)),
        Kind::Undefined => Ok((Expression::Literal(Value::Undefined), pos + 1)),
        Kind::Null => Ok((Expression::Literal(Value::Object(Object::Null)), pos + 1)),
        Kind::True => Ok((Expression::Literal(Value::Boolean(true)), pos + 1)),
        Kind::False => Ok((Expression::Literal(Value::Boolean(false)), pos + 1)),
        Kind::Function => match parse_function(words, chars, pos, fuel - 1) {
            Err(e) => Err(e),
            Ok((function, after)) => Ok((Expression::Function(Rc::new(function)), after)),
        },
        Kind::LeftBrace => {
            let entries: Vec<(String, Expression)> = Vec::new();
            assert(ast::entries_view(entries) =~= Seq::empty());
            match parse_entries(words, chars, pos + 1, fuel - 1, entries) {
                Err(e) => Err(e),
                Ok((entries, after)) => Ok((Expression::Object(entries), after)),
            }
        },
        Kind::LeftParen => match parse_assignment(words, chars, pos + 1, fuel - 1) {
            Err(e) => Err(e),
            Ok((inner, after)) => match expect(words, after, Kind::RightParen) {
                Err(e) => Err(e),
                Ok(end) => Ok((inner, end)),
            },
        },
        _ => Err(unexpected(words, pos, 0)),
    }
}

fn parse_function(
    words: &Vec<Lexeme>,
    chars: &Vec<char>,
    pos: usize,
    fuel: usize,
) -> (r: Result<(ast::Function, usize), ParseError>)
    requires
        pos <= words.len(),
    ensures
        same(
            r,
            grammar::parse_function(lexeme_views(words@), chars@, pos as int, fuel as nat),
            pos + 1,
            words@.len(),
        ),
    decreases fuel, words.len() - pos,
{
    if fuel == 0 {
        return Err(ParseError::TooDeep);
    }
    if kind_ahead(words, pos, 0) != Kind::Function {
        return Err(unexpected(words, pos, 0));
    }
    let named = kind_ahead(words, pos, 1) == Kind::Name;
    let open = if named {
        pos + 2
    } else {
        pos + 1
    };
    let first = match expect(words, open, Kind::LeftParen) {
        Ok(first) => first,
        Err(e) => {
            return Err(e);
        },
    };
    let names: Vec<String> = Vec::new();
    assert(names_view(names@) =~= Seq::empty());
    let (parameters, after) = match parse_parameters(words, first, fuel - 1, names) {
        Ok(found) => found,
        Err(e) => {
            return Err(e);
        },
    };
    let (body, end) = match parse_braced(words, chars, after, fuel - 1) {
        Ok(found) => found,
        Err(e) => {
            return Err(e);
        },
    };
    let function = ast::Function {
        id: if named {
            Some(text_ahead(words, pos, 1))
        } else {
            None
        },
        parameters: parameters,
        body: body,
        source: source_between(words, chars, pos, end),
    };
    assert(function@.parameters =~= names_view(parameters@));
    Ok((function, end))
}

fn parse_parameters(words: &Vec<Lexeme>, pos: usize, fuel: usize, so_far: Vec<String>) -> (r:
    Result<(Vec<String>, usize), ParseError>)
    requires
        pos <= words.len(),
    ensures
        match r {
            Ok((names, after)) => grammar::parse_parameters(
                lexeme_views(words@),
                pos as int,
                fuel as nat,
                names_view(so_far@),
            ) == Ok::<(Seq<Seq<char>>, int), ParseErrorView>((names_view(names@), after as int))
                && pos < after <= words.len(),
            Err(e) => grammar::parse_parameters(
                lexeme_views(words@),
                pos as int,
                fuel as nat,
                names_view(so_far@),
            ) == Err::<(Seq<Seq<char>>, int), ParseErrorView>(e@),
        },
    decreases fuel, words.len() - pos,
{
    let ghost whole = grammar::parse_parameters(
        lexeme_views(words@),
        pos as int,
        fuel as nat,
        names_view(so_far@),
    );
    let mut names = so_far;
    let mut at = pos;
    if fuel == 0 {
        return Err(ParseError::TooDeep);
    }
    loop
        invariant
            pos <= at <= words.len(),
            fuel > 0,
            whole == grammar::parse_parameters(
                lexeme_views(words@),
                pos as int,
                fuel as nat,
                names_view(so_far@),
            ),
            grammar::parse_parameters(
                lexeme_views(words@),
                at as int,
                fuel as nat,
                names_view(names@),
            ) == whole,
        decreases words.len() - at,
    {
        let kind = kind_ahead(words, at, 0);
        if kind == Kind::RightParen {
            return Ok((names, at + 1));
        } else if kind == Kind::Name {
            let next = kind_ahead(words, at, 1);
            if next == Kind::Comma || next == Kind::RightParen {
                let ghost before = names_view(names@);
                let name = text_ahead(words, at, 0);
                names.push(name);
                assert(names_view(names@) =~= before.push(name@));
                if next == Kind::RightParen {
                    return Ok((names, at + 2));
                }
                at = at + 2;
            } else {
                return Err(unexpected(words, at, 1));
            }
        } else {
            return Err(unexpected(words, at, 0));
        }
    }
}

fn parse_entries(
    words: &Vec<Lexeme>,
    chars: &Vec<char>,
    pos: usize,
    fuel: usize,
    so_far: Vec<(String, Expression)>,
) -> (r: Result<(Vec<(String, Expression)>, usize), ParseError>)
    requires
        pos <= words.len(),
    ensures
        match r {
            Ok((entries, after)) => grammar::parse_entries(
                lexeme_views(words@),
                chars@,
                pos as int,
                fuel as nat,
                ast::entries_view(so_far),
            ) == Ok::<(Seq<(Seq<char>, ast::ExpressionView)>, int), ParseErrorView>(
                (ast::entries_view(entries), after as int),
            ) && pos < after <= words.len(),
            Err(e) => grammar::parse_entries(
                lexeme_views(words@),
                chars@,
                pos as int,
                fuel as nat,
                ast::entries_view(so_far),
            ) == Err::<(Seq<(Seq<char>, ast::ExpressionView)>, int), ParseErrorView>(e@),
        },
    decreases fuel, words.len() - pos,
{
    let ghost whole = grammar::parse_entries(
        lexeme_views(words@),
        chars@,
        pos as int,
        fuel as nat,
        ast::entries_view(so_far),
    );
    let mut entries = so_far;
    let mut at = pos;
    if fuel == 0 {
        return Err(ParseError::TooDeep);
    }
    loop
        invariant
            pos <= at <= words.len(),
            fuel > 0,
            whole == grammar::parse_entries(
                lexeme_views(words@),
                chars@,
                pos as int,
                fuel as nat,
                ast::entries_view(so_far),
            ),
            grammar::parse_entries(
                lexeme_views(words@),
                chars@,
                at as int,
                fuel as nat,
                ast::entries_view(entries),
            ) == whole,
        decreases words.len() - at,
    {
        let kind = kind_ahead(words, at, 0);
        if kind == Kind::RightBrace {
            return Ok((entries, at + 1));
        }
        if !(kind == Kind::Name || kind == Kind::Text || kind == Kind::Number) {
            return Err(unexpected(words, at, 0));
        }
        let first = match expect(words, at + 1, Kind::Colon) {
            Ok(first) => first,
            Err(e) => {
                return Err(e);
            },
        };
        let (value, after) = match parse_assignment(words, chars, first, fuel - 1) {
            Ok(found) => found,
            Err(e) => {
                return Err(e);
            },
        };
        let next = kind_ahead(words, after, 0);
        if next == Kind::Comma || next == Kind::RightBrace {
            let ghost before = ast::entries_view(entries);
            let key = text_ahead(words, at, 0);
            let ghost added = (key@, value@);
            entries.push((key, value));
            assert(ast::entries_view(entries) =~= before.push(added));
            if next == Kind::RightBrace {
                return Ok((entries, after + 1));
            }
            at = after + 1;
        } else {
            return Err(unexpected(words, after, 0));
        }
    }
}

fn parse_arguments(
    words: &Vec<Lexeme>,
    chars: &Vec<char>,
    pos: usize,
    fuel: usize,
    so_far: Vec<Expression>,
) -> (r: Result<(Vec<Expression>, usize), ParseError>)
    requires
        pos <= words.len(),
    ensures
        match r {
            Ok((arguments, after)) => grammar::parse_arguments(
                lexeme_views(words@),
                chars@,
                pos as int,
                fuel as nat,
                ast::expressions_view(so_far),
            ) == Ok::<(Seq<ast::ExpressionView>, int), ParseErrorView>(
                (ast::expressions_view(arguments), after as int),
            ) && pos < after <= words.len(),
            Err(e) => grammar::parse_arguments(
                lexeme_views(words@),
                chars@,
                pos as int,
                fuel as nat,
                ast::expressions_view(so_far),
            ) == Err::<(Seq<ast::ExpressionView>, int), ParseErrorView>(e@),
        },
    decreases fuel, words.len() - pos,
{
    let ghost whole = grammar::parse_arguments(
        lexeme_views(words@),
        chars@,
        pos as int,
        fuel as nat,
        ast::expressions_view(so_far),
    );
    let mut arguments = so_far;
    let mut at = pos;
    if fuel == 0 {
        return Err(ParseError::TooDeep);
    }
    loop
        invariant
            pos <= at <= words.len(),
            fuel > 0,
            whole == grammar::parse_arguments(
                lexeme_views(words@),
                chars@,
                pos as int,
                fuel as nat,
                ast::expressions_view(so_far),
            ),
            grammar::parse_arguments(
                lexeme_views(words@),
                chars@,
                at as int,
                fuel as nat,
                ast::expressions_view(arguments),
            ) == whole,
        decreases words.len() - at,
    {
        if kind_ahead(words, at, 0) == Kind::RightParen {
            return Ok((arguments, at + 1));
        }
        let (value, after) = match parse_assignment(words, chars, at, fuel - 1) {
            Ok(found) => found,
            Err(e) => {
                return Err(e);
            },
        };
        let next = kind_ahead(words, after, 0);
        if next == Kind::Comma || next == Kind::RightParen {
            let ghost before = ast::expressions_view(arguments);
            let ghost added = value@;
            arguments.push(value);
            assert(ast::expressions_view(arguments) =~= before.push(added));
            if next == Kind::RightParen {
                return Ok((arguments, after + 1));
            }
            at = after + 1;
        } else {
            return Err(unexpected(words, after, 0));
        }
    }
}

fn parse_postfix(
    words: &Vec<Lexeme>,
    chars: &Vec<char>,
    pos: usize,
    fuel: usize,
) -> (r: Result<(Expression, usize), ParseError>)
    requires
        pos <= words.len(),
    ensures
        same(
            r,
            grammar::parse_postfix(lexeme_views(words@), chars@, pos as int, fuel as nat),
            pos + 1,
            words@.len(),
        ),
    decreases fuel, words.len() - pos,
{
    if fuel == 0 {
        return Err(ParseError::TooDeep);
    }
    match parse_primary(words, chars, pos, fuel - 1) {
        Err(e) => Err(e),
        Ok((primary, after)) => parse_postfix_rest(words, chars, primary, after, fuel - 1),
    }
}

fn parse_postfix_rest(
    words: &Vec<Lexeme>,
    chars: &Vec<char>,
    left: Expression,
    pos: usize,
    fuel: usize,
) -> (r: Result<(Expression, usize), ParseError>)
    requires
        pos <= words.len(),
    ensures
        same(
            r,
            grammar::parse_postfix_rest(
                lexeme_views(words@),
                chars@,
                left@,
                pos as int,
                fuel as nat,
            ),
            pos as int,
            words@.len(),
        ),
    decreases fuel, words.len() - pos,
{
    let ghost whole = grammar::parse_postfix_rest(
        lexeme_views(words@),
        chars@,
        left@,
        pos as int,
        fuel as nat,
    );
    let mut whole_so_far = left;
    let mut at = pos;
    let mut remaining = fuel;
    loop
        invariant
            pos <= at <= words.len(),
            remaining <= fuel,
            whole == grammar::parse_postfix_rest(
                lexeme_views(words@),
                chars@,
                left@,
                pos as int,
                fuel as nat,
            ),
            grammar::parse_postfix_rest(
                lexeme_views(words@),
                chars@,
                whole_so_far@,
                at as int,
                remaining as nat,
            ) == whole,
        decreases remaining,
    {
        if remaining == 0 {
            return Err(ParseError::TooDeep);
        }
        let ghost before = whole_so_far@;
        match kind_ahead(words, at, 0) {
            Kind::Dot => {
                if kind_ahead(words, at, 1) != Kind::Name {
                    return Err(unexpected(words, at, 1));
                }
                whole_so_far =
                Expression::Access(
                    Access::Member(
                        Box::new(whole_so_far),
                        Accessor::Identifier(text_ahead(words, at, 1)),
                    ),
                );
                assert(whole_so_far@ == ast::ExpressionView::Access(
                    ast::AccessView::Member(
                        Box::new(before),
                        ast::AccessorView::Identifier(
                            grammar::text_at(lexeme_views(words@), at + 1),
                        ),
                    ),
                )) by {
                    reveal_with_fuel(ast::expression_view, 3);
                }
                at = at + 2;
            },
            Kind::LeftBracket => {
                let (key, after) = match parse_assignment(
                    words,
                    chars,
                    at + 1,
                    remaining - 1,
                ) {
                    Ok(found) => found,
                    Err(e) => {
                        return Err(e);
                    },
                };
                let end = match expect(words, after, Kind::RightBracket) {
                    Ok(end) => end,
                    Err(e) => {
                        return Err(e);
                    },
                };
                let ghost key_view = key@;
                whole_so_far =
                Expression::Access(
                    Access::Member(Box::new(whole_so_far), Accessor::Expression(Box::new(key))),
                );
                assert(whole_so_far@ == ast::ExpressionView::Access(
                    ast::AccessView::Member(
                        Box::new(before),
                        ast::AccessorView::Expression(Box::new(key_view)),
                    ),
                )) by {
                    reveal_with_fuel(ast::expression_view, 3);
                }
                at = end;
            },
            Kind::LeftParen => {
                let none: Vec<Expression> = Vec::new();
                assert(ast::expressions_view(none) =~= Seq::empty());
                let (arguments, end) = match parse_arguments(
                    words,
                    chars,
                    at + 1,
                    remaining - 1,
                    none,
                ) {
                    Ok(found) => found,
                    Err(e) => {
                        return Err(e);
                    },
                };
                whole_so_far = Expression::Call(Box::new(whole_so_far), arguments);
                at = end;
            },
            _ => {
                return Ok((whole_so_far, at));
            },
        }
        remaining = remaining - 1;
    }
}

fn parse_unary(
    words: &Vec<Lexeme>,
    chars: &Vec<char>,
    pos: usize,
    fuel: usize,
) -> (r: Result<(Expression, usize), ParseError>)
    requires
        pos <= words.len(),
    ensures
        same(
            r,
            grammar::parse_unary(lexeme_views(words@), chars@, pos as int, fuel as nat),
            pos + 1,
            words@.len(),
        ),
    decreases fuel, words.len() - pos,
{
    if fuel == 0 {
        return Err(ParseError::TooDeep);
    }
    match prefix(kind_ahead(words, pos, 0)) {
        Some(op) => match parse_unary(words, chars, pos + 1, fuel - 1) {
            Err(e) => Err(e),
            Ok((operand, after)) => Ok((Expression::Unary(op, Box::new(operand)), after)),
        },
        None => parse_postfix(words, chars, pos, fuel - 1),
    }
}

fn parse_binary(
    words: &Vec<Lexeme>,
    chars: &Vec<char>,
    level: u8,
    pos: usize,
    fuel: usize,
) -> (r: Result<(Expression, usize), ParseError>)
    requires
        pos <= words.len(),
        level <= 4,
    ensures
        same(
            r,
            grammar::parse_binary(
                lexeme_views(words@),
                chars@,
                level as int,
                pos as int,
                fuel as nat,
            ),
            pos + 1,
            words@.len(),
        ),
    decreases fuel, words.len() - pos,
{
    if fuel == 0 {
        return Err(ParseError::TooDeep);
    }
    if level > 3 {
        return parse_unary(words, chars, pos, fuel - 1);
    }
    match parse_binary(words, chars, level + 1, pos, fuel - 1) {
        Err(e) => Err(e),
        Ok((left, after)) => parse_binary_rest(words, chars, level, left, after, fuel - 1),
    }
}

fn parse_binary_rest(
    words: &Vec<Lexeme>,
    chars: &Vec<char>,
    level: u8,
    left: Expression,
    pos: usize,
    fuel: usize,
) -> (r: Result<(Expression, usize), ParseError>)
    requires
        pos <= words.len(),
        level <= 3,
    ensures
        same(
            r,
            grammar::parse_binary_rest(
                lexeme_views(words@),
                chars@,
                level as int,
                left@,
                pos as int,
                fuel as nat,
            ),
            pos as int,
            words@.len(),
        ),
    decreases fuel, words.len() - pos,
{
    let ghost whole = grammar::parse_binary_rest(
        lexeme_views(words@),
        chars@,
        level as int,
        left@,
        pos as int,
        fuel as nat,
    );
    let mut joined = left;
    let mut at = pos;
    let mut remaining = fuel;
    loop
        invariant
            pos <= at <= words.len(),
            remaining <= fuel,
            level <= 3,
            whole == grammar::parse_binary_rest(
                lexeme_views(words@),
                chars@,
                level as int,
                left@,
                pos as int,
                fuel as nat,
            ),
            grammar::parse_binary_rest(
                lexeme_views(words@),
                chars@,
                level as int,
                joined@,
                at as int,
                remaining as nat,
            ) == whole,
        decreases remaining,
    {
        if remaining == 0 {
            return Err(ParseError::TooDeep);
        }
        match operator(level, kind_ahead(words, at, 0)) {
            Some(op) => match parse_binary(words, chars, level + 1, at + 1, remaining - 1) {
                Err(e) => {
                    return Err(e);
                },
                Ok((right, after)) => {
                    joined = Expression::Binary(op, Box::new(joined), Box::new(right));
                    at = after;
                    remaining = remaining - 1;
                },
            },
            None => {
                return Ok((joined, at));
            },
        }
    }
}

fn parse_ternary(
    words: &Vec<Lexeme>,
    chars: &Vec<char>,
    pos: usize,
    fuel: usize,
) -> (r: Result<(Expression, usize), ParseError>)
    requires
        pos <= words.len(),
    ensures
        same(
            r,
            grammar::parse_ternary(lexeme_views(words@), chars@, pos as int, fuel as nat),
            pos + 1,
            words@.len(),
        ),
    decreases fuel, words.len() - pos,
{
    if fuel == 0 {
        return Err(ParseError::TooDeep);
    }
    let (condition, after) = match parse_binary(words, chars, 0, pos, fuel - 1) {
        Ok(found) => found,
        Err(e) => {
            return Err(e);
        },
    };
    if kind_ahead(words, after, 0) != Kind::Question {
        return Ok((condition, after));
    }
    let (consequent, colon) = match parse_assignment(words, chars, after + 1, fuel - 1) {
        Ok(found) => found,
        Err(e) => {
            return Err(e);
        },
    };
    let first = match expect(words, colon, Kind::Colon) {
        Ok(first) => first,
        Err(e) => {
            return Err(e);
        },
    };
    match parse_assignment(words, chars, first, fuel - 1) {
        Err(e) => Err(e),
        Ok((alternate, end)) => Ok(
            (
                Expression::Ternary(
                    Box::new(condition),
                    Box::new(consequent),
                    Box::new(alternate),
                ),
                end,
            ),
        ),
    }
}

fn parse_assignment(
    words: &Vec<Lexeme>,
    chars: &Vec<char>,
    pos: usize,
    fuel: usize,
) -> (r: Result<(Expression, usize), ParseError>)
    requires
        pos <= words.len(),
    ensures
        same(
            r,
            grammar::parse_assignment(lexeme_views(words@), chars@, pos as int, fuel as nat),
            pos + 1,
            words@.len(),
        ),
    decreases fuel, words.len() - pos,
{
    if fuel == 0 {
        return Err(ParseError::TooDeep);
    }
    let (left, after) = match parse_ternary(words, chars, pos, fuel - 1) {
        Ok(found) => found,
        Err(e) => {
            return Err(e);
        },
    };
    if kind_ahead(words, after, 0) != Kind::Assign {
        return Ok((left, after));
    }
    match left {
        Expression::Access(place) => {
            assert(left@ == ast::ExpressionView::Access(place@));
            match parse_assignment(words, chars, after + 1, fuel - 1) {
                Err(e) => Err(e),
                Ok((value, end)) => Ok((Expression::Assignment(place, Box::new(value)), end)),
            }
        },
        _ => Err(unexpected(words, after, 0)),
    }
}

fn parse_braced(
    words: &Vec<Lexeme>,
    chars: &Vec<char>,
    pos: usize,
    fuel: usize,
) -> (r: Result<(InnerBlock, usize), ParseError>)
    requires
        pos <= words.len(),
    ensures
        same(
            r,
            grammar::parse_braced(lexeme_views(words@), chars@, pos as int, fuel as nat),
            pos + 1,
            words@.len(),
        ),
    decreases fuel, words.len() - pos,
{
    if fuel == 0 {
        return Err(ParseError::TooDeep);
    }
    let first = match expect(words, pos, Kind::LeftBrace) {
        Ok(first) => first,
        Err(e) => {
            return Err(e);
        },
    };
    let (block, after) = match parse_inner_block(words, chars, first, fuel - 1) {
        Ok(found) => found,
        Err(e) => {
            return Err(e);
        },
    };
    match expect(words, after, Kind::RightBrace) {
        Err(e) => Err(e),
        Ok(end) => Ok((block, end)),
    }
}

fn parse_inner_block(
    words: &Vec<Lexeme>,
    chars: &Vec<char>,
    pos: usize,
    fuel: usize,
) -> (r: Result<(InnerBlock, usize), ParseError>)
    requires
        pos <= words.len(),
    ensures
        same(
            r,
            grammar::parse_inner_block(lexeme_views(words@), chars@, pos as int, fuel as nat),
            pos as int,
            words@.len(),
        ),
    decreases fuel, words.len() - pos,
{
    if fuel == 0 {
        return Err(ParseError::TooDeep);
    }
    let none: Vec<Statement> = Vec::new();
    assert(ast::block_view(none) =~= Seq::empty());
    let (block, after) = match parse_statements(words, chars, pos, fuel - 1, none) {
        Ok(found) => found,
        Err(e) => {
            return Err(e);
        },
    };
    if kind_ahead(words, after, 0) != Kind::Return {
        return Ok((InnerBlock { block: block, return_exp: None }, after));
    }
    match end_of_statement(words, after + 1) {
        Ok(end) => Ok(
            (
                InnerBlock {
                    block: block,
                    return_exp: Some(Box::new(Expression::Literal(Value::Undefined))),
                },
                end,
            ),
        ),
        Err(_) => {
            let (value, semicolon) = match parse_assignment(
                words,
                chars,
                after + 1,
                fuel - 1,
            ) {
                Ok(found) => found,
                Err(e) => {
                    return Err(e);
                },
            };
            match end_of_statement(words, semicolon) {
                Err(e) => Err(e),
                Ok(end) => Ok(
                    (InnerBlock { block: block, return_exp: Some(Box::new(value)) }, end),
                ),
            }
        },
    }
}

fn parse_statements(
    words: &Vec<Lexeme>,
    chars: &Vec<char>,
    pos: usize,
    fuel: usize,
    so_far: Vec<Statement>,
) -> (r: Result<(Vec<Statement>, usize), ParseError>)
    requires
        pos <= words.len(),
    ensures
        match r {
            Ok((block, after)) => grammar::parse_statements(
                lexeme_views(words@),
                chars@,
                pos as int,
                fuel as nat,
                ast::block_view(so_far),
            ) == Ok::<(Seq<ast::StatementView>, int), ParseErrorView>(
                (ast::block_view(block), after as int),
            ) && pos <= after <= words.len(),
            Err(e) => grammar::parse_statements(
                lexeme_views(words@),
                chars@,
                pos as int,
                fuel as nat,
                ast::block_view(so_far),
            ) == Err::<(Seq<ast::StatementView>, int), ParseErrorView>(e@),
        },
    decreases fuel, words.len() - pos,
{
    let ghost whole = grammar::parse_statements(
        lexeme_views(words@),
        chars@,
        pos as int,
        fuel as nat,
        ast::block_view(so_far),
    );
    let mut block = so_far;
    let mut at = pos;
    if fuel == 0 {
        return Err(ParseError::TooDeep);
    }
    loop
        invariant
            pos <= at <= words.len(),
            fuel > 0,
            whole == grammar::parse_statements(
                lexeme_views(words@),
                chars@,
                pos as int,
                fuel as nat,
                ast::block_view(so_far),
            ),
            grammar::parse_statements(
                lexeme_views(words@),
                chars@,
                at as int,
                fuel as nat,
                ast::block_view(block),
            ) == whole,
        decreases words.len() - at,
    {
        let kind = kind_ahead(words, at, 0);
        if kind == Kind::End || kind == Kind::RightBrace || kind == Kind::Return {
            return Ok((block, at));
        }
        match parse_statement(words, chars, at, fuel - 1) {
            Err(e) => {
                return Err(e);
            },
            Ok((statement, after)) => {
                let ghost before = ast::block_view(block);
                let ghost added = statement@;
                block.push(statement);
                assert(ast::block_view(block) =~= before.push(added));
                at = after;
            },
        }
    }
}

fn parse_if(
    words: &Vec<Lexeme>,
    chars: &Vec<char>,
    pos: usize,
    fuel: usize,
) -> (r: Result<(Statement, usize), ParseError>)
    requires
        pos < words.len(),
    ensures
        same(
            r,
            grammar::parse_if(lexeme_views(words@), chars@, pos as int, fuel as nat),
            pos + 1,
            words@.len(),
        ),
    decreases fuel, words.len() - pos,
{
    if fuel == 0 {
        return Err(ParseError::TooDeep);
    }
    let first = match expect(words, pos + 1, Kind::LeftParen) {
        Ok(first) => first,
        Err(e) => {
            return Err(e);
        },
    };
    let (condition, close) = match parse_assignment(words, chars, first, fuel - 1) {
        Ok(found) => found,
        Err(e) => {
            return Err(e);
        },
    };
    let open = match expect(words, close, Kind::RightParen) {
        Ok(open) => open,
        Err(e) => {
            return Err(e);
        },
    };
    let (consequent, after) = match parse_braced(words, chars, open, fuel - 1) {
        Ok(found) => found,
        Err(e) => {
            return Err(e);
        },
    };
    if kind_ahead(words, after, 0) != Kind::Else {
        return Ok((Statement::If(condition, consequent, None), after));
    }
    if kind_ahead(words, after, 1) == Kind::If {
        match parse_if(words, chars, after + 1, fuel - 1) {
            Err(e) => Err(e),
            Ok((nested, end)) => {
                let ghost nested_view = nested@;
                let mut block: Vec<Statement> = Vec::new();
                block.push(nested);
                assert(ast::block_view(block) =~= seq![nested_view]);
                let alternate = InnerBlock { block: block, return_exp: None };
                let statement = Statement::If(condition, consequent, Some(alternate));
                assert(statement@ == ast::StatementView::If(
                    condition@,
                    consequent@,
                    Some(ast::InnerBlockView { block: seq![nested_view], return_exp: None }),
                )) by {
                    reveal_with_fuel(ast::statement_view, 3);
                }
                Ok((statement, end))
            },
        }
    } else {
        match parse_braced(words, chars, after + 1, fuel - 1) {
            Err(e) => Err(e),
            Ok((alternate, end)) => Ok(
                (Statement::If(condition, consequent, Some(alternate)), end),
            ),
        }
    }
}

fn parse_statement(
    words: &Vec<Lexeme>,
    chars: &Vec<char>,
    pos: usize,
    fuel: usize,
) -> (r: Result<(Statement, usize), ParseError>)
    requires
        pos <= words.len(),
    ensures
        same(
            r,
            grammar::parse_statement(lexeme_views(words@), chars@, pos as int, fuel as nat),
            pos + 1,
            words@.len(),
        ),
    decreases fuel, words.len() - pos,
{
    if fuel == 0 {
        return Err(ParseError::TooDeep);
    }
    match kind_ahead(words, pos, 0) {
        Kind::Semicolon => Ok((Statement::Empty, pos + 1)),
        Kind::Var => {
            if kind_ahead(words, pos, 1) != Kind::Name {
                return Err(unexpected(words, pos, 1));
            }
            let name = text_ahead(words, pos, 1);
            if kind_ahead(words, pos, 2) != Kind::Assign {
                match end_of_statement(words, pos + 2) {
                    Err(e) => Err(e),
                    Ok(end) => {
                        let statement = Statement::Declaration(Declaration::Variable(name, None));
                        assert(statement@ == ast::StatementView::Declaration(
                            ast::DeclarationView::Variable(name@, None),
                        )) by {
                            reveal_with_fuel(ast::statement_view, 3);
                        }
                        Ok((statement, end))
                    },
                }
            } else {
                let (init, after) = match parse_assignment(
                    words,
                    chars,
                    pos + 3,
                    fuel - 1,
                ) {
                    Ok(found) => found,
                    Err(e) => {
                        return Err(e);
                    },
                };
                match end_of_statement(words, after) {
                    Err(e) => Err(e),
                    Ok(end) => {
                        let ghost init_view = init@;
                        let statement = Statement::Declaration(
                            Declaration::Variable(name, Some(init)),
                        );
                        assert(statement@ == ast::StatementView::Declaration(
                            ast::DeclarationView::Variable(name@, Some(init_view)),
                        )) by {
                            reveal_with_fuel(ast::statement_view, 3);
                        }
                        Ok((statement, end))
                    },
                }
            }
        },
        Kind::Throw => {
            let (thrown, after) = match parse_assignment(words, chars, pos + 1, fuel - 1) {
                Ok(found) => found,
                Err(e) => {
                    return Err(e);
                },
            };
            match end_of_statement(words, after) {
                Err(e) => Err(e),
                Ok(end) => Ok((Statement::Throw(thrown), end)),
            }
        },
        Kind::If => parse_if(words, chars, pos, fuel - 1),
        kind => {
            if kind == Kind::Function && kind_ahead(words, pos, 1) == Kind::Name {
                match parse_function(words, chars, pos, fuel - 1) {
                    Err(e) => Err(e),
                    Ok((function, end)) => {
                        let name = text_ahead(words, pos, 1);
                        let ghost function_view = function@;
                        let statement = Statement::Declaration(
                            Declaration::Function(name, Rc::new(function)),
                        );
                        assert(statement@ == ast::StatementView::Declaration(
                            ast::DeclarationView::Function(name@, function_view),
                        )) by {
                            reveal_with_fuel(ast::statement_view, 3);
                        }
                        Ok((statement, end))
                    },
                }
            } else {
                let (expression, after) = match parse_assignment(
                    words,
                    chars,
                    pos,
                    fuel - 1,
                ) {
                    Ok(found) => found,
                    Err(e) => {
                        return Err(e);
                    },
                };
                match end_of_statement(words, after) {
                    Err(e) => Err(e),
                    Ok(end) => Ok((Statement::Expression(expression), end)),
                }
            }
        },
    }
}

/// The parser gave what the grammar gives.
pub open spec fn is_parse(
    r: Result<Block, ParseError>,
    model: Result<Seq<ast::StatementView>, ParseErrorView>,
) -> bool {
    match r {
        Ok(block) => model == Ok::<Seq<ast::StatementView>, ParseErrorView>(
            ast::block_view(block),
        ),
        Err(e) => model == Err::<Seq<ast::StatementView>, ParseErrorView>(e@),
    }
}

/// Parses the words of a source into the block that the grammar gives for them.
pub fn parse_words(words: &Vec<Lexeme>, chars: &Vec<char>) -> (r: Result<Block, ParseError>)
    ensures
        is_parse(r, grammar::parse_words(lexeme_views(words@), chars@)),
{
    let none: Vec<Statement> = Vec::new();
    assert(ast::block_view(none) =~= Seq::empty());
    match parse_statements(words, chars, 0, grammar::NESTING, none) {
        Err(e) => Err(e),
        Ok((block, after)) => {
            if kind_ahead(words, after, 0) == Kind::End {
                Ok(block)
            } else {
                Err(unexpected(words, after, 0))
            }
        },
    }
}

/// Asks the host to read each number word, and gives the numbers that it read, one for
/// each word; the number of a word that is no number stays as it is.
fn read_numbers<H: Host>(host: &H, words: &mut Vec<Lexeme>) -> (numbers: Ghost<Seq<u64>>)
    ensures
        numbers@.len() == old(words)@.len(),
        final(words)@.len() == old(words)@.len(),
        forall|i: int|
            0 <= i < old(words)@.len() ==> (#[trigger] final(words)@[i])@ == (LexemeView {
                number: numbers@[i],
                ..old(words)@[i]@
            }),
        forall|i: int|
            0 <= i < old(words)@.len() && old(words)@[i].kind != Kind::Number ==> (
            #[trigger] numbers@[i]) == old(words)@[i].number,
{
    let ghost before = words@;
    let ghost mut numbers: Seq<u64> = Seq::empty();
    let mut i: usize = 0;
    while i < words.len()
        invariant
            i <= words.len(),
            words@.len() == before.len(),
            numbers.len() == i,
            forall|j: int|
                0 <= j < i ==> (#[trigger] words@[j])@ == (LexemeView {
                    number: numbers[j],
                    ..before[j]@
                }),
            forall|j: int|
                0 <= j < i && before[j].kind != Kind::Number ==> (#[trigger] numbers[j])
                    == before[j].number,
            forall|j: int| i <= j < words@.len() ==> (#[trigger] words@[j]) == before[j],
        decreases words.len() - i,
    {
        if words[i].kind == Kind::Number {
            let number = host.number_parse(words[i].text.as_str());
            words[i].number = number;
        }
        proof {
            numbers = numbers.push(words@[i as int].number);
        }
        i += 1;
    }
    Ghost(numbers)
}

/// Parses a source text, and gives with the block the numbers that the host read for the
/// words of the source.
pub fn parse_with_numbers<H: Host>(host: &H, source: &str) -> (r: (
    Result<Block, ParseError>,
    Ghost<Seq<u64>>,
))
    ensures
        is_parse(r.0, grammar::parse_text(source@, r.1@)),
{
    let chars = chars_of(source);
    let mut words = match scan(&chars) {
        Ok(words) => words,
        Err(e) => {
            return (Err(e), Ghost(Seq::empty()));
        },
    };
    let ghost found = lexeme_views(words@);
    let numbers = read_numbers(host, &mut words);
    assert(lexeme_views(words@) =~= grammar::numbered(found, numbers@));
    (parse_words(&words, &chars), numbers)
}

/// Parses a source text into the block that the grammar gives for it, with the numbers
/// that the host reads for its number words, whatever these are. It fails for want of
/// more text exactly where the source is not complete.
pub fn parse<H: Host>(host: &H, source: &str) -> (r: Result<Block, ParseError>)
    ensures
        exists|numbers: Seq<u64>| is_parse(r, #[trigger] grammar::parse_text(source@, numbers)),
        (r matches Err(ParseError::UnexpectedEnd)) == !grammar::is_complete_text(source@),
{
    let (r, numbers) = parse_with_numbers(host, source);
    assert(is_parse(r, grammar::parse_text(source@, numbers@)));
    proof {
        crate::parser::numbers::law_complete_whatever_the_numbers(source@, numbers@);
    }
    r
}

/// Whether a source text is complete: whether it does not end where more has to follow.
pub fn is_complete(source: &str) -> (r: bool)
    ensures
        r == grammar::is_complete_text(source@),
{
    let chars = chars_of(source);
    let words = match scan(&chars) {
        Ok(words) => words,
        Err(ParseError::UnexpectedEnd) => {
            return false;
        },
        Err(_) => {
            return true;
        },
    };
    assert(lexeme_views(words@) =~= grammar::numbered(lexeme_views(words@), Seq::empty())) by {
        crate::parser::token::lemma_words_have_no_number(chars@);
    }
    match parse_words(&words, &chars) {
        Err(ParseError::UnexpectedEnd) => false,
        _ => true,
    }
}

} // verus!
