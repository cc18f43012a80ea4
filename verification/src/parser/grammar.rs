//! The grammar of the language, as functions from the words of a source to a syntax tree.
//!
//! Each function reads a phrase that starts at the word `pos`, and gives the phrase with
//! the place after it. `fuel` bounds how deeply phrases nest: each step from a phrase into
//! one of its parts takes one unit, the steps along a list of statements, parameters,
//! arguments or entries take none. So that the lists end, they give `UnexpectedEnd` for a
//! part that does not end after the place where it starts; `law_phrases_advance` shows
//! that every part does.

use vstd::prelude::*;
use crate::ast::{
    AccessView, AccessorView, BinaryOp, DeclarationView, ExpressionView, FunctionView,
    InnerBlockView, StatementView, UnaryOp,
};
use crate::interpret::value::{Object, ValueView};
use crate::parser::token::{words, Kind, LexemeView, ParseErrorView};

verus! {

/// A phrase with the place after it, or the reason why there is none.
pub type Parsed<T> = Result<(T, int), ParseErrorView>;

/// The kind of the word at `pos`, and `End` after the last word.
pub open spec fn kind_at(words: Seq<LexemeView>, pos: int) -> Kind {
    if 0 <= pos < words.len() {
        words[pos].kind
    } else {
        Kind::End
    }
}

/// The text of the word at `pos`.
pub open spec fn text_at(words: Seq<LexemeView>, pos: int) -> Seq<char> {
    if 0 <= pos < words.len() {
        words[pos].text
    } else {
        Seq::empty()
    }
}

/// The number of the word at `pos`.
pub open spec fn number_at(words: Seq<LexemeView>, pos: int) -> u64 {
    if 0 <= pos < words.len() {
        words[pos].number
    } else {
        0
    }
}

/// The complaint about the word at `pos`.
pub open spec fn unexpected(words: Seq<LexemeView>, pos: int) -> ParseErrorView {
    if 0 <= pos < words.len() {
        ParseErrorView::Unexpected(words[pos].text)
    } else {
        ParseErrorView::UnexpectedEnd
    }
}

/// The place after the word at `pos`, which has to be of the kind `kind`.
pub open spec fn expect(words: Seq<LexemeView>, pos: int, kind: Kind) -> Result<
    int,
    ParseErrorView,
> {
    if kind_at(words, pos) == kind {
        Ok(pos + 1)
    } else {
        Err(unexpected(words, pos))
    }
}

/// The place after a statement that ends at `pos`: after a semicolon that stands there;
/// `pos` itself at the end of the source and before a closing brace.
pub open spec fn end_of_statement(words: Seq<LexemeView>, pos: int) -> Result<
    int,
    ParseErrorView,
> {
    if kind_at(words, pos) == Kind::Semicolon {
        Ok(pos + 1)
    } else if kind_at(words, pos) == Kind::End || kind_at(words, pos) == Kind::RightBrace {
        Ok(pos)
    } else {
        Err(unexpected(words, pos))
    }
}

/// The infix operator that a word of the kind `kind` is on the precedence level `level`:
/// `||` on level 0, `&&` on level 1, `+` and `-` on level 2, `*` and `/` on level 3.
pub open spec fn operator(level: int, kind: Kind) -> Option<BinaryOp> {
    if level == 0 && kind == Kind::OrOr {
        Some(BinaryOp::LogicalOr)
    } else if level == 1 && kind == Kind::AndAnd {
        Some(BinaryOp::LogicalAnd)
    } else if level == 2 && kind == Kind::Plus {
        Some(BinaryOp::Add)
    } else if level == 2 && kind == Kind::Minus {
        Some(BinaryOp::Subtract)
    } else if level == 3 && kind == Kind::Star {
        Some(BinaryOp::Multiply)
    } else if level == 3 && kind == Kind::Slash {
        Some(BinaryOp::Divide)
    } else {
        None
    }
}

/// The prefix operator that a word of the kind `kind` is.
pub open spec fn prefix(kind: Kind) -> Option<UnaryOp> {
    if kind == Kind::Plus {
        Some(UnaryOp::Positive)
    } else if kind == Kind::Minus {
        Some(UnaryOp::Negative)
    } else if kind == Kind::Bang {
        Some(UnaryOp::LogicalNot)
    } else {
        None
    }
}

/// A word that can name a property in an object literal.
pub open spec fn is_key(kind: Kind) -> bool {
    kind == Kind::Name || kind == Kind::Text || kind == Kind::Number
}

/// A primary expression: a number, a string, a name, `this`, `undefined`, `null`, `true`,
/// `false`, a function, an object literal, or an expression in parentheses.
pub open spec fn parse_primary(
    words: Seq<LexemeView>,
    chars: Seq<char>,
    pos: int,
    fuel: nat,
) -> Parsed<ExpressionView>
    decreases fuel, words.len() - pos,
{
    if fuel == 0 {
        Err(ParseErrorView::TooDeep)
    } else {
        match kind_at(words, pos) {
            Kind::Number => Ok(
                (
                    ExpressionView::Literal(ValueView::Number(number_at(words, pos))),
                    pos + 1,
                ),
            ),
            Kind::Text => Ok(
                (ExpressionView::Literal(ValueView::String(text_at(words, pos))), pos + 1),
            ),
            Kind::Name => Ok(
                (ExpressionView::Access(AccessView::Identifier(text_at(words, pos))), pos + 1),
            ),
            Kind::This => Ok((ExpressionView::This, pos + 1)),
            Kind::Undefined => Ok((ExpressionView::Literal(ValueView::Undefined), pos + 1)),
            Kind::Null => Ok(
                (ExpressionView::Literal(ValueView::Object(Object::Null)), pos + 1),
            ),
            Kind::True => Ok((ExpressionView::Literal(ValueView::Boolean(true)), pos + 1)),
            Kind::False => Ok((ExpressionView::Literal(ValueView::Boolean(false)), pos + 1)),
            Kind::Function => match parse_function(words, chars, pos, (fuel - 1) as nat) {
                Err(e) => Err(e),
                Ok((function, after)) => Ok((ExpressionView::Function(function), after)),
            },
            Kind::LeftBrace => match parse_entries(
                words,
                chars,
                pos + 1,
                (fuel - 1) as nat,
                Seq::empty(),
            ) {
                Err(e) => Err(e),
                Ok((entries, after)) => Ok((ExpressionView::Object(entries), after)),
            },
            Kind::LeftParen => match parse_assignment(words, chars, pos + 1, (fuel - 1) as nat) {
                Err(e) => Err(e),
                Ok((inner, after)) => match expect(words, after, Kind::RightParen) {
                    Err(e) => Err(e),
                    Ok(end) => Ok((inner, end)),
                },
            },
            _ => Err(unexpected(words, pos)),
        }
    }
}

/// A function, from the word `function` at `pos` to its closing brace: an optional name,
/// the parameters in parentheses, and the body in braces. Its source is the text from the
/// first to the last of these words.
pub open spec fn parse_function(
    words: Seq<LexemeView>,
    chars: Seq<char>,
    pos: int,
    fuel: nat,
) -> Parsed<FunctionView>
    decreases fuel, words.len() - pos,
{
    if fuel == 0 {
        Err(ParseErrorView::TooDeep)
    } else if kind_at(words, pos) != Kind::Function {
        Err(unexpected(words, pos))
    } else {
        let named = kind_at(words, pos + 1) == Kind::Name;
        let open = if named {
            pos + 2
        } else {
            pos + 1
        };
        match expect(words, open, Kind::LeftParen) {
            Err(e) => Err(e),
            Ok(first) => match parse_parameters(words, first, (fuel - 1) as nat, Seq::empty()) {
                Err(e) => Err(e),
                Ok((parameters, after)) => match parse_braced(
                    words,
                    chars,
                    after,
                    (fuel - 1) as nat,
                ) {
                    Err(e) => Err(e),
                    Ok((body, end)) => Ok(
                        (
                            FunctionView {
                                id: if named {
                                    Some(text_at(words, pos + 1))
                                } else {
                                    None
                                },
                                parameters: parameters,
                                body: body,
                                source: source_between(words, chars, pos, end),
                            },
                            end,
                        ),
                    ),
                },
            },
        }
    }
}

/// The text of the source from the start of the word `from` to the end of the word
/// before `to`.
pub open spec fn source_between(
    words: Seq<LexemeView>,
    chars: Seq<char>,
    from: int,
    to: int,
) -> Seq<char> {
    if 0 <= from < to <= words.len() && 0 <= words[from].start <= words[to - 1].end
        <= chars.len() {
        chars.subrange(words[from].start, words[to - 1].end)
    } else {
        Seq::empty()
    }
}

/// The parameters of a function from `pos` on, up to and with the closing parenthesis:
/// names, each followed by a comma or by the parenthesis.
pub open spec fn parse_parameters(
    words: Seq<LexemeView>,
    pos: int,
    fuel: nat,
    so_far: Seq<Seq<char>>,
) -> Parsed<Seq<Seq<char>>>
    decreases fuel, words.len() - pos,
{
    if fuel == 0 {
        Err(ParseErrorView::TooDeep)
    } else if kind_at(words, pos) == Kind::RightParen {
        Ok((so_far, pos + 1))
    } else if kind_at(words, pos) == Kind::Name {
        if kind_at(words, pos + 1) == Kind::Comma {
            parse_parameters(words, pos + 2, fuel, so_far.push(text_at(words, pos)))
        } else if kind_at(words, pos + 1) == Kind::RightParen {
            Ok((so_far.push(text_at(words, pos)), pos + 2))
        } else {
            Err(unexpected(words, pos + 1))
        }
    } else {
        Err(unexpected(words, pos))
    }
}

/// The entries of an object literal from `pos` on, up to and with the closing brace: a
/// key, a colon and an expression each, followed by a comma or by the brace.
pub open spec fn parse_entries(
    words: Seq<LexemeView>,
    chars: Seq<char>,
    pos: int,
    fuel: nat,
    so_far: Seq<(Seq<char>, ExpressionView)>,
) -> Parsed<Seq<(Seq<char>, ExpressionView)>>
    decreases fuel, words.len() - pos,
{
    if fuel == 0 {
        Err(ParseErrorView::TooDeep)
    } else if kind_at(words, pos) == Kind::RightBrace {
        Ok((so_far, pos + 1))
    } else if is_key(kind_at(words, pos)) {
        match expect(words, pos + 1, Kind::Colon) {
            Err(e) => Err(e),
            Ok(first) => match parse_assignment(words, chars, first, (fuel - 1) as nat) {
                Err(e) => Err(e),
                Ok((value, after)) => if after < pos {
                    Err(ParseErrorView::UnexpectedEnd)
                } else if kind_at(words, after) == Kind::Comma {
                    parse_entries(
                        words,
                        chars,
                        after + 1,
                        fuel,
                        so_far.push((text_at(words, pos), value)),
                    )
                } else if kind_at(words, after) == Kind::RightBrace {
                    Ok((so_far.push((text_at(words, pos), value)), after + 1))
                } else {
                    Err(unexpected(words, after))
                },
            },
        }
    } else {
        Err(unexpected(words, pos))
    }
}

/// The arguments of a call from `pos` on, up to and with the closing parenthesis:
/// expressions, each followed by a comma or by the parenthesis.
pub open spec fn parse_arguments(
    words: Seq<LexemeView>,
    chars: Seq<char>,
    pos: int,
    fuel: nat,
    so_far: Seq<ExpressionView>,
) -> Parsed<Seq<ExpressionView>>
    decreases fuel, words.len() - pos,
{
    if fuel == 0 {
        Err(ParseErrorView::TooDeep)
    } else if kind_at(words, pos) == Kind::RightParen {
        Ok((so_far, pos + 1))
    } else {
        match parse_assignment(words, chars, pos, (fuel - 1) as nat) {
            Err(e) => Err(e),
            Ok((value, after)) => if after < pos {
                Err(ParseErrorView::UnexpectedEnd)
            } else if kind_at(words, after) == Kind::Comma {
                parse_arguments(words, chars, after + 1, fuel, so_far.push(value))
            } else if kind_at(words, after) == Kind::RightParen {
                Ok((so_far.push(value), after + 1))
            } else {
                Err(unexpected(words, after))
            },
        }
    }
}

/// A primary expression followed by any number of property accesses and calls.
pub open spec fn parse_postfix(
    words: Seq<LexemeView>,
    chars: Seq<char>,
    pos: int,
    fuel: nat,
) -> Parsed<ExpressionView>
    decreases fuel, words.len() - pos,
{
    if fuel == 0 {
        Err(ParseErrorView::TooDeep)
    } else {
        match parse_primary(words, chars, pos, (fuel - 1) as nat) {
            Err(e) => Err(e),
            Ok((primary, after)) => parse_postfix_rest(
                words,
                chars,
                primary,
                after,
                (fuel - 1) as nat,
            ),
        }
    }
}

/// What follows the expression `left`: `.name`, `[expression]` or `(arguments)`, each
/// applied to what stands before it.
pub open spec fn parse_postfix_rest(
    words: Seq<LexemeView>,
    chars: Seq<char>,
    left: ExpressionView,
    pos: int,
    fuel: nat,
) -> Parsed<ExpressionView>
    decreases fuel, words.len() - pos,
{
    if fuel == 0 {
        Err(ParseErrorView::TooDeep)
    } else {
        match kind_at(words, pos) {
            Kind::Dot => if kind_at(words, pos + 1) == Kind::Name {
                parse_postfix_rest(
                    words,
                    chars,
                    ExpressionView::Access(
                        AccessView::Member(
                            Box::new(left),
                            AccessorView::Identifier(text_at(words, pos + 1)),
                        ),
                    ),
                    pos + 2,
                    (fuel - 1) as nat,
                )
            } else {
                Err(unexpected(words, pos + 1))
            },
            Kind::LeftBracket => match parse_assignment(
                words,
                chars,
                pos + 1,
                (fuel - 1) as nat,
            ) {
                Err(e) => Err(e),
                Ok((key, after)) => match expect(words, after, Kind::RightBracket) {
                    Err(e) => Err(e),
                    Ok(end) => parse_postfix_rest(
                        words,
                        chars,
                        ExpressionView::Access(
                            AccessView::Member(
                                Box::new(left),
                                AccessorView::Expression(Box::new(key)),
                            ),
                        ),
                        end,
                        (fuel - 1) as nat,
                    ),
                },
            },
            Kind::LeftParen => match parse_arguments(
                words,
                chars,
                pos + 1,
                (fuel - 1) as nat,
                Seq::empty(),
            ) {
                Err(e) => Err(e),
                Ok((arguments, end)) => parse_postfix_rest(
                    words,
                    chars,
                    ExpressionView::Call(Box::new(left), arguments),
                    end,
                    (fuel - 1) as nat,
                ),
            },
            _ => Ok((left, pos)),
        }
    }
}

/// Any number of prefix operators before a postfix expression.
pub open spec fn parse_unary(
    words: Seq<LexemeView>,
    chars: Seq<char>,
    pos: int,
    fuel: nat,
) -> Parsed<ExpressionView>
    decreases fuel, words.len() - pos,
{
    if fuel == 0 {
        Err(ParseErrorView::TooDeep)
    } else {
        match prefix(kind_at(words, pos)) {
            Some(op) => match parse_unary(words, chars, pos + 1, (fuel - 1) as nat) {
                Err(e) => Err(e),
                Ok((operand, after)) => Ok((ExpressionView::Unary(op, Box::new(operand)), after)),
            },
            None => parse_postfix(words, chars, pos, (fuel - 1) as nat),
        }
    }
}

/// An expression of the precedence level `level`: operands of the next level, joined from
/// the left by the operators of this one. Above level 3 stand the prefix operations.
pub open spec fn parse_binary(
    words: Seq<LexemeView>,
    chars: Seq<char>,
    level: int,
    pos: int,
    fuel: nat,
) -> Parsed<ExpressionView>
    decreases fuel, words.len() - pos,
{
    if fuel == 0 {
        Err(ParseErrorView::TooDeep)
    } else if level < 0 || level > 3 {
        parse_unary(words, chars, pos, (fuel - 1) as nat)
    } else {
        match parse_binary(words, chars, level + 1, pos, (fuel - 1) as nat) {
            Err(e) => Err(e),
            Ok((left, after)) => parse_binary_rest(
                words,
                chars,
                level,
                left,
                after,
                (fuel - 1) as nat,
            ),
        }
    }
}

/// What follows the operand `left` on the level `level`.
pub open spec fn parse_binary_rest(
    words: Seq<LexemeView>,
    chars: Seq<char>,
    level: int,
    left: ExpressionView,
    pos: int,
    fuel: nat,
) -> Parsed<ExpressionView>
    decreases fuel, words.len() - pos,
{
    if fuel == 0 {
        Err(ParseErrorView::TooDeep)
    } else {
        match operator(level, kind_at(words, pos)) {
            Some(op) => match parse_binary(words, chars, level + 1, pos + 1, (fuel - 1) as nat) {
                Err(e) => Err(e),
                Ok((right, after)) => parse_binary_rest(
                    words,
                    chars,
                    level,
                    ExpressionView::Binary(op, Box::new(left), Box::new(right)),
                    after,
                    (fuel - 1) as nat,
                ),
            },
            None => Ok((left, pos)),
        }
    }
}

/// A condition with its two branches after `?` and `:`, or an expression without them.
pub open spec fn parse_ternary(
    words: Seq<LexemeView>,
    chars: Seq<char>,
    pos: int,
    fuel: nat,
) -> Parsed<ExpressionView>
    decreases fuel, words.len() - pos,
{
    if fuel == 0 {
        Err(ParseErrorView::TooDeep)
    } else {
        match parse_binary(words, chars, 0, pos, (fuel - 1) as nat) {
            Err(e) => Err(e),
            Ok((condition, after)) => if kind_at(words, after) != Kind::Question {
                Ok((condition, after))
            } else {
                match parse_assignment(words, chars, after + 1, (fuel - 1) as nat) {
                    Err(e) => Err(e),
                    Ok((consequent, colon)) => match expect(words, colon, Kind::Colon) {
                        Err(e) => Err(e),
                        Ok(first) => match parse_assignment(
                            words,
                            chars,
                            first,
                            (fuel - 1) as nat,
                        ) {
                            Err(e) => Err(e),
                            Ok((alternate, end)) => Ok(
                                (
                                    ExpressionView::Ternary(
                                        Box::new(condition),
                                        Box::new(consequent),
                                        Box::new(alternate),
                                    ),
                                    end,
                                ),
                            ),
                        },
                    },
                }
            },
        }
    }
}

/// An expression: an assignment to a place, or an expression without one. Only a name or
/// a property can stand left of `=`.
pub open spec fn parse_assignment(
    words: Seq<LexemeView>,
    chars: Seq<char>,
    pos: int,
    fuel: nat,
) -> Parsed<ExpressionView>
    decreases fuel, words.len() - pos,
{
    if fuel == 0 {
        Err(ParseErrorView::TooDeep)
    } else {
        match parse_ternary(words, chars, pos, (fuel - 1) as nat) {
            Err(e) => Err(e),
            Ok((left, after)) => if kind_at(words, after) != Kind::Assign {
                Ok((left, after))
            } else {
                match left {
                    ExpressionView::Access(place) => match parse_assignment(
                        words,
                        chars,
                        after + 1,
                        (fuel - 1) as nat,
                    ) {
                        Err(e) => Err(e),
                        Ok((value, end)) => Ok(
                            (ExpressionView::Assignment(place, Box::new(value)), end),
                        ),
                    },
                    _ => Err(unexpected(words, after)),
                }
            },
        }
    }
}

/// A block in braces.
pub open spec fn parse_braced(
    words: Seq<LexemeView>,
    chars: Seq<char>,
    pos: int,
    fuel: nat,
) -> Parsed<InnerBlockView>
    decreases fuel, words.len() - pos,
{
    if fuel == 0 {
        Err(ParseErrorView::TooDeep)
    } else {
        match expect(words, pos, Kind::LeftBrace) {
            Err(e) => Err(e),
            Ok(first) => match parse_inner_block(words, chars, first, (fuel - 1) as nat) {
                Err(e) => Err(e),
                Ok((block, after)) => match expect(words, after, Kind::RightBrace) {
                    Err(e) => Err(e),
                    Ok(end) => Ok((block, end)),
                },
            },
        }
    }
}

/// The inside of a block: statements, and after them an optional `return` with the
/// expression whose value the block returns; `return` alone returns undefined.
pub open spec fn parse_inner_block(
    words: Seq<LexemeView>,
    chars: Seq<char>,
    pos: int,
    fuel: nat,
) -> Parsed<InnerBlockView>
    decreases fuel, words.len() - pos,
{
    if fuel == 0 {
        Err(ParseErrorView::TooDeep)
    } else {
        match parse_statements(words, chars, pos, (fuel - 1) as nat, Seq::empty()) {
            Err(e) => Err(e),
            Ok((block, after)) => if kind_at(words, after) != Kind::Return {
                Ok((InnerBlockView { block: block, return_exp: None }, after))
            } else if end_of_statement(words, after + 1) is Ok {
                Ok(
                    (
                        InnerBlockView {
                            block: block,
                            return_exp: Some(
                                Box::new(ExpressionView::Literal(ValueView::Undefined)),
                            ),
                        },
                        end_of_statement(words, after + 1)->Ok_0,
                    ),
                )
            } else {
                match parse_assignment(words, chars, after + 1, (fuel - 1) as nat) {
                    Err(e) => Err(e),
                    Ok((value, semicolon)) => match end_of_statement(words, semicolon) {
                        Err(e) => Err(e),
                        Ok(end) => Ok(
                            (
                                InnerBlockView { block: block, return_exp: Some(Box::new(value)) },
                                end,
                            ),
                        ),
                    },
                }
            },
        }
    }
}

/// The statements from `pos` on, after the statements `so_far`, up to the end of the
/// source, a closing brace, or `return`.
pub open spec fn parse_statements(
    words: Seq<LexemeView>,
    chars: Seq<char>,
    pos: int,
    fuel: nat,
    so_far: Seq<StatementView>,
) -> Parsed<Seq<StatementView>>
    decreases fuel, words.len() - pos,
{
    if fuel == 0 {
        Err(ParseErrorView::TooDeep)
    } else if kind_at(words, pos) == Kind::End || kind_at(words, pos) == Kind::RightBrace
        || kind_at(words, pos) == Kind::Return {
        Ok((so_far, pos))
    } else {
        match parse_statement(words, chars, pos, (fuel - 1) as nat) {
            Err(e) => Err(e),
            Ok((statement, after)) => if pos < after <= words.len() {
                parse_statements(words, chars, after, fuel, so_far.push(statement))
            } else {
                Err(ParseErrorView::UnexpectedEnd)
            },
        }
    }
}

/// An `if` statement, from the word `if` at `pos`: the condition in parentheses, a block,
/// and an optional `else` with a block or with another `if` statement.
pub open spec fn parse_if(
    words: Seq<LexemeView>,
    chars: Seq<char>,
    pos: int,
    fuel: nat,
) -> Parsed<StatementView>
    decreases fuel, words.len() - pos,
{
    if fuel == 0 {
        Err(ParseErrorView::TooDeep)
    } else {
        match expect(words, pos + 1, Kind::LeftParen) {
            Err(e) => Err(e),
            Ok(first) => match parse_assignment(words, chars, first, (fuel - 1) as nat) {
                Err(e) => Err(e),
                Ok((condition, close)) => match expect(words, close, Kind::RightParen) {
                    Err(e) => Err(e),
                    Ok(open) => match parse_braced(words, chars, open, (fuel - 1) as nat) {
                        Err(e) => Err(e),
                        Ok((consequent, after)) => if kind_at(words, after) != Kind::Else {
                            Ok((StatementView::If(condition, consequent, None), after))
                        } else if kind_at(words, after + 1) == Kind::If {
                            match parse_if(words, chars, after + 1, (fuel - 1) as nat) {
                                Err(e) => Err(e),
                                Ok((nested, end)) => Ok(
                                    (
                                        StatementView::If(
                                            condition,
                                            consequent,
                                            Some(
                                                InnerBlockView {
                                                    block: seq![nested],
                                                    return_exp: None,
                                                },
                                            ),
                                        ),
                                        end,
                                    ),
                                ),
                            }
                        } else {
                            match parse_braced(words, chars, after + 1, (fuel - 1) as nat) {
                                Err(e) => Err(e),
                                Ok((alternate, end)) => Ok(
                                    (
                                        StatementView::If(condition, consequent, Some(alternate)),
                                        end,
                                    ),
                                ),
                            }
                        },
                    },
                },
            },
        }
    }
}

/// A statement: the empty statement, a variable declaration, a function declaration, a
/// `throw`, an `if`, or an expression.
pub open spec fn parse_statement(
    words: Seq<LexemeView>,
    chars: Seq<char>,
    pos: int,
    fuel: nat,
) -> Parsed<StatementView>
    decreases fuel, words.len() - pos,
{
    if fuel == 0 {
        Err(ParseErrorView::TooDeep)
    } else {
        match kind_at(words, pos) {
            Kind::Semicolon => Ok((StatementView::Empty, pos + 1)),
            Kind::Var => if kind_at(words, pos + 1) != Kind::Name {
                Err(unexpected(words, pos + 1))
            } else if kind_at(words, pos + 2) != Kind::Assign {
                match end_of_statement(words, pos + 2) {
                    Err(e) => Err(e),
                    Ok(end) => Ok(
                        (
                            StatementView::Declaration(
                                DeclarationView::Variable(text_at(words, pos + 1), None),
                            ),
                            end,
                        ),
                    ),
                }
            } else {
                match parse_assignment(words, chars, pos + 3, (fuel - 1) as nat) {
                    Err(e) => Err(e),
                    Ok((init, after)) => match end_of_statement(words, after) {
                        Err(e) => Err(e),
                        Ok(end) => Ok(
                            (
                                StatementView::Declaration(
                                    DeclarationView::Variable(
                                        text_at(words, pos + 1),
                                        Some(init),
                                    ),
                                ),
                                end,
                            ),
                        ),
                    },
                }
            },
            Kind::Throw => match parse_assignment(words, chars, pos + 1, (fuel - 1) as nat) {
                Err(e) => Err(e),
                Ok((thrown, after)) => match end_of_statement(words, after) {
                    Err(e) => Err(e),
                    Ok(end) => Ok((StatementView::Throw(thrown), end)),
                },
            },
            Kind::If => parse_if(words, chars, pos, (fuel - 1) as nat),
            _ => if kind_at(words, pos) == Kind::Function && kind_at(words, pos + 1)
                == Kind::Name {
                match parse_function(words, chars, pos, (fuel - 1) as nat) {
                    Err(e) => Err(e),
                    Ok((function, end)) => Ok(
                        (
                            StatementView::Declaration(
                                DeclarationView::Function(text_at(words, pos + 1), function),
                            ),
                            end,
                        ),
                    ),
                }
            } else {
                match parse_assignment(words, chars, pos, (fuel - 1) as nat) {
                    Err(e) => Err(e),
                    Ok((expression, after)) => match end_of_statement(words, after) {
                        Err(e) => Err(e),
                        Ok(end) => Ok((StatementView::Expression(expression), end)),
                    },
                }
            },
        }
    }
}

/// How deeply the phrases of a source may nest, counted in the steps that the grammar
/// takes from a phrase into its parts.
pub const NESTING: usize = 2048;

/// The program that a run of words spells: statements up to the end of the source.
pub open spec fn parse_words(words: Seq<LexemeView>, chars: Seq<char>) -> Result<
    Seq<StatementView>,
    ParseErrorView,
> {
    match parse_statements(words, chars, 0, NESTING as nat, Seq::empty()) {
        Err(e) => Err(e),
        Ok((block, after)) => if kind_at(words, after) == Kind::End {
            Ok(block)
        } else {
            Err(unexpected(words, after))
        },
    }
}

/// The number at place `i` of a run of numbers, and zero beyond its end.
pub open spec fn reading(numbers: Seq<u64>, i: int) -> u64 {
    if 0 <= i < numbers.len() {
        numbers[i]
    } else {
        0
    }
}

/// The words with the numbers that were read for them: each number word with the number
/// at its place, and every other word as it is.
pub open spec fn numbered(words: Seq<LexemeView>, numbers: Seq<u64>) -> Seq<LexemeView> {
    Seq::new(
        words.len(),
        |i: int|
            if words[i].kind == Kind::Number {
                LexemeView { number: reading(numbers, i), ..words[i] }
            } else {
                words[i]
            },
    )
}

/// The program that a source text spells, where `numbers` holds, for each word of the
/// source, the number that was read for it.
pub open spec fn parse_text(chars: Seq<char>, numbers: Seq<u64>) -> Result<
    Seq<StatementView>,
    ParseErrorView,
> {
    match words(chars) {
        Err(e) => Err(e),
        Ok(found) => parse_words(numbered(found, numbers), chars),
    }
}

/// The numbers matter to number words alone: a source text without a number word spells
/// the same program, or fails in the same way, whatever the numbers are.
pub proof fn law_numbers_belong_to_number_words(chars: Seq<char>, one: Seq<u64>, other: Seq<u64>)
    requires
        words(chars) matches Ok(found) ==> forall|i: int|
            0 <= i < found.len() ==> (#[trigger] found[i]).kind != Kind::Number,
    ensures
        parse_text(chars, one) == parse_text(chars, other),
{
    if let Ok(found) = words(chars) {
        assert(numbered(found, one) =~= found);
        assert(numbered(found, other) =~= found);
    }
}

/// A source text is complete unless it ends where more has to follow. The numbers that
/// its number words denote have no part in this: they are taken as zero.
pub open spec fn is_complete_text(chars: Seq<char>) -> bool {
    !(parse_text(chars, Seq::empty()) matches Err(ParseErrorView::UnexpectedEnd))
}

/// A phrase that was read ends at `after`, at least `least` and within the source.
pub open spec fn ends_within<T>(phrase: Parsed<T>, least: int, length: nat) -> bool {
    phrase matches Ok((_, after)) ==> least <= after <= length
}

proof fn lemma_primary(words: Seq<LexemeView>, chars: Seq<char>, pos: int, fuel: nat)
    requires
        0 <= pos <= words.len(),
    ensures
        ends_within(parse_primary(words, chars, pos, fuel), pos + 1, words.len()),
    decreases fuel, words.len() - pos,
{
    if fuel > 0 {
        let less = (fuel - 1) as nat;
        match kind_at(words, pos) {
            Kind::Function => lemma_function(words, chars, pos, less),
            Kind::LeftBrace => lemma_entries(words, chars, pos + 1, less, Seq::empty()),
            Kind::LeftParen => lemma_assignment(words, chars, pos + 1, less),
            _ => {},
        }
    }
}

proof fn lemma_function(words: Seq<LexemeView>, chars: Seq<char>, pos: int, fuel: nat)
    requires
        0 <= pos <= words.len(),
    ensures
        ends_within(parse_function(words, chars, pos, fuel), pos + 1, words.len()),
    decreases fuel, words.len() - pos,
{
    if fuel > 0 && kind_at(words, pos) == Kind::Function {
        let less = (fuel - 1) as nat;
        let open = if kind_at(words, pos + 1) == Kind::Name {
            pos + 2
        } else {
            pos + 1
        };
        if let Ok(first) = expect(words, open, Kind::LeftParen) {
            lemma_parameters(words, first, less, Seq::empty());
            if let Ok((_, after)) = parse_parameters(words, first, less, Seq::empty()) {
                lemma_braced(words, chars, after, less);
            }
        }
    }
}

proof fn lemma_parameters(words: Seq<LexemeView>, pos: int, fuel: nat, so_far: Seq<Seq<char>>)
    requires
        0 <= pos <= words.len(),
    ensures
        ends_within(parse_parameters(words, pos, fuel, so_far), pos + 1, words.len()),
    decreases fuel, words.len() - pos,
{
    if fuel > 0 && kind_at(words, pos) == Kind::Name && kind_at(words, pos + 1) == Kind::Comma {
        lemma_parameters(words, pos + 2, fuel, so_far.push(text_at(words, pos)));
    }
}

proof fn lemma_entries(
    words: Seq<LexemeView>,
    chars: Seq<char>,
    pos: int,
    fuel: nat,
    so_far: Seq<(Seq<char>, ExpressionView)>,
)
    requires
        0 <= pos <= words.len(),
    ensures
        ends_within(parse_entries(words, chars, pos, fuel, so_far), pos + 1, words.len()),
    decreases fuel, words.len() - pos,
{
    if fuel > 0 && kind_at(words, pos) != Kind::RightBrace && is_key(kind_at(words, pos)) {
        if let Ok(first) = expect(words, pos + 1, Kind::Colon) {
            lemma_assignment(words, chars, first, (fuel - 1) as nat);
            if let Ok((value, after)) = parse_assignment(words, chars, first, (fuel - 1) as nat) {
                if kind_at(words, after) == Kind::Comma {
                    lemma_entries(
                        words,
                        chars,
                        after + 1,
                        fuel,
                        so_far.push((text_at(words, pos), value)),
                    );
                }
            }
        }
    }
}

proof fn lemma_arguments(
    words: Seq<LexemeView>,
    chars: Seq<char>,
    pos: int,
    fuel: nat,
    so_far: Seq<ExpressionView>,
)
    requires
        0 <= pos <= words.len(),
    ensures
        ends_within(parse_arguments(words, chars, pos, fuel, so_far), pos + 1, words.len()),
    decreases fuel, words.len() - pos,
{
    if fuel > 0 && kind_at(words, pos) != Kind::RightParen {
        lemma_assignment(words, chars, pos, (fuel - 1) as nat);
        if let Ok((value, after)) = parse_assignment(words, chars, pos, (fuel - 1) as nat) {
            if kind_at(words, after) == Kind::Comma {
                lemma_arguments(words, chars, after + 1, fuel, so_far.push(value));
            }
        }
    }
}

proof fn lemma_postfix(words: Seq<LexemeView>, chars: Seq<char>, pos: int, fuel: nat)
    requires
        0 <= pos <= words.len(),
    ensures
        ends_within(parse_postfix(words, chars, pos, fuel), pos + 1, words.len()),
    decreases fuel, words.len() - pos,
{
    if fuel > 0 {
        let less = (fuel - 1) as nat;
        lemma_primary(words, chars, pos, less);
        if let Ok((primary, after)) = parse_primary(words, chars, pos, less) {
            lemma_postfix_rest(words, chars, primary, after, less);
        }
    }
}

proof fn lemma_postfix_rest(
    words: Seq<LexemeView>,
    chars: Seq<char>,
    left: ExpressionView,
    pos: int,
    fuel: nat,
)
    requires
        0 <= pos <= words.len(),
    ensures
        ends_within(parse_postfix_rest(words, chars, left, pos, fuel), pos, words.len()),
    decreases fuel, words.len() - pos,
{
    if fuel > 0 {
        let less = (fuel - 1) as nat;
        match kind_at(words, pos) {
            Kind::Dot => {
                if kind_at(words, pos + 1) == Kind::Name {
                    lemma_postfix_rest(
                        words,
                        chars,
                        ExpressionView::Access(
                            AccessView::Member(
                                Box::new(left),
                                AccessorView::Identifier(text_at(words, pos + 1)),
                            ),
                        ),
                        pos + 2,
                        less,
                    );
                }
            },
            Kind::LeftBracket => {
                lemma_assignment(words, chars, pos + 1, less);
                if let Ok((key, after)) = parse_assignment(words, chars, pos + 1, less) {
                    if let Ok(end) = expect(words, after, Kind::RightBracket) {
                        lemma_postfix_rest(
                            words,
                            chars,
                            ExpressionView::Access(
                                AccessView::Member(
                                    Box::new(left),
                                    AccessorView::Expression(Box::new(key)),
                                ),
                            ),
                            end,
                            less,
                        );
                    }
                }
            },
            Kind::LeftParen => {
                lemma_arguments(words, chars, pos + 1, less, Seq::empty());
                if let Ok((arguments, end)) = parse_arguments(
                    words,
                    chars,
                    pos + 1,
                    less,
                    Seq::empty(),
                ) {
                    lemma_postfix_rest(
                        words,
                        chars,
                        ExpressionView::Call(Box::new(left), arguments),
                        end,
                        less,
                    );
                }
            },
            _ => {},
        }
    }
}

proof fn lemma_unary(words: Seq<LexemeView>, chars: Seq<char>, pos: int, fuel: nat)
    requires
        0 <= pos <= words.len(),
    ensures
        ends_within(parse_unary(words, chars, pos, fuel), pos + 1, words.len()),
    decreases fuel, words.len() - pos,
{
    if fuel > 0 {
        let less = (fuel - 1) as nat;
        match prefix(kind_at(words, pos)) {
            Some(_) => lemma_unary(words, chars, pos + 1, less),
            None => lemma_postfix(words, chars, pos, less),
        }
    }
}

proof fn lemma_binary(words: Seq<LexemeView>, chars: Seq<char>, level: int, pos: int, fuel: nat)
    requires
        0 <= pos <= words.len(),
    ensures
        ends_within(parse_binary(words, chars, level, pos, fuel), pos + 1, words.len()),
    decreases fuel, words.len() - pos,
{
    if fuel > 0 {
        let less = (fuel - 1) as nat;
        if level < 0 || level > 3 {
            lemma_unary(words, chars, pos, less);
        } else {
            lemma_binary(words, chars, level + 1, pos, less);
            if let Ok((left, after)) = parse_binary(words, chars, level + 1, pos, less) {
                lemma_binary_rest(words, chars, level, left, after, less);
            }
        }
    }
}

proof fn lemma_binary_rest(
    words: Seq<LexemeView>,
    chars: Seq<char>,
    level: int,
    left: ExpressionView,
    pos: int,
    fuel: nat,
)
    requires
        0 <= pos <= words.len(),
    ensures
        ends_within(parse_binary_rest(words, chars, level, left, pos, fuel), pos, words.len()),
    decreases fuel, words.len() - pos,
{
    if fuel > 0 {
        let less = (fuel - 1) as nat;
        if let Some(op) = operator(level, kind_at(words, pos)) {
            lemma_binary(words, chars, level + 1, pos + 1, less);
            if let Ok((right, after)) = parse_binary(words, chars, level + 1, pos + 1, less) {
                lemma_binary_rest(
                    words,
                    chars,
                    level,
                    ExpressionView::Binary(op, Box::new(left), Box::new(right)),
                    after,
                    less,
                );
            }
        }
    }
}

proof fn lemma_ternary(words: Seq<LexemeView>, chars: Seq<char>, pos: int, fuel: nat)
    requires
        0 <= pos <= words.len(),
    ensures
        ends_within(parse_ternary(words, chars, pos, fuel), pos + 1, words.len()),
    decreases fuel, words.len() - pos,
{
    if fuel > 0 {
        let less = (fuel - 1) as nat;
        lemma_binary(words, chars, 0, pos, less);
        if let Ok((_, after)) = parse_binary(words, chars, 0, pos, less) {
            if kind_at(words, after) == Kind::Question {
                lemma_assignment(words, chars, after + 1, less);
                if let Ok((_, colon)) = parse_assignment(words, chars, after + 1, less) {
                    if let Ok(first) = expect(words, colon, Kind::Colon) {
                        lemma_assignment(words, chars, first, less);
                    }
                }
            }
        }
    }
}

proof fn lemma_assignment(words: Seq<LexemeView>, chars: Seq<char>, pos: int, fuel: nat)
    requires
        0 <= pos <= words.len(),
    ensures
        ends_within(parse_assignment(words, chars, pos, fuel), pos + 1, words.len()),
    decreases fuel, words.len() - pos,
{
    if fuel > 0 {
        let less = (fuel - 1) as nat;
        lemma_ternary(words, chars, pos, less);
        if let Ok((_, after)) = parse_ternary(words, chars, pos, less) {
            if kind_at(words, after) == Kind::Assign {
                lemma_assignment(words, chars, after + 1, less);
            }
        }
    }
}

proof fn lemma_braced(words: Seq<LexemeView>, chars: Seq<char>, pos: int, fuel: nat)
    requires
        0 <= pos <= words.len(),
    ensures
        ends_within(parse_braced(words, chars, pos, fuel), pos + 1, words.len()),
    decreases fuel, words.len() - pos,
{
    if fuel > 0 {
        if let Ok(first) = expect(words, pos, Kind::LeftBrace) {
            lemma_inner_block(words, chars, first, (fuel - 1) as nat);
        }
    }
}

proof fn lemma_inner_block(words: Seq<LexemeView>, chars: Seq<char>, pos: int, fuel: nat)
    requires
        0 <= pos <= words.len(),
    ensures
        ends_within(parse_inner_block(words, chars, pos, fuel), pos, words.len()),
    decreases fuel, words.len() - pos,
{
    if fuel > 0 {
        let less = (fuel - 1) as nat;
        lemma_statements(words, chars, pos, less, Seq::empty());
        if let Ok((_, after)) = parse_statements(words, chars, pos, less, Seq::empty()) {
            if kind_at(words, after) == Kind::Return && !(end_of_statement(words, after + 1)
                is Ok) {
                lemma_assignment(words, chars, after + 1, less);
            }
        }
    }
}

proof fn lemma_statements(
    words: Seq<LexemeView>,
    chars: Seq<char>,
    pos: int,
    fuel: nat,
    so_far: Seq<StatementView>,
)
    requires
        0 <= pos <= words.len(),
    ensures
        ends_within(parse_statements(words, chars, pos, fuel, so_far), pos, words.len()),
    decreases fuel, words.len() - pos,
{
    if fuel > 0 && !(kind_at(words, pos) == Kind::End || kind_at(words, pos) == Kind::RightBrace
        || kind_at(words, pos) == Kind::Return) {
        lemma_statement(words, chars, pos, (fuel - 1) as nat);
        if let Ok((statement, after)) = parse_statement(words, chars, pos, (fuel - 1) as nat) {
            lemma_statements(words, chars, after, fuel, so_far.push(statement));
        }
    }
}

proof fn lemma_if(words: Seq<LexemeView>, chars: Seq<char>, pos: int, fuel: nat)
    requires
        0 <= pos < words.len(),
    ensures
        ends_within(parse_if(words, chars, pos, fuel), pos + 1, words.len()),
    decreases fuel, words.len() - pos,
{
    if fuel > 0 {
        let less = (fuel - 1) as nat;
        if let Ok(first) = expect(words, pos + 1, Kind::LeftParen) {
            lemma_assignment(words, chars, first, less);
            if let Ok((_, close)) = parse_assignment(words, chars, first, less) {
                if let Ok(open) = expect(words, close, Kind::RightParen) {
                    lemma_braced(words, chars, open, less);
                    if let Ok((_, after)) = parse_braced(words, chars, open, less) {
                        if kind_at(words, after) == Kind::Else {
                            if kind_at(words, after + 1) == Kind::If {
                                lemma_if(words, chars, after + 1, less);
                            } else {
                                lemma_braced(words, chars, after + 1, less);
                            }
                        }
                    }
                }
            }
        }
    }
}

proof fn lemma_statement(words: Seq<LexemeView>, chars: Seq<char>, pos: int, fuel: nat)
    requires
        0 <= pos <= words.len(),
    ensures
        ends_within(parse_statement(words, chars, pos, fuel), pos + 1, words.len()),
    decreases fuel, words.len() - pos,
{
    if fuel > 0 {
        let less = (fuel - 1) as nat;
        match kind_at(words, pos) {
            Kind::Semicolon => {},
            Kind::Var => {
                if kind_at(words, pos + 1) == Kind::Name && kind_at(words, pos + 2)
                    == Kind::Assign {
                    lemma_assignment(words, chars, pos + 3, less);
                }
            },
            Kind::Throw => lemma_assignment(words, chars, pos + 1, less),
            Kind::If => lemma_if(words, chars, pos, less),
            _ => {
                if kind_at(words, pos) == Kind::Function && kind_at(words, pos + 1)
                    == Kind::Name {
                    lemma_function(words, chars, pos, less);
                } else {
                    lemma_assignment(words, chars, pos, less);
                }
            },
        }
    }
}

/// Every statement and every expression that the grammar reads ends after the place where
/// it starts, and within the source: the lists never meet a part that does not.
pub proof fn law_phrases_advance(words: Seq<LexemeView>, chars: Seq<char>, pos: int, fuel: nat)
    requires
        0 <= pos <= words.len(),
    ensures
        ends_within(parse_statement(words, chars, pos, fuel), pos + 1, words.len()),
        ends_within(parse_assignment(words, chars, pos, fuel), pos + 1, words.len()),
{
    lemma_statement(words, chars, pos, fuel);
    lemma_assignment(words, chars, pos, fuel);
}

} // verus!
