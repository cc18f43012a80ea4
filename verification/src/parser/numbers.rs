//! The numbers of its number words have no part in whether a source text parses: with
//! other numbers the same phrases end at the same places, and what fails, fails in the
//! same way.

use vstd::prelude::*;
use crate::ast::{AccessView, AccessorView, ExpressionView, StatementView};
use crate::parser::grammar::{
    end_of_statement, expect, is_complete_text, is_key, kind_at, numbered, operator,
    parse_arguments, parse_assignment, parse_binary, parse_binary_rest, parse_braced,
    parse_entries, parse_function, parse_if, parse_inner_block, parse_parameters,
    parse_postfix, parse_postfix_rest, parse_primary, parse_statement, parse_statements,
    parse_ternary, parse_text, parse_unary, parse_words, prefix, source_between, text_at,
    unexpected, Parsed, NESTING,
};
use crate::parser::token::{words, Kind, LexemeView, ParseErrorView};

verus! {

/// Two runs of words that differ at most in the numbers of their words.
pub open spec fn same_words(a: Seq<LexemeView>, b: Seq<LexemeView>) -> bool {
    &&& a.len() == b.len()
    &&& forall|i: int|
        0 <= i < a.len() ==> (#[trigger] a[i]).kind == b[i].kind && a[i].text == b[i].text
            && a[i].start == b[i].start && a[i].end == b[i].end
}

/// Two phrases end at the same place, or fail in the same way.
pub open spec fn alike<T>(a: Parsed<T>, b: Parsed<T>) -> bool {
    match a {
        Ok((_, end)) => b matches Ok((_, other)) && other == end,
        Err(e) => b matches Err(other) && other == e,
    }
}

/// Two expressions are both places that can be assigned to, or neither is.
pub open spec fn both_places(a: ExpressionView, b: ExpressionView) -> bool {
    (a is Access) == (b is Access)
}

/// Two expressions end at the same place and are both places or neither, or fail in the
/// same way.
pub open spec fn alike_expressions(a: Parsed<ExpressionView>, b: Parsed<ExpressionView>) -> bool {
    &&& alike(a, b)
    &&& a is Ok ==> both_places(a->Ok_0.0, b->Ok_0.0)
}

/// What the grammar reads off a word but its number is the same in both runs.
proof fn lemma_same_at(a: Seq<LexemeView>, b: Seq<LexemeView>, pos: int)
    requires
        same_words(a, b),
    ensures
        kind_at(a, pos) == kind_at(b, pos),
        text_at(a, pos) == text_at(b, pos),
        unexpected(a, pos) == unexpected(b, pos),
        forall|kind: Kind| expect(a, pos, kind) == expect(b, pos, kind),
        end_of_statement(a, pos) == end_of_statement(b, pos),
{
    if 0 <= pos < a.len() {
        assert(a[pos].kind == b[pos].kind);
    }
}

proof fn lemma_primary(a: Seq<LexemeView>, b: Seq<LexemeView>, chars: Seq<char>, pos: int, fuel: nat)
    requires
        same_words(a, b),
    ensures
        alike_expressions(parse_primary(a, chars, pos, fuel), parse_primary(b, chars, pos, fuel)),
    decreases fuel, a.len() - pos,
{
    lemma_same_at(a, b, pos);
    if fuel > 0 {
        let less = (fuel - 1) as nat;
        match kind_at(a, pos) {
            Kind::Function => {
                lemma_function(a, b, chars, pos, less);
            },
            Kind::LeftBrace => {
                lemma_entries(a, b, chars, pos + 1, less, Seq::empty(), Seq::empty());
            },
            Kind::LeftParen => {
                lemma_assignment(a, b, chars, pos + 1, less);
                let inner = parse_assignment(a, chars, pos + 1, less);
                if inner is Ok {
                    lemma_same_at(a, b, inner->Ok_0.1);
                }
            },
            _ => {},
        }
    }
}

proof fn lemma_function(a: Seq<LexemeView>, b: Seq<LexemeView>, chars: Seq<char>, pos: int, fuel: nat)
    requires
        same_words(a, b),
    ensures
        alike(parse_function(a, chars, pos, fuel), parse_function(b, chars, pos, fuel)),
    decreases fuel, a.len() - pos,
{
    lemma_same_at(a, b, pos);
    lemma_same_at(a, b, pos + 1);
    lemma_same_at(a, b, pos + 2);
    if fuel > 0 && kind_at(a, pos) == Kind::Function {
        let less = (fuel - 1) as nat;
        let open = if kind_at(a, pos + 1) == Kind::Name {
            pos + 2
        } else {
            pos + 1
        };
        if let Ok(first) = expect(a, open, Kind::LeftParen) {
            lemma_parameters(a, b, first, less, Seq::empty());
            let parameters = parse_parameters(a, first, less, Seq::empty());
            if parameters is Ok {
                lemma_braced(a, b, chars, parameters->Ok_0.1, less);
            }
        }
    }
}

proof fn lemma_parameters(
    a: Seq<LexemeView>,
    b: Seq<LexemeView>,
    pos: int,
    fuel: nat,
    so_far: Seq<Seq<char>>,
)
    requires
        same_words(a, b),
    ensures
        parse_parameters(a, pos, fuel, so_far) == parse_parameters(b, pos, fuel, so_far),
    decreases fuel, a.len() - pos,
{
    lemma_same_at(a, b, pos);
    lemma_same_at(a, b, pos + 1);
    if fuel > 0 && kind_at(a, pos) == Kind::Name && kind_at(a, pos + 1) == Kind::Comma {
        lemma_parameters(a, b, pos + 2, fuel, so_far.push(text_at(a, pos)));
    }
}

proof fn lemma_entries(
    a: Seq<LexemeView>,
    b: Seq<LexemeView>,
    chars: Seq<char>,
    pos: int,
    fuel: nat,
    so_a: Seq<(Seq<char>, ExpressionView)>,
    so_b: Seq<(Seq<char>, ExpressionView)>,
)
    requires
        same_words(a, b),
    ensures
        alike(
            parse_entries(a, chars, pos, fuel, so_a),
            parse_entries(b, chars, pos, fuel, so_b),
        ),
    decreases fuel, a.len() - pos,
{
    lemma_same_at(a, b, pos);
    lemma_same_at(a, b, pos + 1);
    if fuel > 0 && kind_at(a, pos) != Kind::RightBrace && is_key(kind_at(a, pos)) {
        let less = (fuel - 1) as nat;
        if let Ok(first) = expect(a, pos + 1, Kind::Colon) {
            lemma_assignment(a, b, chars, first, less);
            let one = parse_assignment(a, chars, first, less);
            let other = parse_assignment(b, chars, first, less);
            if one is Ok {
                let after = one->Ok_0.1;
                lemma_same_at(a, b, after);
                if after >= pos && kind_at(a, after) == Kind::Comma {
                    lemma_entries(
                        a,
                        b,
                        chars,
                        after + 1,
                        fuel,
                        so_a.push((text_at(a, pos), one->Ok_0.0)),
                        so_b.push((text_at(b, pos), other->Ok_0.0)),
                    );
                }
            }
        }
    }
}

proof fn lemma_arguments(
    a: Seq<LexemeView>,
    b: Seq<LexemeView>,
    chars: Seq<char>,
    pos: int,
    fuel: nat,
    so_a: Seq<ExpressionView>,
    so_b: Seq<ExpressionView>,
)
    requires
        same_words(a, b),
    ensures
        alike(
            parse_arguments(a, chars, pos, fuel, so_a),
            parse_arguments(b, chars, pos, fuel, so_b),
        ),
    decreases fuel, a.len() - pos,
{
    lemma_same_at(a, b, pos);
    if fuel > 0 && kind_at(a, pos) != Kind::RightParen {
        let less = (fuel - 1) as nat;
        lemma_assignment(a, b, chars, pos, less);
        let one = parse_assignment(a, chars, pos, less);
        let other = parse_assignment(b, chars, pos, less);
        if one is Ok {
            let after = one->Ok_0.1;
            lemma_same_at(a, b, after);
            if after >= pos && kind_at(a, after) == Kind::Comma {
                lemma_arguments(
                    a,
                    b,
                    chars,
                    after + 1,
                    fuel,
                    so_a.push(one->Ok_0.0),
                    so_b.push(other->Ok_0.0),
                );
            }
        }
    }
}

proof fn lemma_postfix(a: Seq<LexemeView>, b: Seq<LexemeView>, chars: Seq<char>, pos: int, fuel: nat)
    requires
        same_words(a, b),
    ensures
        alike_expressions(parse_postfix(a, chars, pos, fuel), parse_postfix(b, chars, pos, fuel)),
    decreases fuel, a.len() - pos,
{
    if fuel > 0 {
        let less = (fuel - 1) as nat;
        lemma_primary(a, b, chars, pos, less);
        let one = parse_primary(a, chars, pos, less);
        let other = parse_primary(b, chars, pos, less);
        if one is Ok {
            lemma_postfix_rest(a, b, chars, one->Ok_0.0, other->Ok_0.0, one->Ok_0.1, less);
        }
    }
}

proof fn lemma_postfix_rest(
    a: Seq<LexemeView>,
    b: Seq<LexemeView>,
    chars: Seq<char>,
    left_a: ExpressionView,
    left_b: ExpressionView,
    pos: int,
    fuel: nat,
)
    requires
        same_words(a, b),
        both_places(left_a, left_b),
    ensures
        alike_expressions(
            parse_postfix_rest(a, chars, left_a, pos, fuel),
            parse_postfix_rest(b, chars, left_b, pos, fuel),
        ),
    decreases fuel, a.len() - pos,
{
    lemma_same_at(a, b, pos);
    lemma_same_at(a, b, pos + 1);
    if fuel > 0 {
        let less = (fuel - 1) as nat;
        match kind_at(a, pos) {
            Kind::Dot => {
                if kind_at(a, pos + 1) == Kind::Name {
                    lemma_postfix_rest(
                        a,
                        b,
                        chars,
                        ExpressionView::Access(
                            AccessView::Member(
                                Box::new(left_a),
                                AccessorView::Identifier(text_at(a, pos + 1)),
                            ),
                        ),
                        ExpressionView::Access(
                            AccessView::Member(
                                Box::new(left_b),
                                AccessorView::Identifier(text_at(b, pos + 1)),
                            ),
                        ),
                        pos + 2,
                        less,
                    );
                }
            },
            Kind::LeftBracket => {
                lemma_assignment(a, b, chars, pos + 1, less);
                let one = parse_assignment(a, chars, pos + 1, less);
                let other = parse_assignment(b, chars, pos + 1, less);
                if one is Ok {
                    lemma_same_at(a, b, one->Ok_0.1);
                    if let Ok(end) = expect(a, one->Ok_0.1, Kind::RightBracket) {
                        lemma_postfix_rest(
                            a,
                            b,
                            chars,
                            ExpressionView::Access(
                                AccessView::Member(
                                    Box::new(left_a),
                                    AccessorView::Expression(Box::new(one->Ok_0.0)),
                                ),
                            ),
                            ExpressionView::Access(
                                AccessView::Member(
                                    Box::new(left_b),
                                    AccessorView::Expression(Box::new(other->Ok_0.0)),
                                ),
                            ),
                            end,
                            less,
                        );
                    }
                }
            },
            Kind::LeftParen => {
                lemma_arguments(a, b, chars, pos + 1, less, Seq::empty(), Seq::empty());
                let one = parse_arguments(a, chars, pos + 1, less, Seq::empty());
                let other = parse_arguments(b, chars, pos + 1, less, Seq::empty());
                if one is Ok {
                    lemma_postfix_rest(
                        a,
                        b,
                        chars,
                        ExpressionView::Call(Box::new(left_a), one->Ok_0.0),
                        ExpressionView::Call(Box::new(left_b), other->Ok_0.0),
                        one->Ok_0.1,
                        less,
                    );
                }
            },
            _ => {},
        }
    }
}

proof fn lemma_unary(a: Seq<LexemeView>, b: Seq<LexemeView>, chars: Seq<char>, pos: int, fuel: nat)
    requires
        same_words(a, b),
    ensures
        alike_expressions(parse_unary(a, chars, pos, fuel), parse_unary(b, chars, pos, fuel)),
    decreases fuel, a.len() - pos,
{
    lemma_same_at(a, b, pos);
    if fuel > 0 {
        let less = (fuel - 1) as nat;
        if prefix(kind_at(a, pos)).is_some() {
            lemma_unary(a, b, chars, pos + 1, less);
        } else {
            lemma_postfix(a, b, chars, pos, less);
        }
    }
}

proof fn lemma_binary(
    a: Seq<LexemeView>,
    b: Seq<LexemeView>,
    chars: Seq<char>,
    level: int,
    pos: int,
    fuel: nat,
)
    requires
        same_words(a, b),
    ensures
        alike_expressions(
            parse_binary(a, chars, level, pos, fuel),
            parse_binary(b, chars, level, pos, fuel),
        ),
    decreases fuel, a.len() - pos,
{
    if fuel > 0 {
        let less = (fuel - 1) as nat;
        if level < 0 || level > 3 {
            lemma_unary(a, b, chars, pos, less);
        } else {
            lemma_binary(a, b, chars, level + 1, pos, less);
            let one = parse_binary(a, chars, level + 1, pos, less);
            let other = parse_binary(b, chars, level + 1, pos, less);
            if one is Ok {
                lemma_binary_rest(
                    a,
                    b,
                    chars,
                    level,
                    one->Ok_0.0,
                    other->Ok_0.0,
                    one->Ok_0.1,
                    less,
                );
            }
        }
    }
}

proof fn lemma_binary_rest(
    a: Seq<LexemeView>,
    b: Seq<LexemeView>,
    chars: Seq<char>,
    level: int,
    left_a: ExpressionView,
    left_b: ExpressionView,
    pos: int,
    fuel: nat,
)
    requires
        same_words(a, b),
        both_places(left_a, left_b),
    ensures
        alike_expressions(
            parse_binary_rest(a, chars, level, left_a, pos, fuel),
            parse_binary_rest(b, chars, level, left_b, pos, fuel),
        ),
    decreases fuel, a.len() - pos,
{
    lemma_same_at(a, b, pos);
    if fuel > 0 {
        let less = (fuel - 1) as nat;
        if let Some(op) = operator(level, kind_at(a, pos)) {
            lemma_binary(a, b, chars, level + 1, pos + 1, less);
            let one = parse_binary(a, chars, level + 1, pos + 1, less);
            let other = parse_binary(b, chars, level + 1, pos + 1, less);
            if one is Ok {
                lemma_binary_rest(
                    a,
                    b,
                    chars,
                    level,
                    ExpressionView::Binary(op, Box::new(left_a), Box::new(one->Ok_0.0)),
                    ExpressionView::Binary(op, Box::new(left_b), Box::new(other->Ok_0.0)),
                    one->Ok_0.1,
                    less,
                );
            }
        }
    }
}

proof fn lemma_ternary(a: Seq<LexemeView>, b: Seq<LexemeView>, chars: Seq<char>, pos: int, fuel: nat)
    requires
        same_words(a, b),
    ensures
        alike_expressions(parse_ternary(a, chars, pos, fuel), parse_ternary(b, chars, pos, fuel)),
    decreases fuel, a.len() - pos,
{
    if fuel > 0 {
        let less = (fuel - 1) as nat;
        lemma_binary(a, b, chars, 0, pos, less);
        let condition = parse_binary(a, chars, 0, pos, less);
        if condition is Ok {
            let after = condition->Ok_0.1;
            lemma_same_at(a, b, after);
            if kind_at(a, after) == Kind::Question {
                lemma_assignment(a, b, chars, after + 1, less);
                let consequent = parse_assignment(a, chars, after + 1, less);
                if consequent is Ok {
                    lemma_same_at(a, b, consequent->Ok_0.1);
                    if let Ok(first) = expect(a, consequent->Ok_0.1, Kind::Colon) {
                        lemma_assignment(a, b, chars, first, less);
                    }
                }
            }
        }
    }
}

proof fn lemma_assignment(
    a: Seq<LexemeView>,
    b: Seq<LexemeView>,
    chars: Seq<char>,
    pos: int,
    fuel: nat,
)
    requires
        same_words(a, b),
    ensures
        alike_expressions(
            parse_assignment(a, chars, pos, fuel),
            parse_assignment(b, chars, pos, fuel),
        ),
    decreases fuel, a.len() - pos,
{
    if fuel > 0 {
        let less = (fuel - 1) as nat;
        lemma_ternary(a, b, chars, pos, less);
        let left = parse_ternary(a, chars, pos, less);
        if left is Ok {
            let after = left->Ok_0.1;
            lemma_same_at(a, b, after);
            if kind_at(a, after) == Kind::Assign && left->Ok_0.0 is Access {
                lemma_assignment(a, b, chars, after + 1, less);
            }
        }
    }
}

proof fn lemma_braced(a: Seq<LexemeView>, b: Seq<LexemeView>, chars: Seq<char>, pos: int, fuel: nat)
    requires
        same_words(a, b),
    ensures
        alike(parse_braced(a, chars, pos, fuel), parse_braced(b, chars, pos, fuel)),
    decreases fuel, a.len() - pos,
{
    lemma_same_at(a, b, pos);
    if fuel > 0 {
        let less = (fuel - 1) as nat;
        if let Ok(first) = expect(a, pos, Kind::LeftBrace) {
            lemma_inner_block(a, b, chars, first, less);
            let block = parse_inner_block(a, chars, first, less);
            if block is Ok {
                lemma_same_at(a, b, block->Ok_0.1);
            }
        }
    }
}

proof fn lemma_inner_block(
    a: Seq<LexemeView>,
    b: Seq<LexemeView>,
    chars: Seq<char>,
    pos: int,
    fuel: nat,
)
    requires
        same_words(a, b),
    ensures
        alike(parse_inner_block(a, chars, pos, fuel), parse_inner_block(b, chars, pos, fuel)),
    decreases fuel, a.len() - pos,
{
    if fuel > 0 {
        let less = (fuel - 1) as nat;
        lemma_statements(a, b, chars, pos, less, Seq::empty(), Seq::empty());
        let block = parse_statements(a, chars, pos, less, Seq::empty());
        if block is Ok {
            let after = block->Ok_0.1;
            lemma_same_at(a, b, after);
            lemma_same_at(a, b, after + 1);
            if kind_at(a, after) == Kind::Return && !(end_of_statement(a, after + 1) is Ok) {
                lemma_assignment(a, b, chars, after + 1, less);
                let value = parse_assignment(a, chars, after + 1, less);
                if value is Ok {
                    lemma_same_at(a, b, value->Ok_0.1);
                }
            }
        }
    }
}

proof fn lemma_statements(
    a: Seq<LexemeView>,
    b: Seq<LexemeView>,
    chars: Seq<char>,
    pos: int,
    fuel: nat,
    so_a: Seq<StatementView>,
    so_b: Seq<StatementView>,
)
    requires
        same_words(a, b),
    ensures
        alike(
            parse_statements(a, chars, pos, fuel, so_a),
            parse_statements(b, chars, pos, fuel, so_b),
        ),
    decreases fuel, a.len() - pos,
{
    lemma_same_at(a, b, pos);
    if fuel > 0 && !(kind_at(a, pos) == Kind::End || kind_at(a, pos) == Kind::RightBrace
        || kind_at(a, pos) == Kind::Return) {
        let less = (fuel - 1) as nat;
        lemma_statement(a, b, chars, pos, less);
        let one = parse_statement(a, chars, pos, less);
        let other = parse_statement(b, chars, pos, less);
        if one is Ok {
            let after = one->Ok_0.1;
            if pos < after <= a.len() {
                lemma_statements(
                    a,
                    b,
                    chars,
                    after,
                    fuel,
                    so_a.push(one->Ok_0.0),
                    so_b.push(other->Ok_0.0),
                );
            }
        }
    }
}

proof fn lemma_if(a: Seq<LexemeView>, b: Seq<LexemeView>, chars: Seq<char>, pos: int, fuel: nat)
    requires
        same_words(a, b),
    ensures
        alike(parse_if(a, chars, pos, fuel), parse_if(b, chars, pos, fuel)),
    decreases fuel, a.len() - pos,
{
    lemma_same_at(a, b, pos + 1);
    if fuel > 0 {
        let less = (fuel - 1) as nat;
        if let Ok(first) = expect(a, pos + 1, Kind::LeftParen) {
            lemma_assignment(a, b, chars, first, less);
            let condition = parse_assignment(a, chars, first, less);
            if condition is Ok {
                lemma_same_at(a, b, condition->Ok_0.1);
                if let Ok(open) = expect(a, condition->Ok_0.1, Kind::RightParen) {
                    lemma_braced(a, b, chars, open, less);
                    let consequent = parse_braced(a, chars, open, less);
                    if consequent is Ok {
                        let after = consequent->Ok_0.1;
                        lemma_same_at(a, b, after);
                        lemma_same_at(a, b, after + 1);
                        if kind_at(a, after) == Kind::Else {
                            if kind_at(a, after + 1) == Kind::If {
                                lemma_if(a, b, chars, after + 1, less);
                            } else {
                                lemma_braced(a, b, chars, after + 1, less);
                            }
                        }
                    }
                }
            }
        }
    }
}

proof fn lemma_statement(
    a: Seq<LexemeView>,
    b: Seq<LexemeView>,
    chars: Seq<char>,
    pos: int,
    fuel: nat,
)
    requires
        same_words(a, b),
    ensures
        alike(parse_statement(a, chars, pos, fuel), parse_statement(b, chars, pos, fuel)),
    decreases fuel, a.len() - pos,
{
    lemma_same_at(a, b, pos);
    lemma_same_at(a, b, pos + 1);
    lemma_same_at(a, b, pos + 2);
    if fuel > 0 {
        let less = (fuel - 1) as nat;
        match kind_at(a, pos) {
            Kind::Semicolon => {},
            Kind::Var => {
                if kind_at(a, pos + 1) == Kind::Name && kind_at(a, pos + 2) == Kind::Assign {
                    lemma_assignment(a, b, chars, pos + 3, less);
                    let init = parse_assignment(a, chars, pos + 3, less);
                    if init is Ok {
                        lemma_same_at(a, b, init->Ok_0.1);
                    }
                }
            },
            Kind::Throw => {
                lemma_assignment(a, b, chars, pos + 1, less);
                let thrown = parse_assignment(a, chars, pos + 1, less);
                if thrown is Ok {
                    lemma_same_at(a, b, thrown->Ok_0.1);
                }
            },
            Kind::If => {
                lemma_if(a, b, chars, pos, less);
            },
            _ => {
                if kind_at(a, pos) == Kind::Function && kind_at(a, pos + 1) == Kind::Name {
                    lemma_function(a, b, chars, pos, less);
                } else {
                    lemma_assignment(a, b, chars, pos, less);
                    let expression = parse_assignment(a, chars, pos, less);
                    if expression is Ok {
                        lemma_same_at(a, b, expression->Ok_0.1);
                    }
                }
            },
        }
    }
}

/// Whether a source text parses does not hang on the numbers that are read for its number
/// words: with other numbers it parses too, or fails in the same way.
pub proof fn law_numbers_decide_no_failure(chars: Seq<char>, one: Seq<u64>, other: Seq<u64>)
    ensures
        match parse_text(chars, one) {
            Ok(_) => parse_text(chars, other) is Ok,
            Err(e) => parse_text(chars, other) == Err::<Seq<StatementView>, ParseErrorView>(e),
        },
{
    if let Ok(found) = words(chars) {
        let a = numbered(found, one);
        let b = numbered(found, other);
        assert(same_words(a, b));
        lemma_statements(a, b, chars, 0, NESTING as nat, Seq::empty(), Seq::empty());
        let block = parse_statements(a, chars, 0, NESTING as nat, Seq::empty());
        if block is Ok {
            lemma_same_at(a, b, block->Ok_0.1);
        }
    }
}

/// A source text is complete exactly when parsing it, with whatever numbers, does not
/// fail for want of more text.
pub proof fn law_complete_whatever_the_numbers(chars: Seq<char>, numbers: Seq<u64>)
    ensures
        is_complete_text(chars) == !(parse_text(chars, numbers) matches Err(
            ParseErrorView::UnexpectedEnd,
        )),
{
    law_numbers_decide_no_failure(chars, Seq::empty(), numbers);
}

} // verus!
