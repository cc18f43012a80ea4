//! A lexer of coarse token classes, for tools that look at source text without parsing it:
//! white space, names, whole numbers, and the signs of calls and member access. Each class
//! is a regular expression; the first class that matches at the front of the source gives
//! the next token.
//!
//! The shift-reduce parser of [`crate::parser::shift`] reads these tokens. The parser of
//! the whole language reads words with a scanner of its own, which also knows strings,
//! fractions and operators.

use vstd::prelude::*;

verus! {

/// The class of a token.
#[derive(Clone, Copy, Debug, PartialEq, Eq, Structural)]
pub enum TokenType {
    Whitespace,
    Identifier,
    Integer,
    Symbol,
}

/// A token: its class and the text it covers.
#[derive(Debug, PartialEq)]
pub struct Token<'a> {
    pub which: TokenType,
    pub value: &'a str,
}

/// Cuts tokens from the front of the source that is left.
pub struct Lexer<'a> {
    source: &'a str,
}

/// The text of the first match of the regular expression `pattern` in `haystack`; `None`
/// when the pattern does not compile or matches nowhere.
pub uninterp spec fn matched(pattern: Seq<char>, haystack: Seq<char>) -> Option<Seq<char>>;

/// What is left of `haystack` behind the first match of the regular expression `pattern`;
/// `None` when the pattern does not compile or matches nowhere.
pub uninterp spec fn remainder(pattern: Seq<char>, haystack: Seq<char>) -> Option<Seq<char>>;

/// Compiles the pattern with `regex::Regex::new` and asks `Regex::captures` for the first
/// match in the haystack, of which `Captures::get` gives group 0, the whole match, and
/// `Match::as_str` its text. The result is a function of the two texts alone, which
/// `matched` names; nothing more is claimed of it.
#[verifier::external_body]
fn first_match<'a>(pattern: &str, haystack: &'a str) -> (r: Option<&'a str>)
    ensures
        match r {
            Some(value) => matched(pattern@, haystack@) == Some(value@),
            None => matched(pattern@, haystack@).is_none(),
        },
{
    let re = regex::Regex::new(pattern).ok()?;
    Some(re.captures(haystack)?.get(0)?.as_str())
}

/// Compiles the pattern with `regex::Regex::new` and asks `Regex::splitn`, with a limit of
/// two, for the second of the pieces into which the matches of the pattern split the
/// haystack. The result is a function of the two texts alone, which `remainder` names. The
/// iterator gives a second piece only where the pattern matches, and that piece runs from
/// the end of the first match to the end of the haystack: so the matched text and the
/// piece, one behind the other, are the end of the haystack.
#[verifier::external_body]
fn after_first_match<'a>(pattern: &str, haystack: &'a str) -> (r: Option<&'a str>)
    ensures
        match r {
            Some(rest) => remainder(pattern@, haystack@) == Some(rest@),
            None => remainder(pattern@, haystack@).is_none(),
        },
        match r {
            Some(rest) => match matched(pattern@, haystack@) {
                Some(value) => (value + rest@).is_suffix_of(haystack@),
                None => false,
            },
            None => true,
        },
{
    let re = regex::Regex::new(pattern).ok()?;
    let rest = re.splitn(haystack, 2).nth(1);
    rest
}

/// The first match of `pattern` in `haystack` with what is left behind it, where the
/// match stands at the front of the haystack: the two are then the whole haystack.
fn find_leading<'a>(pattern: &str, haystack: &'a str) -> (r: Option<(&'a str, &'a str)>)
    ensures
        match r {
            Some((value, rest)) => leading_match(pattern@, haystack@) == Some((value@, rest@))
                && haystack@ == value@ + rest@,
            None => leading_match(pattern@, haystack@).is_none(),
        },
{
    match first_match(pattern, haystack) {
        Some(value) => match after_first_match(pattern, haystack) {
            Some(rest) => {
                let whole = haystack.unicode_len();
                assert((value@ + rest@).is_suffix_of(haystack@));
                assert(value@.len() + rest@.len() == (value@ + rest@).len() <= whole);
                if value.unicode_len() + rest.unicode_len() == whole {
                    assert(haystack@ =~= value@ + rest@);
                    Some((value, rest))
                } else {
                    None
                }
            },
            None => None,
        },
        None => None,
    }
}

/// What the regular expression `pattern` finds at the front of `haystack`: the text of its
/// first match and what is left behind it, where nothing stands before the match.
pub open spec fn leading_match(pattern: Seq<char>, haystack: Seq<char>) -> Option<
    (Seq<char>, Seq<char>),
> {
    match matched(pattern, haystack) {
        Some(value) => match remainder(pattern, haystack) {
            Some(rest) => if value.len() + rest.len() == haystack.len() {
                Some((value, rest))
            } else {
                None
            },
            None => None,
        },
        None => None,
    }
}

/// The pattern of each token class.
pub open spec fn pattern_of(which: TokenType) -> Seq<char> {
    match which {
        TokenType::Whitespace => r"^\s+"@,
        TokenType::Identifier => r"^[a-zA-Z_]+"@,
        TokenType::Integer => r"^\d+"@,
        TokenType::Symbol => r"^[.();,]"@,
    }
}

/// What the pattern of class `which` finds at the front of `source`, under that class.
pub open spec fn token_of(which: TokenType, source: Seq<char>) -> Option<
    (TokenType, Seq<char>, Seq<char>),
> {
    match leading_match(pattern_of(which), source) {
        Some((value, rest)) => Some((which, value, rest)),
        None => None,
    }
}

/// The token at the front of `source`: the first class, in the order whitespace, identifier,
/// integer, symbol, whose pattern matches, with the matched text and the source after it.
pub open spec fn first_token(source: Seq<char>) -> Option<(TokenType, Seq<char>, Seq<char>)> {
    if token_of(TokenType::Whitespace, source).is_some() {
        token_of(TokenType::Whitespace, source)
    } else if token_of(TokenType::Identifier, source).is_some() {
        token_of(TokenType::Identifier, source)
    } else if token_of(TokenType::Integer, source).is_some() {
        token_of(TokenType::Integer, source)
    } else {
        token_of(TokenType::Symbol, source)
    }
}

/// All the tokens of `source`, front to back: the lexer stops where no class matches, and
/// where a match leaves the source no shorter.
pub open spec fn all_tokens(source: Seq<char>) -> Seq<(TokenType, Seq<char>)>
    decreases source.len(),
{
    match first_token(source) {
        Some((which, value, rest)) => if rest.len() < source.len() {
            seq![(which, value)] + all_tokens(rest)
        } else {
            seq![(which, value)]
        },
        None => seq![],
    }
}

impl<'a> Token<'a> {
    /// The token as its class and the characters of its text.
    pub open spec fn view(&self) -> (TokenType, Seq<char>) {
        (self.which, self.value@)
    }
}

/// The texts of a run of tokens, one behind the other.
pub open spec fn joined(tokens: Seq<(TokenType, Seq<char>)>) -> Seq<char>
    decreases tokens.len(),
{
    if tokens.len() == 0 {
        Seq::empty()
    } else {
        joined(tokens.drop_last()) + tokens.last().1
    }
}

/// The classes and texts of a run of tokens.
pub open spec fn token_views(tokens: Seq<Token>) -> Seq<(TokenType, Seq<char>)> {
    Seq::new(tokens.len(), |i: int| tokens[i]@)
}

impl<'a> Lexer<'a> {
    /// The source that is left to cut.
    pub closed spec fn view(&self) -> Seq<char> {
        self.source@
    }

    /// A lexer at the front of `s`.
    pub fn new(s: &'a str) -> (lexer: Lexer<'a>)
        ensures
            lexer@ == s@,
    {
        Lexer { source: s }
    }

    /// Cuts one token off the front; `None`, and nothing consumed, where no class matches.
    pub fn next(&mut self) -> (token: Option<Token<'a>>)
        ensures
            match first_token(old(self)@) {
                Some((which, value, rest)) => token.is_some() && token.unwrap()@ == (which, value)
                    && final(self)@ == rest,
                None => token.is_none() && final(self)@ == old(self)@,
            },
            token.is_some() ==> old(self)@ == token.unwrap().value@ + final(self)@,
    {
        let source: &'a str = self.source;
        if let Some((value, rest)) = find_leading(r"^\s+", source) {
            self.source = rest;
            return Some(Token { which: TokenType::Whitespace, value });
        }
        if let Some((value, rest)) = find_leading(r"^[a-zA-Z_]+", source) {
            self.source = rest;
            return Some(Token { which: TokenType::Identifier, value });
        }
        if let Some((value, rest)) = find_leading(r"^\d+", source) {
            self.source = rest;
            return Some(Token { which: TokenType::Integer, value });
        }
        if let Some((value, rest)) = find_leading(r"^[.();,]", source) {
            self.source = rest;
            return Some(Token { which: TokenType::Symbol, value });
        }
        None
    }

    /// Cuts tokens until none is left to cut. The texts of the tokens, one behind the
    /// other, are the front of the source.
    pub fn tokens(self) -> (tokens: Vec<Token<'a>>)
        ensures
            token_views(tokens@) == all_tokens(self@),
            joined(token_views(tokens@)).is_prefix_of(self@),
    {
        let mut lexer = self;
        let mut tokens: Vec<Token<'a>> = Vec::new();
        let mut left: usize = lexer.source.unicode_len();
        loop
            invariant_except_break
                left == lexer@.len(),
                token_views(tokens@) + all_tokens(lexer@) == all_tokens(self@),
            invariant
                joined(token_views(tokens@)) + lexer@ == self@,
            ensures
                token_views(tokens@) == all_tokens(self@),
            decreases left,
        {
            let ghost before = lexer@;
            let ghost seen = token_views(tokens@);
            match lexer.next() {
                Some(token) => {
                    let now: usize = lexer.source.unicode_len();
                    tokens.push(token);
                    assert(token_views(tokens@) == seen + seq![token@]);
                    assert(token_views(tokens@).drop_last() == seen);
                    assert(token_views(tokens@).last().1 == token.value@);
                    assert(joined(token_views(tokens@)) + lexer@ =~= joined(seen) + before);
                    if now < left {
                        assert(seen + all_tokens(before) == (seen + seq![token@]) + all_tokens(
                            lexer@,
                        ));
                        left = now;
                    } else {
                        assert(seen + all_tokens(before) == seen + seq![token@]);
                        break ;
                    }
                },
                None => {
                    assert(seen + all_tokens(before) == seen);
                    break ;
                },
            }
        }
        tokens
    }
}

} // verus!
