//! The words of a source text.

use vstd::prelude::*;
use vstd::string::*;

verus! {

/// What a word of the source is.
#[derive(Clone, Copy, Debug, PartialEq, Eq, Structural)]
pub enum Kind {
    Number,
    Text,
    Name,
    Var,
    Function,
    Return,
    Throw,
    If,
    Else,
    This,
    True,
    False,
    Null,
    Undefined,
    LeftParen,
    RightParen,
    LeftBrace,
    RightBrace,
    LeftBracket,
    RightBracket,
    Dot,
    Comma,
    Semicolon,
    Colon,
    Question,
    Assign,
    Plus,
    Minus,
    Star,
    Slash,
    Bang,
    AndAnd,
    OrOr,
    /// What stands after the last word.
    End,
}

/// A word of the source: its kind, its text (for a string, the text that it denotes), the
/// characters of the source that it covers, and for a number the number that its text
/// denotes. The scanner leaves the number zero: it is the host that reads numbers.
#[derive(Debug)]
pub struct Lexeme {
    pub kind: Kind,
    pub text: String,
    pub start: usize,
    pub end: usize,
    pub number: u64,
}

/// The view of a `Lexeme`.
pub struct LexemeView {
    pub kind: Kind,
    pub text: Seq<char>,
    pub start: int,
    pub end: int,
    pub number: u64,
}

impl View for Lexeme {
    type V = LexemeView;

    open spec fn view(&self) -> LexemeView {
        LexemeView {
            kind: self.kind,
            text: self.text@,
            start: self.start as int,
            end: self.end as int,
            number: self.number,
        }
    }
}

/// Why a source text is not a program.
#[derive(Debug)]
pub enum ParseError {
    /// The text ends where more has to follow.
    UnexpectedEnd,
    /// This word or character cannot stand where it does.
    Unexpected(String),
    /// The text nests more deeply than the grammar allows.
    TooDeep,
}

/// The view of a `ParseError`.
pub enum ParseErrorView {
    UnexpectedEnd,
    Unexpected(Seq<char>),
    TooDeep,
}

impl View for ParseError {
    type V = ParseErrorView;

    open spec fn view(&self) -> ParseErrorView {
        match self {
            ParseError::UnexpectedEnd => ParseErrorView::UnexpectedEnd,
            ParseError::Unexpected(word) => ParseErrorView::Unexpected(word@),
            ParseError::TooDeep => ParseErrorView::TooDeep,
        }
    }
}

impl ParseErrorView {
    /// The error in words.
    pub open spec fn message(self) -> Seq<char> {
        match self {
            ParseErrorView::UnexpectedEnd => "unexpected end of input"@,
            ParseErrorView::Unexpected(word) => "unexpected `"@ + word + "`"@,
            ParseErrorView::TooDeep => "nesting too deep"@,
        }
    }
}

impl ParseError {
    /// The error in words.
    pub fn message(&self) -> (r: String)
        ensures
            r@ == self@.message(),
    {
        match self {
            ParseError::UnexpectedEnd => crate::text::text("unexpected end of input"),
            ParseError::Unexpected(word) => crate::text::concat3(
                "unexpected `",
                word.as_str(),
                "`",
            ),
            ParseError::TooDeep => crate::text::text("nesting too deep"),
        }
    }
}

/// `String::push` appends one character, as its documentation says.
pub assume_specification[ std::string::String::push ](s: &mut std::string::String, ch: char)
    ensures
        final(s)@ == old(s)@.push(ch),
;

/// White space: a blank, a line feed, a carriage return or a tab.
pub open spec fn is_space(c: char) -> bool {
    c == ' ' || c == '\n' || c == '\r' || c == '\t'
}

/// One of the ten digits.
pub open spec fn is_digit(c: char) -> bool {
    '0' <= c && c <= '9'
}

/// A character that can start a name: a letter of the alphabet, `_` or `$`.
pub open spec fn is_name_start(c: char) -> bool {
    ('a' <= c && c <= 'z') || ('A' <= c && c <= 'Z') || c == '_' || c == '$'
}

/// A character that can stand in a name: one that can start it, or a digit.
pub open spec fn is_name_part(c: char) -> bool {
    is_name_start(c) || is_digit(c)
}

/// The end of the run of digits that starts at `i`.
pub open spec fn digits_end(s: Seq<char>, i: int) -> int
    decreases s.len() - i,
{
    if 0 <= i < s.len() && is_digit(s[i]) {
        digits_end(s, i + 1)
    } else {
        i
    }
}

/// The end of the run of name characters that starts at `i`.
pub open spec fn name_end(s: Seq<char>, i: int) -> int
    decreases s.len() - i,
{
    if 0 <= i < s.len() && is_name_part(s[i]) {
        name_end(s, i + 1)
    } else {
        i
    }
}

/// The end of the line that `i` is in.
pub open spec fn line_end(s: Seq<char>, i: int) -> int
    decreases s.len() - i,
{
    if 0 <= i < s.len() && s[i] != '\n' {
        line_end(s, i + 1)
    } else {
        i
    }
}

/// The first place from `i` on that is neither white space nor inside a `//` comment.
pub open spec fn skip(s: Seq<char>, i: int) -> int
    decreases s.len() - i,
{
    if 0 <= i < s.len() && is_space(s[i]) {
        skip(s, i + 1)
    } else if 0 <= i && i + 1 < s.len() && s[i] == '/' && s[i + 1] == '/' {
        proof {
            lemma_line_end(s, i + 2);
        }
        skip(s, line_end(s, i + 2))
    } else {
        i
    }
}

/// A run of digits ends at or after its start, within the source.
pub proof fn lemma_digits_end(s: Seq<char>, i: int)
    requires
        0 <= i <= s.len(),
    ensures
        i <= digits_end(s, i) <= s.len(),
    decreases s.len() - i,
{
    if i < s.len() && is_digit(s[i]) {
        lemma_digits_end(s, i + 1);
    }
}

/// A run of name characters ends at or after its start, within the source.
pub proof fn lemma_name_end(s: Seq<char>, i: int)
    requires
        0 <= i <= s.len(),
    ensures
        i <= name_end(s, i) <= s.len(),
    decreases s.len() - i,
{
    if i < s.len() && is_name_part(s[i]) {
        lemma_name_end(s, i + 1);
    }
}

/// A line ends at or after any place in it, within the source.
pub proof fn lemma_line_end(s: Seq<char>, i: int)
    requires
        0 <= i <= s.len(),
    ensures
        i <= line_end(s, i) <= s.len(),
    decreases s.len() - i,
{
    if i < s.len() && s[i] != '\n' {
        lemma_line_end(s, i + 1);
    }
}

/// Skipping ends at or after its start, within the source.
pub proof fn lemma_skip(s: Seq<char>, i: int)
    requires
        0 <= i <= s.len(),
    ensures
        i <= skip(s, i) <= s.len(),
    decreases s.len() - i,
{
    if i < s.len() && is_space(s[i]) {
        lemma_skip(s, i + 1);
    } else if i + 1 < s.len() && s[i] == '/' && s[i + 1] == '/' {
        lemma_line_end(s, i + 2);
        lemma_skip(s, line_end(s, i + 2));
    }
}

/// The end of a number that starts at the digit at `i`: its digits, and a point with the
/// digits after it where at least one digit follows the point.
pub open spec fn number_end(s: Seq<char>, i: int) -> int {
    let whole = digits_end(s, i + 1);
    if 0 <= whole && whole + 1 < s.len() && s[whole] == '.' && is_digit(s[whole + 1]) {
        digits_end(s, whole + 2)
    } else {
        whole
    }
}

/// The character that stands for `c` after a backslash.
pub open spec fn escaped(c: char) -> char {
    if c == 'n' {
        '\n'
    } else if c == 't' {
        '\t'
    } else if c == 'r' {
        '\r'
    } else if c == '0' {
        '\0'
    } else {
        c
    }
}

/// The text of a string whose opening quote is `quote`, read from `i` on after the text
/// `so_far`, with the place after its closing quote; nothing where the source ends first.
pub open spec fn string_body(s: Seq<char>, i: int, quote: char, so_far: Seq<char>) -> Option<
    (Seq<char>, int),
>
    decreases s.len() - i,
{
    if i < 0 || i >= s.len() {
        None
    } else if s[i] == quote {
        Some((so_far, i + 1))
    } else if s[i] == '\\' {
        if i + 1 >= s.len() {
            None
        } else {
            string_body(s, i + 2, quote, so_far.push(escaped(s[i + 1])))
        }
    } else {
        string_body(s, i + 1, quote, so_far.push(s[i]))
    }
}

/// A string that closes ends after the place where its body starts, within the source.
pub proof fn lemma_string_body(s: Seq<char>, i: int, quote: char, so_far: Seq<char>)
    requires
        0 <= i <= s.len(),
    ensures
        string_body(s, i, quote, so_far) matches Some((_, end)) ==> i < end <= s.len(),
    decreases s.len() - i,
{
    if i < s.len() && s[i] != quote {
        if s[i] == '\\' {
            if i + 1 < s.len() {
                lemma_string_body(s, i + 2, quote, so_far.push(escaped(s[i + 1])));
            }
        } else {
            lemma_string_body(s, i + 1, quote, so_far.push(s[i]));
        }
    }
}

/// The kind of a name: that of the keyword it spells, and `Name` where it spells none.
pub open spec fn name_kind(text: Seq<char>) -> Kind {
    if text == "var"@ {
        Kind::Var
    } else if text == "function"@ {
        Kind::Function
    } else if text == "return"@ {
        Kind::Return
    } else if text == "throw"@ {
        Kind::Throw
    } else if text == "if"@ {
        Kind::If
    } else if text == "else"@ {
        Kind::Else
    } else if text == "this"@ {
        Kind::This
    } else if text == "true"@ {
        Kind::True
    } else if text == "false"@ {
        Kind::False
    } else if text == "null"@ {
        Kind::Null
    } else if text == "undefined"@ {
        Kind::Undefined
    } else {
        Kind::Name
    }
}

/// The kind of the sign that starts at `i`, with its length; nothing where none starts there.
pub open spec fn sign_at(s: Seq<char>, i: int) -> Option<(Kind, int)> {
    if i < 0 || i >= s.len() {
        None
    } else if s[i] == '&' {
        if i + 1 < s.len() && s[i + 1] == '&' {
            Some((Kind::AndAnd, 2))
        } else {
            None
        }
    } else if s[i] == '|' {
        if i + 1 < s.len() && s[i + 1] == '|' {
            Some((Kind::OrOr, 2))
        } else {
            None
        }
    } else if s[i] == '(' {
        Some((Kind::LeftParen, 1))
    } else if s[i] == ')' {
        Some((Kind::RightParen, 1))
    } else if s[i] == '{' {
        Some((Kind::LeftBrace, 1))
    } else if s[i] == '}' {
        Some((Kind::RightBrace, 1))
    } else if s[i] == '[' {
        Some((Kind::LeftBracket, 1))
    } else if s[i] == ']' {
        Some((Kind::RightBracket, 1))
    } else if s[i] == '.' {
        Some((Kind::Dot, 1))
    } else if s[i] == ',' {
        Some((Kind::Comma, 1))
    } else if s[i] == ';' {
        Some((Kind::Semicolon, 1))
    } else if s[i] == ':' {
        Some((Kind::Colon, 1))
    } else if s[i] == '?' {
        Some((Kind::Question, 1))
    } else if s[i] == '=' {
        Some((Kind::Assign, 1))
    } else if s[i] == '+' {
        Some((Kind::Plus, 1))
    } else if s[i] == '-' {
        Some((Kind::Minus, 1))
    } else if s[i] == '*' {
        Some((Kind::Star, 1))
    } else if s[i] == '/' {
        Some((Kind::Slash, 1))
    } else if s[i] == '!' {
        Some((Kind::Bang, 1))
    } else {
        None
    }
}

/// The word that starts at `i`, a place that `skip` leaves: a number, a name or keyword, a
/// string, or a sign.
pub open spec fn word_at(s: Seq<char>, i: int) -> Result<LexemeView, ParseErrorView> {
    if i < 0 || i >= s.len() {
        Err(ParseErrorView::UnexpectedEnd)
    } else if is_digit(s[i]) {
        Ok(
            LexemeView {
                kind: Kind::Number,
                text: s.subrange(i, number_end(s, i)),
                start: i,
                end: number_end(s, i),
                number: 0,
            },
        )
    } else if is_name_start(s[i]) {
        Ok(
            LexemeView {
                kind: name_kind(s.subrange(i, name_end(s, i + 1))),
                text: s.subrange(i, name_end(s, i + 1)),
                start: i,
                end: name_end(s, i + 1),
                number: 0,
            },
        )
    } else if s[i] == '"' || s[i] == '\'' {
        match string_body(s, i + 1, s[i], Seq::empty()) {
            Some((text, end)) => Ok(
                LexemeView { kind: Kind::Text, text: text, start: i, end: end, number: 0 },
            ),
            None => Err(ParseErrorView::UnexpectedEnd),
        }
    } else {
        match sign_at(s, i) {
            Some((kind, length)) => Ok(
                LexemeView {
                    kind: kind,
                    text: s.subrange(i, i + length),
                    start: i,
                    end: i + length,
                    number: 0,
                },
            ),
            None => Err(ParseErrorView::Unexpected(seq![s[i]])),
        }
    }
}

/// A word ends after the place where it starts, and within the source.
pub proof fn lemma_word_at(s: Seq<char>, i: int)
    requires
        0 <= i < s.len(),
    ensures
        word_at(s, i) matches Ok(word) ==> word.start == i && i < word.end <= s.len(),
{
    lemma_digits_end(s, i + 1);
    let whole = digits_end(s, i + 1);
    if whole + 1 < s.len() {
        lemma_digits_end(s, whole + 2);
    }
    lemma_name_end(s, i + 1);
    lemma_string_body(s, i + 1, s[i], Seq::empty());
}

/// The words of a source from `i` on, after the words `so_far`.
pub open spec fn words_from(s: Seq<char>, i: int, so_far: Seq<LexemeView>) -> Result<
    Seq<LexemeView>,
    ParseErrorView,
>
    decreases s.len() - i,
{
    if i < 0 || i > s.len() {
        Ok(so_far)
    } else {
        let at = skip(s, i);
        if at >= s.len() {
            Ok(so_far)
        } else {
            match word_at(s, at) {
                Err(e) => Err(e),
                Ok(word) => {
                    proof {
                        lemma_skip(s, i);
                        lemma_word_at(s, at);
                    }
                    words_from(s, word.end, so_far.push(word))
                },
            }
        }
    }
}

/// The words of a source.
pub open spec fn words(s: Seq<char>) -> Result<Seq<LexemeView>, ParseErrorView> {
    words_from(s, 0, Seq::empty())
}

/// Every word that the scanner finds has the number zero.
pub proof fn lemma_words_have_no_number(s: Seq<char>)
    ensures
        words(s) matches Ok(found) ==> forall|i: int|
            0 <= i < found.len() ==> (#[trigger] found[i]).number == 0,
{
    lemma_words_from(s, 0, Seq::empty());
}

proof fn lemma_words_from(s: Seq<char>, i: int, so_far: Seq<LexemeView>)
    requires
        forall|k: int| 0 <= k < so_far.len() ==> (#[trigger] so_far[k]).number == 0,
    ensures
        words_from(s, i, so_far) matches Ok(found) ==> forall|k: int|
            0 <= k < found.len() ==> (#[trigger] found[k]).number == 0,
    decreases s.len() - i,
{
    if 0 <= i <= s.len() {
        let at = skip(s, i);
        if at < s.len() {
            if let Ok(word) = word_at(s, at) {
                lemma_skip(s, i);
                lemma_word_at(s, at);
                lemma_words_from(s, word.end, so_far.push(word));
            }
        }
    }
}

/// The views of a run of words.
pub open spec fn lexeme_views(words: Seq<Lexeme>) -> Seq<LexemeView> {
    Seq::new(words.len(), |i: int| words[i]@)
}

#[verifier::when_used_as_spec(is_space)]
fn space(c: char) -> (r: bool)
    ensures
        r == is_space(c),
{
    c == ' ' || c == '\n' || c == '\r' || c == '\t'
}

#[verifier::when_used_as_spec(is_digit)]
fn digit(c: char) -> (r: bool)
    ensures
        r == is_digit(c),
{
    '0' <= c && c <= '9'
}

#[verifier::when_used_as_spec(is_name_start)]
fn name_start(c: char) -> (r: bool)
    ensures
        r == is_name_start(c),
{
    ('a' <= c && c <= 'z') || ('A' <= c && c <= 'Z') || c == '_' || c == '$'
}

#[verifier::when_used_as_spec(is_name_part)]
fn name_part(c: char) -> (r: bool)
    ensures
        r == is_name_part(c),
{
    name_start(c) || digit(c)
}

/// The characters of `chars` from `from` to `to`, as a text.
pub(crate) fn text_of(chars: &Vec<char>, from: usize, to: usize) -> (r: String)
    requires
        from <= to <= chars.len(),
    ensures
        r@ == chars@.subrange(from as int, to as int),
{
    let mut out = String::new();
    let mut i: usize = from;
    while i < to
        invariant
            from <= i <= to <= chars.len(),
            out@ == chars@.subrange(from as int, i as int),
        decreases to - i,
    {
        out.push(chars[i]);
        assert(chars@.subrange(from as int, i as int).push(chars@[i as int]) =~= chars@.subrange(
            from as int,
            i + 1,
        ));
        i += 1;
    }
    out
}

fn scan_digits(chars: &Vec<char>, i: usize) -> (r: usize)
    requires
        i <= chars.len(),
    ensures
        r == digits_end(chars@, i as int),
        i <= r <= chars.len(),
{
    let mut j: usize = i;
    while j < chars.len() && digit(chars[j])
        invariant
            i <= j <= chars.len(),
            digits_end(chars@, j as int) == digits_end(chars@, i as int),
        decreases chars.len() - j,
    {
        j += 1;
    }
    j
}

fn scan_name(chars: &Vec<char>, i: usize) -> (r: usize)
    requires
        i <= chars.len(),
    ensures
        r == name_end(chars@, i as int),
        i <= r <= chars.len(),
{
    let mut j: usize = i;
    while j < chars.len() && name_part(chars[j])
        invariant
            i <= j <= chars.len(),
            name_end(chars@, j as int) == name_end(chars@, i as int),
        decreases chars.len() - j,
    {
        j += 1;
    }
    j
}

fn scan_line(chars: &Vec<char>, i: usize) -> (r: usize)
    requires
        i <= chars.len(),
    ensures
        r == line_end(chars@, i as int),
        i <= r <= chars.len(),
{
    let mut j: usize = i;
    while j < chars.len() && chars[j] != '\n'
        invariant
            i <= j <= chars.len(),
            line_end(chars@, j as int) == line_end(chars@, i as int),
        decreases chars.len() - j,
    {
        j += 1;
    }
    j
}

fn scan_skip(chars: &Vec<char>, i: usize) -> (r: usize)
    requires
        i <= chars.len(),
    ensures
        r == skip(chars@, i as int),
        i <= r <= chars.len(),
{
    let mut j: usize = i;
    loop
        invariant
            i <= j <= chars.len(),
            skip(chars@, j as int) == skip(chars@, i as int),
        ensures
            j == skip(chars@, i as int),
            i <= j <= chars.len(),
        decreases chars.len() - j,
    {
        if j < chars.len() && space(chars[j]) {
            j += 1;
        } else if j < chars.len() && chars.len() - j > 1 && chars[j] == '/' && chars[j + 1]
            == '/' {
            j = scan_line(chars, j + 2);
        } else {
            break ;
        }
    }
    j
}

fn scan_number(chars: &Vec<char>, i: usize) -> (r: usize)
    requires
        i < chars.len(),
    ensures
        r == number_end(chars@, i as int),
        i < r <= chars.len(),
{
    let whole = scan_digits(chars, i + 1);
    if whole < chars.len() && chars.len() - whole > 1 && chars[whole] == '.' && digit(
        chars[whole + 1],
    ) {
        scan_digits(chars, whole + 2)
    } else {
        whole
    }
}

fn unescape(c: char) -> (r: char)
    ensures
        r == escaped(c),
{
    if c == 'n' {
        '\n'
    } else if c == 't' {
        '\t'
    } else if c == 'r' {
        '\r'
    } else if c == '0' {
        '\0'
    } else {
        c
    }
}

fn scan_string(chars: &Vec<char>, i: usize, quote: char) -> (r: Option<(String, usize)>)
    requires
        i <= chars.len(),
    ensures
        match r {
            Some((text, end)) => string_body(chars@, i as int, quote, Seq::empty()) == Some(
                (text@, end as int),
            ) && i < end <= chars.len(),
            None => string_body(chars@, i as int, quote, Seq::empty()).is_none(),
        },
{
    let mut out = String::new();
    let mut j: usize = i;
    loop
        invariant
            i <= j <= chars.len(),
            string_body(chars@, j as int, quote, out@) == string_body(
                chars@,
                i as int,
                quote,
                Seq::empty(),
            ),
        decreases chars.len() - j,
    {
        if j >= chars.len() {
            return None;
        }
        let c = chars[j];
        if c == quote {
            return Some((out, j + 1));
        } else if c == '\\' {
            if chars.len() - j <= 1 {
                return None;
            }
            out.push(unescape(chars[j + 1]));
            j += 2;
        } else {
            out.push(c);
            j += 1;
        }
    }
}

fn kind_of_name(word: &String) -> (r: Kind)
    ensures
        r == name_kind(word@),
{
    if *word == crate::text::text("var") {
        Kind::Var
    } else if *word == crate::text::text("function") {
        Kind::Function
    } else if *word == crate::text::text("return") {
        Kind::Return
    } else if *word == crate::text::text("throw") {
        Kind::Throw
    } else if *word == crate::text::text("if") {
        Kind::If
    } else if *word == crate::text::text("else") {
        Kind::Else
    } else if *word == crate::text::text("this") {
        Kind::This
    } else if *word == crate::text::text("true") {
        Kind::True
    } else if *word == crate::text::text("false") {
        Kind::False
    } else if *word == crate::text::text("null") {
        Kind::Null
    } else if *word == crate::text::text("undefined") {
        Kind::Undefined
    } else {
        Kind::Name
    }
}

fn scan_sign(chars: &Vec<char>, i: usize) -> (r: Option<(Kind, usize)>)
    requires
        i < chars.len(),
    ensures
        match r {
            Some((kind, length)) => sign_at(chars@, i as int) == Some((kind, length as int)) && 1
                <= length && i + length <= chars.len(),
            None => sign_at(chars@, i as int).is_none(),
        },
{
    let c = chars[i];
    let more = chars.len() - i > 1;
    if c == '&' {
        if more && chars[i + 1] == '&' {
            Some((Kind::AndAnd, 2))
        } else {
            None
        }
    } else if c == '|' {
        if more && chars[i + 1] == '|' {
            Some((Kind::OrOr, 2))
        } else {
            None
        }
    } else if c == '(' {
        Some((Kind::LeftParen, 1))
    } else if c == ')' {
        Some((Kind::RightParen, 1))
    } else if c == '{' {
        Some((Kind::LeftBrace, 1))
    } else if c == '}' {
        Some((Kind::RightBrace, 1))
    } else if c == '[' {
        Some((Kind::LeftBracket, 1))
    } else if c == ']' {
        Some((Kind::RightBracket, 1))
    } else if c == '.' {
        Some((Kind::Dot, 1))
    } else if c == ',' {
        Some((Kind::Comma, 1))
    } else if c == ';' {
        Some((Kind::Semicolon, 1))
    } else if c == ':' {
        Some((Kind::Colon, 1))
    } else if c == '?' {
        Some((Kind::Question, 1))
    } else if c == '=' {
        Some((Kind::Assign, 1))
    } else if c == '+' {
        Some((Kind::Plus, 1))
    } else if c == '-' {
        Some((Kind::Minus, 1))
    } else if c == '*' {
        Some((Kind::Star, 1))
    } else if c == '/' {
        Some((Kind::Slash, 1))
    } else if c == '!' {
        Some((Kind::Bang, 1))
    } else {
        None
    }
}

/// Reads the word that starts at `i`.
fn scan_word(chars: &Vec<char>, i: usize) -> (r: Result<Lexeme, ParseError>)
    requires
        i < chars.len(),
    ensures
        match r {
            Ok(word) => word_at(chars@, i as int) == Ok::<LexemeView, ParseErrorView>(word@) && i
                < word.end <= chars.len(),
            Err(e) => word_at(chars@, i as int) == Err::<LexemeView, ParseErrorView>(e@),
        },
{
    let c = chars[i];
    if digit(c) {
        let end = scan_number(chars, i);
        Ok(Lexeme { kind: Kind::Number, text: text_of(chars, i, end), start: i, end: end, number: 0 })
    } else if name_start(c) {
        let end = scan_name(chars, i + 1);
        let word = text_of(chars, i, end);
        Ok(Lexeme { kind: kind_of_name(&word), text: word, start: i, end: end, number: 0 })
    } else if c == '"' || c == '\'' {
        match scan_string(chars, i + 1, c) {
            Some((text, end)) => Ok(
                Lexeme { kind: Kind::Text, text: text, start: i, end: end, number: 0 },
            ),
            None => Err(ParseError::UnexpectedEnd),
        }
    } else {
        match scan_sign(chars, i) {
            Some((kind, length)) => Ok(
                Lexeme {
                    kind: kind,
                    text: text_of(chars, i, i + length),
                    start: i,
                    end: i + length,
                    number: 0,
                },
            ),
            None => {
                let word = text_of(chars, i, i + 1);
                assert(word@ =~= seq![chars@[i as int]]);
                Err(ParseError::Unexpected(word))
            },
        }
    }
}

/// Reads the words of a source.
pub fn scan(chars: &Vec<char>) -> (r: Result<Vec<Lexeme>, ParseError>)
    ensures
        match r {
            Ok(found) => words(chars@) == Ok::<Seq<LexemeView>, ParseErrorView>(
                lexeme_views(found@),
            ),
            Err(e) => words(chars@) == Err::<Seq<LexemeView>, ParseErrorView>(e@),
        },
{
    let mut found: Vec<Lexeme> = Vec::new();
    let mut i: usize = 0;
    assert(lexeme_views(found@) =~= Seq::empty());
    loop
        invariant
            i <= chars.len(),
            words_from(chars@, i as int, lexeme_views(found@)) == words(chars@),
        decreases chars.len() - i,
    {
        let at = scan_skip(chars, i);
        if at >= chars.len() {
            return Ok(found);
        }
        match scan_word(chars, at) {
            Err(e) => {
                return Err(e);
            },
            Ok(word) => {
                let ghost before = lexeme_views(found@);
                i = word.end;
                found.push(word);
                assert(lexeme_views(found@) =~= before.push(word@));
            },
        }
    }
}

} // verus!
