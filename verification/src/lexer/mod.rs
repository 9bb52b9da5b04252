//! The Envlang lexer
//!
//! The lexer takes a Unicode-segmented `String` vector from
//! [`segment_graphemes`](crate::unicodesegmenters::segment_graphemes) and turns it into a
//! vector of [`Token`]s, or a [`LexerError`] that says where and why lexing stopped.
//!
//! What the lexer does is stated by the spec function [`lex_from`]: one step
//! ([`lex_step`]) reads one token starting at a segment, and lexing repeats steps until the
//! input is exhausted, where it adds [`Token::EOF`], or until a step fails.
mod error;
mod token;

pub use error::{LexerError, LexerErrorView};
pub use token::{Token, TokenView};

use vstd::prelude::*;
use vstd::seq_lib::lemma_flatten_concat;

use crate::chars::{
    all_alphabetic,
    all_alphanumeric,
    all_ascii_digits,
    all_whitespace,
    is_all_alphabetic,
    is_all_alphanumeric,
    is_all_ascii_digits,
    is_all_whitespace,
    is_single,
    same_text,
};
use crate::symbols::{
    ArithmeticOperators,
    Booleans,
    ComparisonOperators,
    Keywords,
    LogicalOperators,
    Operators,
    OtherOperators,
};

verus! {

/// The text `s` is the one character `c`.
pub open spec fn single(s: Seq<char>, c: char) -> bool {
    s == seq![c]
}

/// The concatenation of the segments `inp[a..b]`.
pub open spec fn span(inp: Seq<Seq<char>>, a: int, b: int) -> Seq<char> {
    inp.subrange(a, b).flatten()
}

/// The first index `k >= j` at which the segments stop being runs of ASCII digits
/// (the input length if they never stop).
pub open spec fn number_end(inp: Seq<Seq<char>>, j: int) -> int
    decreases inp.len() - j,
{
    if j < 0 || j >= inp.len() {
        j
    } else if all_ascii_digits(inp[j]) {
        number_end(inp, j + 1)
    } else {
        j
    }
}

/// Segments that may continue an identifier: alphanumeric runs, `-` and `_`.
pub open spec fn ident_part(s: Seq<char>) -> bool {
    all_alphanumeric(s) || single(s, '-') || single(s, '_')
}

/// The first index `k >= j` at which the segments stop continuing an identifier.
pub open spec fn ident_end(inp: Seq<Seq<char>>, j: int) -> int
    decreases inp.len() - j,
{
    if j < 0 || j >= inp.len() {
        j
    } else if ident_part(inp[j]) {
        ident_end(inp, j + 1)
    } else {
        j
    }
}

/// The first index `k >= j` whose segment is the delimiter `d`, or the input length if none is.
pub open spec fn string_close(inp: Seq<Seq<char>>, j: int, d: Seq<char>) -> int
    decreases inp.len() - j,
{
    if j < 0 || j >= inp.len() {
        j
    } else if inp[j] == d {
        j
    } else {
        string_close(inp, j + 1, d)
    }
}

/// The token that an alphanumeric word stands for: a keyword, a boolean or an identifier.
pub open spec fn keyword_token(t: Seq<char>) -> TokenView {
    if t == Keywords::LET.text() {
        TokenView::Keyword(Keywords::LET)
    } else if t == Keywords::INHERIT.text() {
        TokenView::Keyword(Keywords::INHERIT)
    } else if t == Keywords::FUN.text() {
        TokenView::Keyword(Keywords::FUN)
    } else if t == Booleans::TRUE.text() {
        TokenView::Boolean(Booleans::TRUE)
    } else if t == Booleans::FALSE.text() {
        TokenView::Boolean(Booleans::FALSE)
    } else if t == Keywords::RETURN.text() {
        TokenView::Keyword(Keywords::RETURN)
    } else {
        TokenView::Identifier(t)
    }
}

/// The segments that start an operator.
pub open spec fn operator_symbol(s: Seq<char>) -> bool {
    single(s, '+') || single(s, '-') || single(s, '*') || single(s, '/') || single(s, '%')
        || single(s, '^') || single(s, '=') || single(s, '<') || single(s, '>') || single(s, '!')
        || single(s, '&') || single(s, '|')
}

/// What a step yields: a token and the index of the next unread segment, or an error and
/// the index at which the lexer stopped.
pub type StepResult = Result<(TokenView, int), (LexerErrorView, int)>;

/// Lexing a comparison-like operator whose first symbol `first` was read at `pos`, with
/// `next` the index of the following segment.
///
/// A following `=` makes `>=`, `<=`, `==` or `!=`. Otherwise the single symbol stands (`>`,
/// `<`, assignment, or logical NOT) and the following segment is left to be read.
pub open spec fn comparison_result(
    inp: Seq<Seq<char>>,
    next: int,
    first: Seq<char>,
    pos: usize,
) -> StepResult {
    if 0 <= next < inp.len() && single(inp[next], '=') {
        if single(first, '>') {
            Ok((TokenView::Operator(Operators::Comparison(ComparisonOperators::GEQ)), next + 1))
        } else if single(first, '<') {
            Ok((TokenView::Operator(Operators::Comparison(ComparisonOperators::LEQ)), next + 1))
        } else if single(first, '=') {
            Ok((TokenView::Operator(Operators::Comparison(ComparisonOperators::EQ)), next + 1))
        } else if single(first, '!') {
            Ok((TokenView::Operator(Operators::Comparison(ComparisonOperators::NEQ)), next + 1))
        } else {
            Err((LexerErrorView::InvalidOperator(pos, first), next + 1))
        }
    } else if single(first, '>') {
        Ok((TokenView::Operator(Operators::Comparison(ComparisonOperators::GT)), next))
    } else if single(first, '<') {
        Ok((TokenView::Operator(Operators::Comparison(ComparisonOperators::LT)), next))
    } else if single(first, '=') {
        Ok((TokenView::Operator(Operators::Other(OtherOperators::ASSIGNMENT)), next))
    } else if single(first, '!') {
        Ok((TokenView::Operator(Operators::Logical(LogicalOperators::NOT)), next))
    } else {
        Err((LexerErrorView::InvalidOperator(pos, first), next))
    }
}

/// Lexing an operator whose first symbol `s` was read at `pos`, `next` being the index of
/// the following segment.
pub open spec fn operator_result(
    inp: Seq<Seq<char>>,
    next: int,
    s: Seq<char>,
    pos: usize,
) -> StepResult {
    if single(s, '+') {
        Ok((TokenView::Operator(Operators::Arithmetic(ArithmeticOperators::ADD)), next))
    } else if single(s, '-') {
        Ok((TokenView::Operator(Operators::Arithmetic(ArithmeticOperators::SUBTRACT)), next))
    } else if single(s, '*') {
        Ok((TokenView::Operator(Operators::Arithmetic(ArithmeticOperators::MULTIPLY)), next))
    } else if single(s, '/') {
        Ok((TokenView::Operator(Operators::Arithmetic(ArithmeticOperators::DIVIDE)), next))
    } else if single(s, '%') {
        Ok((TokenView::Operator(Operators::Arithmetic(ArithmeticOperators::MODULUS)), next))
    } else if single(s, '^') {
        Ok((TokenView::Operator(Operators::Arithmetic(ArithmeticOperators::EXPONENTIATION)), next))
    } else if single(s, '>') || single(s, '<') || single(s, '!') || single(s, '=') {
        comparison_result(inp, next, s, pos)
    } else if single(s, '&') {
        Ok((TokenView::Operator(Operators::Logical(LogicalOperators::AND)), next))
    } else if single(s, '|') {
        Ok((TokenView::Operator(Operators::Logical(LogicalOperators::OR)), next))
    } else {
        Err((LexerErrorView::UnrecognizedInput(pos, s), next))
    }
}

/// One lexing step at segment `i`.
pub open spec fn lex_step(inp: Seq<Seq<char>>, i: int) -> StepResult
    recommends
        0 <= i < inp.len(),
{
    let s = inp[i];
    let pos = i as usize;
    if single(s, '{') {
        Ok((TokenView::LeftBrace, i + 1))
    } else if single(s, '}') {
        Ok((TokenView::RightBrace, i + 1))
    } else if single(s, '(') {
        Ok((TokenView::LeftParen, i + 1))
    } else if single(s, ')') {
        Ok((TokenView::RightParen, i + 1))
    } else if single(s, '[') {
        Ok((TokenView::LeftBracket, i + 1))
    } else if single(s, ']') {
        Ok((TokenView::RightBracket, i + 1))
    } else if single(s, '"') || single(s, '\'') {
        let k = string_close(inp, i + 1, s);
        if k < inp.len() {
            Ok((TokenView::StringLiteral(span(inp, i + 1, k)), k + 1))
        } else {
            Err((LexerErrorView::UnterminatedString(pos, span(inp, i + 1, inp.len() as int)), inp.len() as int))
        }
    } else if operator_symbol(s) {
        operator_result(inp, i + 1, s, pos)
    } else if single(s, '.') {
        Ok((TokenView::Operator(Operators::Other(OtherOperators::ACCESSOR)), i + 1))
    } else if single(s, ',') {
        Ok((TokenView::Comma, i + 1))
    } else if single(s, ';') {
        Ok((TokenView::LineTerminator, i + 1))
    } else if all_ascii_digits(s) {
        if s.len() == 0 {
            Err((LexerErrorView::InvalidToken(pos, Seq::empty()), i + 1))
        } else {
            let e = number_end(inp, i + 1);
            Ok((TokenView::Number(s + span(inp, i + 1, e)), e))
        }
    } else if all_alphabetic(s) {
        let e = ident_end(inp, i + 1);
        Ok((keyword_token(s + span(inp, i + 1, e)), e))
    } else if all_whitespace(s) {
        Ok((TokenView::Whitespace(s), i + 1))
    } else {
        Err((LexerErrorView::UnrecognizedInput(pos, s), i + 1))
    }
}

/// Lexing from segment `i` to the end: the tokens (ending in `EOF`) or the first error,
/// together with the index at which the lexer stops.
pub open spec fn lex_from(inp: Seq<Seq<char>>, i: int) -> (
    Result<Seq<TokenView>, LexerErrorView>,
    int,
)
    decreases inp.len() - i,
{
    if i < 0 || i >= inp.len() {
        (Ok(seq![TokenView::EOF]), i)
    } else {
        match lex_step(inp, i) {
            Ok((t, j)) => {
                proof {
                    lemma_step_advances(inp, i);
                }
                let (r, c) = lex_from(inp, j);
                (
                    match r {
                        Ok(ts) => Ok(seq![t] + ts),
                        Err(e) => Err(e),
                    },
                    c,
                )
            },
            Err((e, c)) => (Err(e), c),
        }
    }
}

/// The views of a token vector.
pub open spec fn token_views(ts: Seq<Token>) -> Seq<TokenView> {
    ts.map_values(|t: Token| t@)
}

/// An executable lexing result agrees with a specified one.
pub open spec fn lexed(
    res: Result<Vec<Token>, LexerError>,
    spec: Result<Seq<TokenView>, LexerErrorView>,
) -> bool {
    match (res, spec) {
        (Ok(ts), Ok(vs)) => token_views(ts@) == vs,
        (Err(e), Err(ev)) => e@ == ev,
        _ => false,
    }
}

/// A single step's executable outcome, with the lexer's position after it.
pub open spec fn outcome(res: Result<Token, LexerError>, cur: usize) -> StepResult {
    match res {
        Ok(t) => Ok((t@, cur as int)),
        Err(e) => Err((e@, cur as int)),
    }
}

/// Prefixing already-lexed tokens to the lexing of the rest.
pub open spec fn after(
    acc: Seq<TokenView>,
    rest: (Result<Seq<TokenView>, LexerErrorView>, int),
) -> (Result<Seq<TokenView>, LexerErrorView>, int) {
    (
        match rest.0 {
            Ok(ts) => Ok(acc + ts),
            Err(e) => Err(e),
        },
        rest.1,
    )
}

proof fn lemma_number_end(inp: Seq<Seq<char>>, j: int)
    requires
        0 <= j <= inp.len(),
    ensures
        j <= number_end(inp, j) <= inp.len(),
        forall|k: int| j <= k < number_end(inp, j) ==> all_ascii_digits(#[trigger] inp[k]),
    decreases inp.len() - j,
{
    if j < inp.len() && all_ascii_digits(inp[j]) {
        lemma_number_end(inp, j + 1);
    }
}

proof fn lemma_ident_end(inp: Seq<Seq<char>>, j: int)
    requires
        0 <= j <= inp.len(),
    ensures
        j <= ident_end(inp, j) <= inp.len(),
        forall|k: int| j <= k < ident_end(inp, j) ==> ident_part(#[trigger] inp[k]),
    decreases inp.len() - j,
{
    if j < inp.len() && ident_part(inp[j]) {
        lemma_ident_end(inp, j + 1);
    }
}

proof fn lemma_string_close(inp: Seq<Seq<char>>, j: int, d: Seq<char>)
    requires
        0 <= j <= inp.len(),
    ensures
        j <= string_close(inp, j, d) <= inp.len(),
        string_close(inp, j, d) < inp.len() ==> inp[string_close(inp, j, d)] == d,
        forall|k: int| j <= k < string_close(inp, j, d) ==> #[trigger] inp[k] != d,
    decreases inp.len() - j,
{
    if j < inp.len() && inp[j] != d {
        lemma_string_close(inp, j + 1, d);
    }
}

/// A step that succeeds moves past at least the segment it started at, and not past the end.
pub proof fn lemma_step_advances(inp: Seq<Seq<char>>, i: int)
    requires
        0 <= i < inp.len(),
    ensures
        lex_step(inp, i) matches Ok((_, j)) ==> i < j <= inp.len(),
        lex_step(inp, i) matches Err((_, c)) ==> i < c <= inp.len(),
{
    lemma_number_end(inp, i + 1);
    lemma_ident_end(inp, i + 1);
    lemma_string_close(inp, i + 1, inp[i]);
}

proof fn lemma_span_empty(inp: Seq<Seq<char>>, a: int)
    requires
        0 <= a <= inp.len(),
    ensures
        span(inp, a, a) == Seq::<char>::empty(),
{
    assert(inp.subrange(a, a) =~= Seq::<Seq<char>>::empty());
}

proof fn lemma_span_extend(inp: Seq<Seq<char>>, a: int, b: int)
    requires
        0 <= a <= b < inp.len(),
    ensures
        span(inp, a, b + 1) == span(inp, a, b) + inp[b],
{
    assert(inp.subrange(a, b + 1) =~= inp.subrange(a, b).push(inp[b]));
    inp.subrange(a, b).lemma_flatten_push(inp[b]);
}

/// No step yields the end-of-file token: only the end of the input does.
proof fn lemma_step_not_eof(inp: Seq<Seq<char>>, i: int)
    requires
        0 <= i < inp.len(),
    ensures
        lex_step(inp, i) matches Ok((t, _)) ==> t != TokenView::EOF,
{
}

/// A lexing that succeeds reads every segment, and its tokens end with the end-of-file
/// token, which stands nowhere else among them; there is at most one token per segment read,
/// besides the end of file.
pub proof fn lexing_ends_with_eof(inp: Seq<Seq<char>>, i: int)
    requires
        0 <= i <= inp.len(),
    ensures
        lex_from(inp, i).0 matches Ok(ts) ==> {
            &&& lex_from(inp, i).1 == inp.len()
            &&& ts.len() >= 1
            &&& ts.last() == TokenView::EOF
            &&& forall|k: int| 0 <= k < ts.len() - 1 ==> ts[k] != TokenView::EOF
            &&& ts.len() <= inp.len() - i + 1
        },
    decreases inp.len() - i,
{
    if i < inp.len() {
        lemma_step_advances(inp, i);
        lemma_step_not_eof(inp, i);
        if let Ok((t, j)) = lex_step(inp, i) {
            lexing_ends_with_eof(inp, j);
            if let Ok(rest) = lex_from(inp, j).0 {
                let ts = seq![t] + rest;
                assert forall|k: int| 0 <= k < ts.len() - 1 implies ts[k] != TokenView::EOF by {
                    if k > 0 {
                        assert(ts[k] == rest[k - 1]);
                    }
                }
            }
        }
    }
}

/// The segments of a text, one character each.
pub open spec fn char_segments(s: Seq<char>) -> Seq<Seq<char>> {
    Seq::new(s.len(), |k: int| seq![s[k]])
}

/// A one-character text is that character and no other.
proof fn lemma_single_only(s: Seq<char>, c: char)
    requires
        single(s, c),
    ensures
        forall|d: char| #[trigger] single(s, d) <==> d == c,
{
    assert forall|d: char| #[trigger] single(s, d) implies d == c by {
        assert(s[0] == d);
    }
}

/// A single step that reads the whole input makes the lexing: its token, then the end of file.
proof fn lemma_one_step_lexing(inp: Seq<Seq<char>>, t: TokenView)
    requires
        inp.len() >= 1,
        lex_step(inp, 0) == Ok::<(TokenView, int), (LexerErrorView, int)>((t, inp.len() as int)),
    ensures
        lex_from(inp, 0) == (
            Ok::<Seq<TokenView>, LexerErrorView>(seq![t, TokenView::EOF]),
            inp.len() as int,
        ),
{
    assert(lex_from(inp, inp.len() as int) == (
        Ok::<Seq<TokenView>, LexerErrorView>(seq![TokenView::EOF]),
        inp.len() as int,
    ));
    assert(seq![t] + seq![TokenView::EOF] =~= seq![t, TokenView::EOF]);
}

/// The tokens that stand for a fixed symbol: brackets, punctuation and operators.
pub open spec fn symbol_token(t: TokenView) -> bool {
    match t {
        TokenView::LeftBrace | TokenView::RightBrace | TokenView::LeftParen | TokenView::RightParen
        | TokenView::LeftBracket | TokenView::RightBracket | TokenView::Comma
        | TokenView::LineTerminator | TokenView::Operator(_) => true,
        _ => false,
    }
}

/// Lexing the text of a symbol token, one character per segment, gives back that token and
/// the end of file, having read the whole text: showing such a token and lexing what is
/// shown are inverse.
pub proof fn symbol_text_lexes_back(t: TokenView)
    requires
        symbol_token(t),
    ensures
        lex_from(char_segments(t.text()), 0) == (
            Ok::<Seq<TokenView>, LexerErrorView>(seq![t, TokenView::EOF]),
            t.text().len() as int,
        ),
{
    let text = t.text();
    let inp = char_segments(text);
    if text.len() == 1 {
        assert(inp =~= seq![seq![text[0]]]);
    } else {
        assert(text.len() == 2);
        assert(inp =~= seq![seq![text[0]], seq![text[1]]]);
    }
    let s0 = inp[0];
    lemma_single_only(s0, text[0]);
    if text.len() == 2 {
        lemma_single_only(inp[1], text[1]);
    }
    assert(lex_step(inp, 0) == Ok::<(TokenView, int), (LexerErrorView, int)>(
        (t, text.len() as int),
    ));
    lemma_one_step_lexing(inp, t);
}

/// The source text a token stands for: its text, and nothing for the end of file.
pub open spec fn source_text(t: TokenView) -> Seq<char> {
    if t is EOF {
        Seq::empty()
    } else {
        t.text()
    }
}

/// The source texts of the tokens, one after another.
pub open spec fn shown(ts: Seq<TokenView>) -> Seq<char>
    decreases ts.len(),
{
    if ts.len() == 0 {
        Seq::empty()
    } else {
        source_text(ts[0]) + shown(ts.drop_first())
    }
}

/// No segment from index `i` on is a string delimiter.
pub open spec fn without_quotes(inp: Seq<Seq<char>>, i: int) -> bool {
    forall|k: int| i <= k < inp.len() ==> !single(#[trigger] inp[k], '"') && !single(inp[k], '\'')
}

pub(crate) proof fn lemma_span_split(inp: Seq<Seq<char>>, a: int, b: int, c: int)
    requires
        0 <= a <= b <= c <= inp.len(),
    ensures
        span(inp, a, c) == span(inp, a, b) + span(inp, b, c),
{
    assert(inp.subrange(a, c) =~= inp.subrange(a, b) + inp.subrange(b, c));
    lemma_flatten_concat(inp.subrange(a, b), inp.subrange(b, c));
}

pub(crate) proof fn lemma_span_one(inp: Seq<Seq<char>>, a: int)
    requires
        0 <= a < inp.len(),
    ensures
        span(inp, a, a + 1) == inp[a],
{
    assert(inp.subrange(a, a + 1) =~= seq![inp[a]]);
    seq![inp[a]].lemma_flatten_one_element();
}

/// A step that succeeds on a segment other than a string delimiter yields a token whose text
/// is the text of the segments it read.
proof fn lemma_step_text(inp: Seq<Seq<char>>, i: int)
    requires
        0 <= i < inp.len(),
        !single(inp[i], '"'),
        !single(inp[i], '\''),
    ensures
        lex_step(inp, i) matches Ok((t, j)) ==> t != TokenView::EOF && t.text() == span(inp, i, j),
{
    lemma_step_advances(inp, i);
    lemma_number_end(inp, i + 1);
    lemma_ident_end(inp, i + 1);
    lemma_span_one(inp, i);
    if let Ok((t, j)) = lex_step(inp, i) {
        lemma_span_split(inp, i, i + 1, j);
        if j == i + 2 {
            lemma_span_one(inp, i + 1);
            lemma_span_split(inp, i + 1, i + 2, i + 2);
            assert(span(inp, i + 2, i + 2) =~= Seq::<char>::empty());
            let s = inp[i];
            let n = inp[i + 1];
            if single(s, '>') {
                assert(s + n =~= seq!['>', '=']);
            } else if single(s, '<') {
                assert(s + n =~= seq!['<', '=']);
            } else if single(s, '=') {
                assert(s + n =~= seq!['=', '=']);
            } else if single(s, '!') {
                assert(s + n =~= seq!['!', '=']);
            }
        } else if j == i + 1 {
            assert(span(inp, i + 1, i + 1) =~= Seq::<char>::empty());
            assert(inp[i] + Seq::<char>::empty() =~= inp[i]);
        }
    }
}

/// Lexing an input without string delimiters loses, repeats and reorders nothing: when it
/// succeeds, the tokens' source texts, one after another, give back the input read.
pub proof fn lexing_keeps_the_text(inp: Seq<Seq<char>>, i: int)
    requires
        0 <= i <= inp.len(),
        without_quotes(inp, i),
    ensures
        lex_from(inp, i).0 matches Ok(ts) ==> shown(ts) == span(inp, i, inp.len() as int),
    decreases inp.len() - i,
{
    if i >= inp.len() {
        assert(inp.subrange(i, i) =~= Seq::<Seq<char>>::empty());
        let e = seq![TokenView::EOF];
        assert(e.drop_first() =~= Seq::<TokenView>::empty());
        assert(shown(e.drop_first()) == Seq::<char>::empty());
        assert(source_text(e[0]) == Seq::<char>::empty());
        assert(shown(e) =~= Seq::<char>::empty());
    } else {
        assert(!single(inp[i], '"') && !single(inp[i], '\''));
        lemma_step_advances(inp, i);
        lemma_step_text(inp, i);
        if let Ok((t, j)) = lex_step(inp, i) {
            lexing_keeps_the_text(inp, j);
            if let Ok(rest) = lex_from(inp, j).0 {
                let ts = seq![t] + rest;
                assert(ts.drop_first() =~= rest);
                assert(ts[0] == t);
                lemma_span_split(inp, i, j, inp.len() as int);
            }
        }
    }
}

/// Envlang lexer
///
/// The `Lexer` holds the Unicode-segmented `String` vector from
/// [`segment_graphemes`](crate::unicodesegmenters::segment_graphemes) and the index of the next
/// unread segment. It does not check that the segments were properly segmented.
pub struct Lexer {
    /// The segments to read
    pub input: Vec<String>,
    /// Index of the next unread segment
    pub current: usize,
}

impl Lexer {
    /// The segments the lexer reads, as character sequences.
    pub open spec fn input_view(&self) -> Seq<Seq<char>> {
        self.input@.map_values(|s: String| s@)
    }

    /// The index of the next unread segment.
    pub open spec fn position(&self) -> usize {
        self.current
    }

    /// Initializes a new Lexer with a given input vector, positioned at its first segment.
    pub fn new(input: Vec<String>) -> (lexer: Self)
        ensures
            lexer.input_view() == input@.map_values(|s: String| s@),
            lexer.position() == 0,
    {
        Self { input, current: 0 }
    }

    /// Returns the next segment with its index and moves past it, or `None` at the end.
    fn iterate(&mut self) -> (r: Option<(usize, String)>)
        ensures
            final(self).input_view() == old(self).input_view(),
            old(self).current < old(self).input_view().len() ==> {
                &&& r matches Some((pos, s))
                &&& pos == old(self).current
                &&& s@ == old(self).input_view()[pos as int]
                &&& final(self).current == old(self).current + 1
            },
            old(self).current >= old(self).input_view().len() ==> {
                &&& r is None
                &&& final(self).current == old(self).current
            },
    {
        if self.current < self.input.len() {
            let pos = self.current;
            let ch = self.input[self.current].clone();
            self.current += 1;
            Some((pos, ch))
        } else {
            None
        }
    }

    /// Peeks at the segment of index `n`, leaving the lexer as it is.
    ///
    /// # Errors
    /// * [`LexerError::BrokenLexer`]: The current position is beyond the input length.
    /// * [`LexerError::IndexOutOfBounds`]: `n` is not the index of a segment.
    pub fn peek_n(&self, n: usize) -> (r: Result<String, LexerError>)
        ensures
            self.position() > self.input_view().len() ==> r == Err::<String, LexerError>(
                LexerError::BrokenLexer(self.position(), self.input_view().len() as usize),
            ),
            self.position() <= self.input_view().len() && n >= self.input_view().len() ==> r == Err::<
                String,
                LexerError,
            >(LexerError::IndexOutOfBounds(self.position(), n, self.input_view().len() as usize)),
            self.input_view().len() <= usize::MAX,
            self.position() <= self.input_view().len() && n < self.input_view().len() ==> (r matches Ok(
                s,
            ) && s@ == self.input_view()[n as int]),
    {
        let length: usize = self.input.len();
        assert(self.input_view().len() == length);
        if self.current > length {
            Err(LexerError::BrokenLexer(self.current, length))
        } else if n >= length {
            Err(LexerError::IndexOutOfBounds(self.current, n, length))
        } else {
            Ok(self.input[n].clone())
        }
    }

    /// Tokenizes the input, from the current position to the end.
    ///
    /// The result and the final position are those of [`lex_from`].
    ///
    /// # Errors
    /// * Any errors from [`tokenize_string`](Lexer::tokenize_string),
    ///   [`tokenize_operator`](Lexer::tokenize_operator), [`tokenize_number`](Lexer::tokenize_number),
    ///   or [`tokenize_alphabetics`](Lexer::tokenize_alphabetics).
    /// * [`LexerError::UnrecognizedInput`]: The input segment does not match the syntax of Envlang.
    pub fn tokenize(&mut self) -> (res: Result<Vec<Token>, LexerError>)
        ensures
            final(self).input_view() == old(self).input_view(),
            final(self).position() == lex_from(old(self).input_view(), old(self).position() as int).1,
            lexed(res, lex_from(old(self).input_view(), old(self).position() as int).0),
    {
        let ghost inp = self.input_view();
        let cur0: usize = self.current;
        let ghost start = cur0 as int;
        let mut tokens: Vec<Token> = Vec::new();
        loop
            invariant
                self.input_view() == inp,
                inp == old(self).input_view(),
                start == old(self).current,
                0 <= start,
                after(token_views(tokens@), lex_from(inp, self.current as int)) == lex_from(
                    inp,
                    start,
                ),
            decreases inp.len() + 1 - self.current,
        {
            let ghost i = self.current as int;
            match self.iterate() {
                None => {
                    let ghost before = token_views(tokens@);
                    tokens.push(Token::EOF);
                    assert(token_views(tokens@) =~= before + seq![TokenView::EOF]);
                    return Ok(tokens);
                },
                Some((pos, unicode_string)) => {
                    let s = unicode_string.as_str();
                    proof {
                        reveal_strlit("\"");
                        reveal_strlit("'");
                        assert("\""@ =~= seq!['"']);
                        assert("'"@ =~= seq!['\'']);
                    }
                    let r: Result<Token, LexerError>;
                    if is_single(s, '{') {
                        r = Ok(Token::LeftBrace);
                    } else if is_single(s, '}') {
                        r = Ok(Token::RightBrace);
                    } else if is_single(s, '(') {
                        r = Ok(Token::LeftParen);
                    } else if is_single(s, ')') {
                        r = Ok(Token::RightParen);
                    } else if is_single(s, '[') {
                        r = Ok(Token::LeftBracket);
                    } else if is_single(s, ']') {
                        r = Ok(Token::RightBracket);
                    } else if is_single(s, '"') {
                        r = self.tokenize_string("\"", pos);
                    } else if is_single(s, '\'') {
                        r = self.tokenize_string("'", pos);
                    } else if is_single(s, '+') || is_single(s, '-') || is_single(s, '*')
                        || is_single(s, '/') || is_single(s, '%') || is_single(s, '^')
                        || is_single(s, '=') || is_single(s, '<') || is_single(s, '>')
                        || is_single(s, '!') || is_single(s, '&') || is_single(s, '|') {
                        r = self.tokenize_operator(s, pos);
                    } else if is_single(s, '.') {
                        r = Ok(Token::Operator(Operators::Other(OtherOperators::ACCESSOR)));
                    } else if is_single(s, ',') {
                        r = Ok(Token::Comma);
                    } else if is_single(s, ';') {
                        r = Ok(Token::LineTerminator);
                    } else if is_all_ascii_digits(s) {
                        r = self.tokenize_number(s, pos);
                    } else if is_all_alphabetic(s) {
                        r = self.tokenize_alphabetics(s, pos);
                    } else if is_all_whitespace(s) {
                        r = Ok(Token::Whitespace(unicode_string.clone()));
                    } else {
                        r = Err(LexerError::UnrecognizedInput(pos, unicode_string.clone()));
                    }
                    assert(outcome(r, self.current) == lex_step(inp, i));
                    proof {
                        lemma_step_advances(inp, i);
                    }
                    match r {
                        Ok(t) => {
                            let ghost before = token_views(tokens@);
                            tokens.push(t);
                            assert(token_views(tokens@) =~= before + seq![t@]);
                            proof {
                                let j = self.current as int;
                                let rest = lex_from(inp, j);
                                assert(lex_from(inp, i) == (
                                    match rest.0 {
                                        Ok(ts) => Ok(seq![t@] + ts),
                                        Err(e) => Err(e),
                                    },
                                    rest.1,
                                ));
                                if let Ok(ts) = rest.0 {
                                    assert((before + seq![t@]) + ts =~= before + (seq![t@] + ts));
                                }
                            }
                        },
                        Err(e) => {
                            return Err(e);
                        },
                    }
                },
            }
        }
    }

    /// Distinguishes single-symbol operators from two-symbol comparison operators: a following
    /// `=` is read as the operator's second symbol, anything else is left to be read.
    ///
    /// # Errors
    /// * [`LexerError::InvalidOperator`]: The operator symbol is not a comparison symbol.
    fn tokenize_comparison(&mut self, first_op: &str, pos: usize) -> (r: Result<Token, LexerError>)
        requires
            old(self).current <= old(self).input_view().len(),
        ensures
            final(self).input_view() == old(self).input_view(),
            outcome(r, final(self).current) == comparison_result(
                old(self).input_view(),
                old(self).current as int,
                first_op@,
                pos,
            ),
    {
        let peeked = self.peek_n(self.current);
        if let Ok(next_symbol) = peeked {
            if is_single(next_symbol.as_str(), '=') {
                self.current += 1;
                if is_single(first_op, '>') {
                    return Ok(Token::Operator(Operators::Comparison(ComparisonOperators::GEQ)));
                } else if is_single(first_op, '<') {
                    return Ok(Token::Operator(Operators::Comparison(ComparisonOperators::LEQ)));
                } else if is_single(first_op, '=') {
                    return Ok(Token::Operator(Operators::Comparison(ComparisonOperators::EQ)));
                } else if is_single(first_op, '!') {
                    return Ok(Token::Operator(Operators::Comparison(ComparisonOperators::NEQ)));
                } else {
                    return Err(LexerError::InvalidOperator(pos, first_op.to_owned()));
                }
            }
        }
        if is_single(first_op, '>') {
            Ok(Token::Operator(Operators::Comparison(ComparisonOperators::GT)))
        } else if is_single(first_op, '<') {
            Ok(Token::Operator(Operators::Comparison(ComparisonOperators::LT)))
        } else if is_single(first_op, '=') {
            Ok(Token::Operator(Operators::Other(OtherOperators::ASSIGNMENT)))
        } else if is_single(first_op, '!') {
            Ok(Token::Operator(Operators::Logical(LogicalOperators::NOT)))
        } else {
            Err(LexerError::InvalidOperator(pos, first_op.to_owned()))
        }
    }

    /// Reads a number: `unicode_string` followed by every following segment made of ASCII digits.
    ///
    /// # Errors
    /// * [`LexerError::InvalidToken`]: `unicode_string` is empty or not made of ASCII digits.
    fn tokenize_number(&mut self, unicode_string: &str, pos: usize) -> (r: Result<Token, LexerError>)
        requires
            old(self).current <= old(self).input_view().len(),
        ensures
            final(self).input_view() == old(self).input_view(),
            unicode_string@.len() == 0 ==> (r matches Err(e) && e@ == LexerErrorView::InvalidToken(
                pos,
                Seq::empty(),
            )) && final(self).current == old(self).current,
            unicode_string@.len() != 0 && !all_ascii_digits(unicode_string@) ==> (r matches Err(
                e,
            ) && e@ == LexerErrorView::InvalidToken(pos, unicode_string@)) && final(self).current
                == old(self).current,
            unicode_string@.len() != 0 && all_ascii_digits(unicode_string@) ==> {
                let e = number_end(old(self).input_view(), old(self).current as int);
                &&& r matches Ok(t)
                &&& t@ == TokenView::Number(
                    unicode_string@ + span(old(self).input_view(), old(self).current as int, e),
                )
                &&& final(self).current == e
            },
    {
        if unicode_string.is_empty() {
            return Err(LexerError::InvalidToken(pos, String::new()));
        }
        if !is_all_ascii_digits(unicode_string) {
            return Err(LexerError::InvalidToken(pos, unicode_string.to_owned()));
        }
        let ghost inp = self.input_view();
        let cur0: usize = self.current;
        let ghost start = cur0 as int;
        let mut number = unicode_string.to_owned();
        proof {
            lemma_span_empty(inp, start);
        }
        loop
            invariant
                self.input_view() == inp,
                0 <= start <= self.current <= inp.len(),
                number@ == unicode_string@ + span(inp, start, self.current as int),
                number_end(inp, self.current as int) == number_end(inp, start),
            ensures
                self.input_view() == inp,
                number@ == unicode_string@ + span(inp, start, self.current as int),
                number_end(inp, start) == self.current,
            decreases inp.len() - self.current,
        {
            match self.peek_n(self.current) {
                Ok(next_unicode_string) => {
                    if !is_all_ascii_digits(next_unicode_string.as_str()) {
                        break;
                    }
                    let (_, digit) = self.iterate().unwrap();
                    proof {
                        lemma_span_extend(inp, start, (self.current - 1) as int);
                    }
                    number.append(digit.as_str());
                    assert(number@ =~= unicode_string@ + span(inp, start, self.current as int));
                },
                Err(_) => break,
            }
        }
        Ok(Token::Number(number))
    }

    /// Reads a word: `unicode_string` followed by every following segment that is
    /// alphanumeric, `-` or `_`; the word is a keyword, a boolean, or else an identifier.
    ///
    /// # Errors
    /// * [`LexerError::EmptyIdentifier`]: `unicode_string` is empty.
    /// * [`LexerError::InvalidToken`]: `unicode_string` is not made of alphabetic characters.
    fn tokenize_alphabetics(&mut self, unicode_string: &str, pos: usize) -> (r: Result<
        Token,
        LexerError,
    >)
        requires
            old(self).current <= old(self).input_view().len(),
        ensures
            final(self).input_view() == old(self).input_view(),
            unicode_string@.len() == 0 ==> r == Err::<Token, LexerError>(
                LexerError::EmptyIdentifier(pos),
            ) && final(self).current == old(self).current,
            unicode_string@.len() != 0 && !all_alphabetic(unicode_string@) ==> (r matches Err(e)
                && e@ == LexerErrorView::InvalidToken(pos, unicode_string@)) && final(self).current
                == old(self).current,
            unicode_string@.len() != 0 && all_alphabetic(unicode_string@) ==> {
                let e = ident_end(old(self).input_view(), old(self).current as int);
                &&& r matches Ok(t)
                &&& t@ == keyword_token(
                    unicode_string@ + span(old(self).input_view(), old(self).current as int, e),
                )
                &&& final(self).current == e
            },
    {
        if unicode_string.is_empty() {
            return Err(LexerError::EmptyIdentifier(pos));
        }
        if !is_all_alphabetic(unicode_string) {
            return Err(LexerError::InvalidToken(pos, unicode_string.to_owned()));
        }
        let ghost inp = self.input_view();
        let cur0: usize = self.current;
        let ghost start = cur0 as int;
        let mut temp = unicode_string.to_owned();
        proof {
            lemma_span_empty(inp, start);
        }
        loop
            invariant
                self.input_view() == inp,
                0 <= start <= self.current <= inp.len(),
                temp@ == unicode_string@ + span(inp, start, self.current as int),
                ident_end(inp, self.current as int) == ident_end(inp, start),
            ensures
                self.input_view() == inp,
                temp@ == unicode_string@ + span(inp, start, self.current as int),
                ident_end(inp, start) == self.current,
            decreases inp.len() - self.current,
        {
            match self.peek_n(self.current) {
                Ok(following) => {
                    let s = following.as_str();
                    if !(is_all_alphanumeric(s) || is_single(s, '-') || is_single(s, '_')) {
                        break;
                    }
                    let (_, ch) = self.iterate().unwrap();
                    proof {
                        lemma_span_extend(inp, start, (self.current - 1) as int);
                    }
                    temp.append(ch.as_str());
                    assert(temp@ =~= unicode_string@ + span(inp, start, self.current as int));
                },
                Err(_) => break,
            }
        }
        proof {
            reveal_strlit("let");
            reveal_strlit("inherit");
            reveal_strlit("fun");
            reveal_strlit("true");
            reveal_strlit("false");
            reveal_strlit("return");
            assert("let"@ =~= Keywords::LET.text());
            assert("inherit"@ =~= Keywords::INHERIT.text());
            assert("fun"@ =~= Keywords::FUN.text());
            assert("true"@ =~= Booleans::TRUE.text());
            assert("false"@ =~= Booleans::FALSE.text());
            assert("return"@ =~= Keywords::RETURN.text());
        }
        let t = temp.as_str();
        if same_text(t, "let") {
            Ok(Token::Keyword(Keywords::LET))
        } else if same_text(t, "inherit") {
            Ok(Token::Keyword(Keywords::INHERIT))
        } else if same_text(t, "fun") {
            Ok(Token::Keyword(Keywords::FUN))
        } else if same_text(t, "true") {
            Ok(Token::Boolean(Booleans::TRUE))
        } else if same_text(t, "false") {
            Ok(Token::Boolean(Booleans::FALSE))
        } else if same_text(t, "return") {
            Ok(Token::Keyword(Keywords::RETURN))
        } else {
            Ok(Token::Identifier(temp))
        }
    }

    /// Reads a string literal whose opening delimiter was read at `start_pos`: every segment
    /// up to the next segment equal to the delimiter `matched`, which is consumed too.
    ///
    /// # Errors
    /// * [`LexerError::UnterminatedString`]: The input ends before a closing delimiter; the
    ///   error holds the text read so far.
    fn tokenize_string(&mut self, matched: &str, start_pos: usize) -> (r: Result<
        Token,
        LexerError,
    >)
        requires
            old(self).current <= old(self).input_view().len(),
        ensures
            final(self).input_view() == old(self).input_view(),
            ({
                let inp = old(self).input_view();
                let cur = old(self).current as int;
                let k = string_close(inp, cur, matched@);
                if k < inp.len() {
                    &&& r matches Ok(t)
                    &&& t@ == TokenView::StringLiteral(span(inp, cur, k))
                    &&& final(self).current == k + 1
                } else {
                    &&& r matches Err(e)
                    &&& e@ == LexerErrorView::UnterminatedString(
                        start_pos,
                        span(inp, cur, inp.len() as int),
                    )
                    &&& final(self).current == inp.len()
                }
            }),
    {
        let ghost inp = self.input_view();
        let cur0: usize = self.current;
        let ghost start = cur0 as int;
        let mut value: String = String::new();
        let mut closed = false;
        proof {
            lemma_span_empty(inp, start);
        }
        loop
            invariant_except_break
                self.input_view() == inp,
                0 <= start <= self.current <= inp.len(),
                value@ == span(inp, start, self.current as int),
                string_close(inp, self.current as int, matched@) == string_close(
                    inp,
                    start,
                    matched@,
                ),
                !closed,
            ensures
                self.input_view() == inp,
                closed ==> {
                    &&& value@ == span(inp, start, self.current - 1)
                    &&& self.current - 1 == string_close(inp, start, matched@) < inp.len()
                },
                !closed ==> {
                    &&& value@ == span(inp, start, inp.len() as int)
                    &&& self.current == inp.len() == string_close(inp, start, matched@)
                },
            decreases inp.len() - self.current,
        {
            match self.peek_n(self.current) {
                Ok(ch) => {
                    if !same_text(ch.as_str(), matched) {
                        let ghost c0 = self.current;
                        let (_, s) = self.iterate().unwrap();
                        proof {
                            lemma_span_extend(inp, start, c0 as int);
                        }
                        value.append(s.as_str());
                        assert(value@ =~= span(inp, start, self.current as int));
                    } else {
                        self.iterate();
                        closed = true;
                        break;
                    }
                },
                Err(_) => {
                    break;
                },
            }
        }
        if closed {
            Ok(Token::StringLiteral(value))
        } else {
            Err(LexerError::UnterminatedString(start_pos, value))
        }
    }

    /// Reads an operator whose first symbol `unicode_string` was read at `pos`.
    ///
    /// # Errors
    /// * Any errors from [`tokenize_comparison`](Lexer::tokenize_comparison).
    /// * [`LexerError::UnrecognizedInput`]: The text is not an operator symbol.
    fn tokenize_operator(&mut self, unicode_string: &str, pos: usize) -> (r: Result<
        Token,
        LexerError,
    >)
        requires
            old(self).current <= old(self).input_view().len(),
        ensures
            final(self).input_view() == old(self).input_view(),
            outcome(r, final(self).current) == operator_result(
                old(self).input_view(),
                old(self).current as int,
                unicode_string@,
                pos,
            ),
    {
        let s = unicode_string;
        let operator = if is_single(s, '+') {
            Ok(Operators::Arithmetic(ArithmeticOperators::ADD))
        } else if is_single(s, '-') {
            Ok(Operators::Arithmetic(ArithmeticOperators::SUBTRACT))
        } else if is_single(s, '*') {
            Ok(Operators::Arithmetic(ArithmeticOperators::MULTIPLY))
        } else if is_single(s, '/') {
            Ok(Operators::Arithmetic(ArithmeticOperators::DIVIDE))
        } else if is_single(s, '%') {
            Ok(Operators::Arithmetic(ArithmeticOperators::MODULUS))
        } else if is_single(s, '^') {
            Ok(Operators::Arithmetic(ArithmeticOperators::EXPONENTIATION))
        } else if is_single(s, '>') || is_single(s, '<') || is_single(s, '!') || is_single(s, '=') {
            return self.tokenize_comparison(s, pos);
        } else if is_single(s, '&') {
            Ok(Operators::Logical(LogicalOperators::AND))
        } else if is_single(s, '|') {
            Ok(Operators::Logical(LogicalOperators::OR))
        } else {
            Err(LexerError::UnrecognizedInput(pos, s.to_owned()))
        };
        match operator {
            Ok(op) => Ok(Token::Operator(op)),
            Err(e) => Err(e),
        }
    }
}

/// Digit segments end where a segment that is not all ASCII digits starts, or at the end.
proof fn lemma_number_end_stops(inp: Seq<Seq<char>>, j: int)
    requires
        0 <= j <= inp.len(),
    ensures
        number_end(inp, j) == inp.len() || !all_ascii_digits(inp[number_end(inp, j)]),
    decreases inp.len() - j,
{
    if j < inp.len() && all_ascii_digits(inp[j]) {
        lemma_number_end_stops(inp, j + 1);
    }
}

/// A number token takes the whole run of digit segments where it starts: it starts at a
/// non-empty digit segment, every segment it takes is made of ASCII digits, its text is those
/// segments joined, and the segment after it (if any) is not made of ASCII digits.
pub proof fn number_tokens_take_whole_digit_runs(inp: Seq<Seq<char>>, i: int)
    requires
        0 <= i < inp.len(),
    ensures
        lex_step(inp, i) matches Ok((TokenView::Number(t), j)) ==> {
            &&& inp[i].len() > 0
            &&& i < j <= inp.len()
            &&& t == span(inp, i, j)
            &&& forall|k: int| i <= k < j ==> all_ascii_digits(#[trigger] inp[k])
            &&& (j == inp.len() || !all_ascii_digits(inp[j]))
        },
{
    if let Ok((TokenView::Number(t), j)) = lex_step(inp, i) {
        let s = inp[i];
        assert(all_ascii_digits(s) && s.len() > 0);
        lemma_number_end(inp, i + 1);
        lemma_number_end_stops(inp, i + 1);
        assert(j == number_end(inp, i + 1));
        lemma_span_one(inp, i);
        lemma_span_split(inp, i, i + 1, j);
    }
}

/// Lexing from `i`: no number token is followed at once by another, and a number token comes
/// first only where a digit segment stands.
proof fn lemma_numbers_apart(inp: Seq<Seq<char>>, i: int)
    requires
        0 <= i <= inp.len(),
    ensures
        lex_from(inp, i).0 matches Ok(ts) ==> {
            &&& ts.len() > 0
            &&& (ts[0] is Number ==> i < inp.len() && all_ascii_digits(inp[i]))
            &&& forall|k: int| 0 <= k < ts.len() - 1 ==> !(#[trigger] ts[k] is Number && ts[k + 1] is Number)
        },
    decreases inp.len() - i,
{
    if i < inp.len() {
        lemma_step_advances(inp, i);
        if let Ok((t, j)) = lex_step(inp, i) {
            lemma_numbers_apart(inp, j);
            number_tokens_take_whole_digit_runs(inp, i);
            if let Ok(rest) = lex_from(inp, j).0 {
                let ts = seq![t] + rest;
                assert forall|k: int| 0 <= k < ts.len() - 1 implies !(#[trigger] ts[k] is Number
                    && ts[k + 1] is Number) by {
                    if k > 0 {
                        assert(ts[k] == rest[k - 1] && ts[k + 1] == rest[k]);
                    }
                }
            }
        }
    }
}

/// Numbers are read whole: in a successful lexing, no number token is followed directly by
/// another number token.
pub proof fn number_tokens_never_adjacent(inp: Seq<Seq<char>>)
    ensures
        lex_from(inp, 0).0 matches Ok(ts) ==> forall|k: int|
            0 <= k < ts.len() - 1 ==> !(#[trigger] ts[k] is Number && ts[k + 1] is Number),
{
    lemma_numbers_apart(inp, 0);
}

} // verus!
