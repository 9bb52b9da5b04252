//! The lenient Envlang lexer
//!
//! This lexer takes a Unicode-segmented `String` vector and turns it into a vector of
//! [`Token`]s. It never fails: a segment that it cannot lex is skipped, and a string literal
//! that is never closed runs to the end of the input.
//!
//! What it produces is stated by the spec function [`lenient_from`].
use vstd::prelude::*;

use crate::chars::{
    all_alphabetic,
    all_ascii_digits,
    all_whitespace,
    is_all_alphabetic,
    is_all_alphanumeric,
    is_all_ascii_digits,
    is_all_whitespace,
    is_single,
    same_text,
};
use crate::lexer::{ident_end, number_end, single, span, string_close};
use crate::symbols::{Booleans, Keywords};

verus! {

/// A token of the lenient lexer
#[derive(Debug, PartialEq, Eq)]
pub enum Token {
    LeftBrace,
    RightBrace,
    Identifier(String),
    Number(String),
    StringLiteral(String),
    Boolean(Booleans),
    Keyword(Keywords),
    Whitespace(String),
    Operator(String),
    FullStop,
    EOF,
}

/// The mathematical value of a [`Token`]: texts become character sequences.
pub enum TokenView {
    LeftBrace,
    RightBrace,
    Identifier(Seq<char>),
    Number(Seq<char>),
    StringLiteral(Seq<char>),
    Boolean(Booleans),
    Keyword(Keywords),
    Whitespace(Seq<char>),
    Operator(Seq<char>),
    FullStop,
    EOF,
}

impl View for Token {
    type V = TokenView;

    open spec fn view(&self) -> TokenView {
        match self {
            Token::LeftBrace => TokenView::LeftBrace,
            Token::RightBrace => TokenView::RightBrace,
            Token::Identifier(s) => TokenView::Identifier(s@),
            Token::Number(s) => TokenView::Number(s@),
            Token::StringLiteral(s) => TokenView::StringLiteral(s@),
            Token::Boolean(b) => TokenView::Boolean(*b),
            Token::Keyword(k) => TokenView::Keyword(*k),
            Token::Whitespace(s) => TokenView::Whitespace(s@),
            Token::Operator(s) => TokenView::Operator(s@),
            Token::FullStop => TokenView::FullStop,
            Token::EOF => TokenView::EOF,
        }
    }
}

impl TokenView {
    /// The text by which a token is shown to a reader.
    pub open spec fn text(self) -> Seq<char> {
        match self {
            TokenView::Number(n) => n,
            TokenView::StringLiteral(s) => seq!['"'] + s + seq!['"'],
            TokenView::Boolean(b) => b.text(),
            TokenView::Identifier(i) => i,
            TokenView::Keyword(k) => k.text(),
            TokenView::Operator(o) => o,
            TokenView::LeftBrace => seq!['{'],
            TokenView::RightBrace => seq!['}'],
            TokenView::FullStop => seq!['.'],
            TokenView::Whitespace(w) => w,
            TokenView::EOF => seq!['e', 'n', 'd', ' ', 'o', 'f', ' ', 'f', 'i', 'l', 'e'],
        }
    }
}

impl Token {
    /// Shows the token as text: string literals in double quotes, end of file in words,
    /// every other token as its source text.
    pub fn to_string(&self) -> (s: String)
        ensures
            s@ == self@.text(),
    {
        proof {
            reveal_strlit("\"");
            reveal_strlit("{");
            reveal_strlit("}");
            reveal_strlit(".");
            reveal_strlit("end of file");
        }
        match self {
            Token::Number(n) => n.clone(),
            Token::StringLiteral(s) => {
                let mut out = String::from_str("\"");
                out.append(s.as_str());
                out.append("\"");
                out
            },
            Token::Boolean(b) => b.to_string(),
            Token::Identifier(i) => i.clone(),
            Token::Keyword(k) => k.to_string(),
            Token::Operator(o) => o.clone(),
            Token::LeftBrace => String::from_str("{"),
            Token::RightBrace => String::from_str("}"),
            Token::FullStop => String::from_str("."),
            Token::Whitespace(w) => w.clone(),
            Token::EOF => String::from_str("end of file"),
        }
    }
}

/// The token that a word stands for: `let`, `inherit` and `fun` are keywords, `true` and
/// `false` booleans, every other word an identifier.
pub open spec fn word_token(t: Seq<char>) -> TokenView {
    if t == Keywords::LET.text() {
        TokenView::Keyword(Keywords::LET)
    } else if t == Keywords::INHERIT.text() {
        TokenView::Keyword(Keywords::INHERIT)
    } else if t == Keywords::FUN.text() {
        TokenView::Keyword(Keywords::FUN)
    } else if t == Booleans::TRUE.text() {
        TokenView::Boolean(Booleans::TRUE)
    } else if t == Booleans::FALSE.text() {
        TokenView::Boolean(Booleans::FALSE)
    } else {
        TokenView::Identifier(t)
    }
}

/// The arithmetic operator symbols.
pub open spec fn arithmetic_symbol(s: Seq<char>) -> bool {
    single(s, '+') || single(s, '-') || single(s, '*') || single(s, '/') || single(s, '%')
        || single(s, '^')
}

/// One step of the lenient lexer at segment `i`: the token read (if any) and the index of
/// the next segment to read.
///
/// A word is read together with the segments that continue it, but those segments are read
/// again afterwards: the step moves past the word's first segment only, so that each
/// continuing segment also yields tokens of its own (`abc` gives the identifiers `abc`, `bc`
/// and `c`).
pub open spec fn lenient_step(inp: Seq<Seq<char>>, i: int) -> (Option<TokenView>, int)
    recommends
        0 <= i < inp.len(),
{
    let s = inp[i];
    if single(s, '{') {
        (Some(TokenView::LeftBrace), i + 1)
    } else if single(s, '}') {
        (Some(TokenView::RightBrace), i + 1)
    } else if single(s, '"') || single(s, '\'') {
        let k = string_close(inp, i + 1, s);
        if k < inp.len() {
            (Some(TokenView::StringLiteral(span(inp, i + 1, k))), k + 1)
        } else {
            (Some(TokenView::StringLiteral(span(inp, i + 1, k))), k)
        }
    } else if arithmetic_symbol(s) {
        (Some(TokenView::Operator(s)), i + 1)
    } else if single(s, '.') {
        (Some(TokenView::FullStop), i + 1)
    } else if all_ascii_digits(s) {
        let e = number_end(inp, i + 1);
        (Some(TokenView::Number(s + span(inp, i + 1, e))), e)
    } else if all_alphabetic(s) {
        (Some(word_token(s + span(inp, i + 1, ident_end(inp, i + 1)))), i + 1)
    } else if all_whitespace(s) {
        (Some(TokenView::Whitespace(s)), i + 1)
    } else {
        (None, i + 1)
    }
}

/// The tokens the lenient lexer reads from segment `i` to the end, ending in `EOF`.
pub open spec fn lenient_from(inp: Seq<Seq<char>>, i: int) -> Seq<TokenView>
    decreases inp.len() - i,
{
    if i < 0 || i >= inp.len() {
        seq![TokenView::EOF]
    } else {
        let (t, j) = lenient_step(inp, i);
        proof {
            lemma_lenient_step_advances(inp, i);
        }
        match t {
            Some(t) => seq![t] + lenient_from(inp, j),
            None => lenient_from(inp, j),
        }
    }
}

/// A step moves past at least one segment and not past the end.
pub proof fn lemma_lenient_step_advances(inp: Seq<Seq<char>>, i: int)
    requires
        0 <= i < inp.len(),
    ensures
        i < lenient_step(inp, i).1 <= inp.len(),
{
    lemma_number_end(inp, i + 1);
    lemma_string_close(inp, i + 1, inp[i]);
}

/// The lenient lexer's tokens end with the end-of-file token, which stands nowhere else
/// among them; there is at most one token per segment, besides the end of file.
pub proof fn lenient_lexing_ends_with_eof(inp: Seq<Seq<char>>, i: int)
    requires
        0 <= i <= inp.len(),
    ensures
        ({
            let ts = lenient_from(inp, i);
            &&& ts.len() >= 1
            &&& ts.last() == TokenView::EOF
            &&& forall|k: int| 0 <= k < ts.len() - 1 ==> ts[k] != TokenView::EOF
            &&& ts.len() <= inp.len() - i + 1
        }),
    decreases inp.len() - i,
{
    if i < inp.len() {
        lemma_lenient_step_advances(inp, i);
        let (t, j) = lenient_step(inp, i);
        lenient_lexing_ends_with_eof(inp, j);
        if let Some(tok) = t {
            assert(tok != TokenView::EOF);
            let rest = lenient_from(inp, j);
            let ts = seq![tok] + rest;
            assert forall|k: int| 0 <= k < ts.len() - 1 implies ts[k] != TokenView::EOF by {
                if k > 0 {
                    assert(ts[k] == rest[k - 1]);
                }
            }
        }
    }
}

proof fn lemma_number_end(inp: Seq<Seq<char>>, j: int)
    requires
        0 <= j <= inp.len(),
    ensures
        j <= number_end(inp, j) <= inp.len(),
    decreases inp.len() - j,
{
    if j < inp.len() && all_ascii_digits(inp[j]) {
        lemma_number_end(inp, j + 1);
    }
}

proof fn lemma_string_close(inp: Seq<Seq<char>>, j: int, d: Seq<char>)
    requires
        0 <= j <= inp.len(),
    ensures
        j <= string_close(inp, j, d) <= inp.len(),
        string_close(inp, j, d) < inp.len() ==> inp[string_close(inp, j, d)] == d,
    decreases inp.len() - j,
{
    if j < inp.len() && inp[j] != d {
        lemma_string_close(inp, j + 1, d);
    }
}

proof fn lemma_span_empty(inp: Seq<Seq<char>>, a: int)
    requires
        0 <= a <= inp.len(),
    ensures
        span(inp, a, a) == Seq::<char>::empty(),
{
    assert(inp.subrange(a, a) =~= Seq::<Seq<char>>::empty());
}

proof fn lemma_span_extend(inp: Seq<Seq<char>>, a: int, b: int)
    requires
        0 <= a <= b < inp.len(),
    ensures
        span(inp, a, b + 1) == span(inp, a, b) + inp[b],
{
    assert(inp.subrange(a, b + 1) =~= inp.subrange(a, b).push(inp[b]));
    inp.subrange(a, b).lemma_flatten_push(inp[b]);
}

/// The lenient lexer
///
/// It holds the Unicode-segmented `String` vector and the index of the next unread segment.
pub struct Lexer {
    input: Vec<String>,
    pos: usize,
}

impl Lexer {
    /// The segments the lexer reads, as character sequences.
    pub closed spec fn input_view(&self) -> Seq<Seq<char>> {
        self.input@.map_values(|s: String| s@)
    }

    /// The index of the next unread segment.
    pub closed spec fn position(&self) -> usize {
        self.pos
    }

    /// Initializes the lexer with a given input vector, positioned at its first segment.
    pub fn new(input: Vec<String>) -> (lexer: Self)
        ensures
            lexer.input_view() == input@.map_values(|s: String| s@),
            lexer.position() == 0,
    {
        Self { input, pos: 0 }
    }

    /// Returns the next segment and moves past it, or `None` at the end.
    fn iterate(&mut self) -> (r: Option<String>)
        ensures
            final(self).input_view() == old(self).input_view(),
            old(self).pos < old(self).input_view().len() ==> {
                &&& r matches Some(s)
                &&& s@ == old(self).input_view()[old(self).pos as int]
                &&& final(self).pos == old(self).pos + 1
            },
            old(self).pos >= old(self).input_view().len() ==> {
                &&& r is None
                &&& final(self).pos == old(self).pos
            },
    {
        if self.pos < self.input.len() {
            let ch = self.input[self.pos].clone();
            self.pos += 1;
            Some(ch)
        } else {
            None
        }
    }

    /// Peeks at the segment of index `n`, which must not lie before the current position.
    fn peek_n(&self, n: usize) -> (r: Option<&String>)
        ensures
            self.input_view().len() <= usize::MAX,
            (self.pos <= n < self.input_view().len()) ==> (r matches Some(s) && s@
                == self.input_view()[n as int]),
            !(self.pos <= n < self.input_view().len()) ==> r is None,
    {
        assert(self.input_view().len() == self.input.len());
        if self.pos > self.input.len() {
            None
        } else if self.pos > n {
            None
        } else if self.input.len() <= n {
            None
        } else {
            Some(&self.input[n])
        }
    }

    /// The unread segments up to the index `end` (exclusive), if they form a valid range.
    fn get_input_slice(&self, end: usize) -> (r: Option<&[String]>)
        ensures
            (self.pos <= end <= self.input_view().len()) ==> (r matches Some(sl) && sl@.map_values(
                |s: String| s@,
            ) == self.input_view().subrange(self.pos as int, end as int)),
            !(self.pos <= end <= self.input_view().len()) ==> r is None,
    {
        if self.pos > self.input.len() {
            None
        } else if self.pos > end {
            None
        } else if self.input.len() < end {
            None
        } else {
            let sl = slice_range(self.input.as_slice(), self.pos, end);
            assert(sl@.map_values(|s: String| s@) =~= self.input_view().subrange(
                self.pos as int,
                end as int,
            ));
            Some(sl)
        }
    }

    /// Tokenizes the input, from the current position to the end.
    ///
    /// The tokens are those of [`lenient_from`]; unrecognised segments are skipped.
    pub fn tokenize(&mut self) -> (tokens: Vec<Token>)
        ensures
            final(self).input_view() == old(self).input_view(),
            tokens@.map_values(|t: Token| t@) == lenient_from(
                old(self).input_view(),
                old(self).position() as int,
            ),
            final(self).position() >= final(self).input_view().len(),
    {
        let ghost inp = self.input_view();
        let ghost start = self.pos as int;
        let mut tokens: Vec<Token> = Vec::new();
        loop
            invariant
                self.input_view() == inp,
                inp == old(self).input_view(),
                start == old(self).pos,
                tokens@.map_values(|t: Token| t@) + lenient_from(inp, self.pos as int)
                    == lenient_from(inp, start),
            ensures
                self.input_view() == inp,
                self.pos >= inp.len(),
                tokens@.map_values(|t: Token| t@) + lenient_from(inp, self.pos as int)
                    == lenient_from(inp, start),
            decreases inp.len() + 1 - self.pos,
        {
            let ghost i = self.pos as int;
            let ghost before = tokens@.map_values(|t: Token| t@);
            let unicode_string = match self.iterate() {
                Some(s) => s,
                None => break,
            };
            let s = unicode_string.as_str();
            proof {
                reveal_strlit("\"");
                reveal_strlit("'");
                assert("\""@ =~= seq!['"']);
                assert("'"@ =~= seq!['\'']);
                lemma_lenient_step_advances(inp, i);
            }
            let t: Option<Token>;
            if is_single(s, '{') {
                t = Some(Token::LeftBrace);
            } else if is_single(s, '}') {
                t = Some(Token::RightBrace);
            } else if is_single(s, '"') {
                t = Some(self.tokenize_string("\""));
            } else if is_single(s, '\'') {
                t = Some(self.tokenize_string("'"));
            } else if is_single(s, '+') || is_single(s, '-') || is_single(s, '*') || is_single(
                s,
                '/',
            ) || is_single(s, '%') || is_single(s, '^') {
                t = Some(Token::Operator(unicode_string.clone()));
            } else if is_single(s, '.') {
                t = Some(Token::FullStop);
            } else if is_all_ascii_digits(s) {
                let ghost cur0 = self.pos as int;
                let mut number = unicode_string.clone();
                proof {
                    lemma_span_empty(inp, cur0);
                }
                loop
                    invariant
                        self.input_view() == inp,
                        0 <= cur0 <= self.pos <= inp.len(),
                        number@ == s@ + span(inp, cur0, self.pos as int),
                        number_end(inp, self.pos as int) == number_end(inp, cur0),
                    ensures
                        self.input_view() == inp,
                        number@ == s@ + span(inp, cur0, self.pos as int),
                        number_end(inp, cur0) == self.pos,
                    decreases inp.len() - self.pos,
                {
                    let next_is_digits = match self.peek_n(self.pos) {
                        Some(next_unicode_string) => is_all_ascii_digits(
                            next_unicode_string.as_str(),
                        ),
                        None => break,
                    };
                    if !next_is_digits {
                        break;
                    }
                    let c = self.pos;
                    let digits = self.iterate().unwrap();
                    proof {
                        lemma_span_extend(inp, cur0, c as int);
                    }
                    number.append(digits.as_str());
                    assert(number@ =~= s@ + span(inp, cur0, self.pos as int));
                }
                t = Some(Token::Number(number));
            } else if is_all_alphabetic(s) {
                t = Some(self.read_word(s));
            } else if is_all_whitespace(s) {
                t = Some(Token::Whitespace(unicode_string.clone()));
            } else {
                t = None;
            }
            assert(lenient_step(inp, i) == (
                match t {
                    Some(tok) => Some(tok@),
                    None => None::<TokenView>,
                },
                self.pos as int,
            ));
            match t {
                Some(tok) => {
                    tokens.push(tok);
                    assert(tokens@.map_values(|t: Token| t@) =~= before + seq![tok@]);
                    assert(lenient_from(inp, i) == seq![tok@] + lenient_from(inp, self.pos as int));
                    assert(before + seq![tok@] + lenient_from(inp, self.pos as int) =~= before + (
                    seq![tok@] + lenient_from(inp, self.pos as int)));
                },
                None => {
                    assert(lenient_from(inp, i) == lenient_from(inp, self.pos as int));
                },
            }
        }
        tokens.push(Token::EOF);
        assert(tokens@.map_values(|t: Token| t@) =~= tokens@.drop_last().map_values(|t: Token| t@)
            + seq![TokenView::EOF]);
        tokens
    }

    /// Reads a word starting with `first` (already read), continued by the following
    /// alphanumeric, `-` and `_` segments, which are not consumed.
    fn read_word(&self, first: &str) -> (t: Token)
        requires
            self.pos <= self.input_view().len(),
        ensures
            t@ == word_token(first@ + span(self.input_view(), self.pos as int, ident_end(self.input_view(), self.pos as int))),
    {
        let ghost inp = self.input_view();
        let mut temp = first.to_owned();
        let len = self.input.len();
        let mut k: usize = self.pos;
        proof {
            lemma_span_empty(inp, self.pos as int);
            assert(inp.len() == len);
        }
        while k < len
            invariant
                inp == self.input_view(),
                len == inp.len(),
                self.pos <= k <= len,
                temp@ == first@ + span(inp, self.pos as int, k as int),
                ident_end(inp, k as int) == ident_end(inp, self.pos as int),
            ensures
                temp@ == first@ + span(inp, self.pos as int, k as int),
                ident_end(inp, self.pos as int) == k,
            decreases len - k,
        {
            let following = self.input[k].as_str();
            if !(is_all_alphanumeric(following) || is_single(following, '-') || is_single(
                following,
                '_',
            )) {
                break;
            }
            proof {
                lemma_span_extend(inp, self.pos as int, k as int);
            }
            temp.append(following);
            k += 1;
            assert(temp@ =~= first@ + span(inp, self.pos as int, k as int));
        }
        proof {
            reveal_strlit("let");
            reveal_strlit("inherit");
            reveal_strlit("fun");
            reveal_strlit("true");
            reveal_strlit("false");
            assert("let"@ =~= Keywords::LET.text());
            assert("inherit"@ =~= Keywords::INHERIT.text());
            assert("fun"@ =~= Keywords::FUN.text());
            assert("true"@ =~= Booleans::TRUE.text());
            assert("false"@ =~= Booleans::FALSE.text());
        }
        let t = temp.as_str();
        if same_text(t, "let") {
            Token::Keyword(Keywords::LET)
        } else if same_text(t, "inherit") {
            Token::Keyword(Keywords::INHERIT)
        } else if same_text(t, "fun") {
            Token::Keyword(Keywords::FUN)
        } else if same_text(t, "true") {
            Token::Boolean(Booleans::TRUE)
        } else if same_text(t, "false") {
            Token::Boolean(Booleans::FALSE)
        } else {
            Token::Identifier(temp)
        }
    }

    /// Reads a string literal up to the next segment equal to `matched` (which is consumed),
    /// or to the end of the input if there is none.
    fn tokenize_string(&mut self, matched: &str) -> (t: Token)
        requires
            old(self).pos <= old(self).input_view().len(),
        ensures
            final(self).input_view() == old(self).input_view(),
            ({
                let inp = old(self).input_view();
                let k = string_close(inp, old(self).pos as int, matched@);
                &&& t@ == TokenView::StringLiteral(span(inp, old(self).pos as int, k))
                &&& final(self).pos == (if k < inp.len() {
                    k + 1
                } else {
                    k
                })
            }),
    {
        let ghost inp = self.input_view();
        let ghost start = self.pos as int;
        let mut value: String = String::new();
        proof {
            lemma_span_empty(inp, start);
            lemma_string_close(inp, start, matched@);
        }
        loop
            invariant_except_break
                value@ == span(inp, start, self.pos as int),
                string_close(inp, self.pos as int, matched@) == string_close(inp, start, matched@),
            invariant
                self.input_view() == inp,
                inp == old(self).input_view(),
                start == old(self).pos,
                0 <= start <= self.pos <= inp.len(),
            ensures
                self.input_view() == inp,
                ({
                    let k = string_close(inp, start, matched@);
                    &&& value@ == span(inp, start, k)
                    &&& self.pos == (if k < inp.len() {
                        k + 1
                    } else {
                        k
                    })
                }),
            decreases inp.len() - self.pos,
        {
            let c = self.pos;
            let ch = match self.iterate() {
                Some(ch) => ch,
                None => break,
            };
            if same_text(ch.as_str(), matched) {
                break;
            }
            proof {
                lemma_span_extend(inp, start, c as int);
            }
            value.append(ch.as_str());
            assert(value@ =~= span(inp, start, self.pos as int));
        }
        Token::StringLiteral(value)
    }
}

/// The segments `sl[start..end]`.
fn slice_range(sl: &[String], start: usize, end: usize) -> (r: &[String])
    requires
        start <= end <= sl@.len(),
    ensures
        r@ == sl@.subrange(start as int, end as int),
{
    &sl[start..end]
}

} // verus!
