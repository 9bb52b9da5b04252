//! The Envlang value parser
//!
//! The parser takes the tokens of the [lenient lexer](crate::lenient_lexer) and reads the
//! literal values among them (numbers, strings and booleans) into an [`Environment`]; every
//! other token is passed over.
//!
//! What it reads is stated by the spec function [`values_from`].
use vstd::prelude::*;

use crate::environment::{EnvValue, EnvValueView, Environment};
use crate::lenient_lexer::{Token, TokenView};
use crate::numerals::{
    float_error_message,
    float_error_text,
    float_syntax,
    int_error_message,
    int_error_text,
    int_literal,
    literal_in_range,
    parse_isize,
};
use crate::symbols::owned_text;
use crate::symbols::Booleans;

verus! {

/// Error type for the value parser
///
/// The errors match the attempted conversion from Envlang text into Rust values.
#[derive(Debug)]
pub enum ParserError {
    Int(core::num::ParseIntError),
    Float(core::num::ParseFloatError),
    NoToken,
    TokenTypeMismatch,
    InvalidBoolean,
}

impl ParserError {
    /// The message that describes the error to a reader; a conversion error ends with the
    /// standard library's description of it.
    pub fn to_string(&self) -> (s: String)
        ensures
            match self {
                ParserError::Int(e) => s@ == "Error in parsing integer: "@ + int_error_message(*e),
                ParserError::Float(e) => s@ == "Error in parsing float: "@ + float_error_message(*e),
                ParserError::NoToken => s@ == "No token available in queue"@,
                ParserError::TokenTypeMismatch => s@ == "Token type mismatch"@,
                ParserError::InvalidBoolean => s@ == "Invalid boolean lexing"@,
            },
    {
        match self {
            ParserError::Int(e) => {
                let mut s = owned_text("Error in parsing integer: ");
                s.append(int_error_text(e).as_str());
                s
            },
            ParserError::Float(e) => {
                let mut s = owned_text("Error in parsing float: ");
                s.append(float_error_text(e).as_str());
                s
            },
            ParserError::NoToken => owned_text("No token available in queue"),
            ParserError::TokenTypeMismatch => owned_text("Token type mismatch"),
            ParserError::InvalidBoolean => owned_text("Invalid boolean lexing"),
        }
    }
}

impl From<core::num::ParseIntError> for ParserError {
    fn from(e: core::num::ParseIntError) -> (r: ParserError) {
        ParserError::Int(e)
    }
}

impl vstd::std_specs::convert::FromSpecImpl<core::num::ParseIntError> for ParserError {
    open spec fn obeys_from_spec() -> bool {
        true
    }

    open spec fn from_spec(v: core::num::ParseIntError) -> ParserError {
        ParserError::Int(v)
    }
}

impl From<core::num::ParseFloatError> for ParserError {
    fn from(e: core::num::ParseFloatError) -> (r: ParserError) {
        ParserError::Float(e)
    }
}

impl vstd::std_specs::convert::FromSpecImpl<core::num::ParseFloatError> for ParserError {
    open spec fn obeys_from_spec() -> bool {
        true
    }

    open spec fn from_spec(v: core::num::ParseFloatError) -> ParserError {
        ParserError::Float(v)
    }
}

/// The numeral that starts at token `q`: the texts of the following number tokens, with a
/// `.` for each full stop among them; whether a full stop was met; and where the numeral ends.
pub open spec fn numeral_scan(toks: Seq<TokenView>, q: int) -> (Seq<char>, bool, int)
    decreases toks.len() - q,
{
    if q < 0 || q >= toks.len() {
        (Seq::empty(), false, q)
    } else {
        match toks[q] {
            TokenView::Number(t) => {
                let (r, f, e) = numeral_scan(toks, q + 1);
                (t + r, f, e)
            },
            TokenView::FullStop => {
                let (r, _, e) = numeral_scan(toks, q + 1);
                (seq!['.'] + r, true, e)
            },
            _ => (Seq::empty(), false, q),
        }
    }
}

/// The value a numeral stands for: a float when it holds a full stop, else an integer;
/// `None` when the standard library's `isize` or `f64` parser would refuse the text.
pub open spec fn numeral_value(numeral: Seq<char>, is_float: bool) -> Option<EnvValueView> {
    if is_float {
        if float_syntax(numeral) {
            Some(EnvValueView::FLOAT(numeral))
        } else {
            None
        }
    } else if literal_in_range(numeral, isize::MIN as int, isize::MAX as int) {
        Some(EnvValueView::INT(int_literal(numeral).unwrap() as isize))
    } else {
        None
    }
}

/// The values read from token `p` on; `None` if a numeral among them cannot be read.
pub open spec fn values_from(toks: Seq<TokenView>, p: int) -> Option<Seq<EnvValueView>>
    decreases toks.len() - p,
{
    if p < 0 || p >= toks.len() {
        Some(Seq::empty())
    } else {
        match toks[p] {
            TokenView::Number(_) => {
                let (numeral, is_float, e) = numeral_scan(toks, p);
                proof {
                    lemma_numeral_scan(toks, p);
                }
                match (numeral_value(numeral, is_float), values_from(toks, e)) {
                    (Some(v), Some(rest)) => Some(seq![v] + rest),
                    _ => None,
                }
            },
            TokenView::StringLiteral(s) => match values_from(toks, p + 1) {
                Some(rest) => Some(seq![EnvValueView::STRING(s)] + rest),
                None => None,
            },
            TokenView::Boolean(b) => match values_from(toks, p + 1) {
                Some(rest) => Some(seq![EnvValueView::BOOL(b == Booleans::TRUE)] + rest),
                None => None,
            },
            _ => values_from(toks, p + 1),
        }
    }
}

/// A numeral that starts at a number token ends past it, and not past the end.
pub proof fn lemma_numeral_scan(toks: Seq<TokenView>, q: int)
    requires
        0 <= q <= toks.len(),
    ensures
        q <= numeral_scan(toks, q).2 <= toks.len(),
        q < toks.len() && toks[q] is Number ==> q < numeral_scan(toks, q).2,
    decreases toks.len() - q,
{
    if q < toks.len() {
        match toks[q] {
            TokenView::Number(_) => lemma_numeral_scan(toks, q + 1),
            TokenView::FullStop => lemma_numeral_scan(toks, q + 1),
            _ => {},
        }
    }
}

/// The text a numeral token adds: a number's digits, or `.` for a full stop.
pub open spec fn numeral_piece(t: TokenView) -> Seq<char> {
    match t {
        TokenView::Number(n) => n,
        _ => seq!['.'],
    }
}

/// The tokens that make up a numeral: numbers and full stops.
pub open spec fn numeral_token(t: TokenView) -> bool {
    t is Number || t is FullStop
}

/// A numeral is the maximal run of contiguous number and full-stop tokens from where it
/// starts: every token it takes is one of those, the token after it (if any) is not, and it
/// holds a full stop exactly when one of its tokens is a full stop; its text is the texts of
/// its tokens one after another. Any other token, such as
/// whitespace, ends it, so literals apart from each other are read as separate values.
pub proof fn numerals_are_maximal_runs(toks: Seq<TokenView>, q: int)
    requires
        0 <= q <= toks.len(),
    ensures
        ({
            let (r, f, e) = numeral_scan(toks, q);
            &&& q <= e <= toks.len()
            &&& r == toks.subrange(q, e).map_values(|t: TokenView| numeral_piece(t)).flatten()
            &&& forall|k: int| q <= k < e ==> numeral_token(#[trigger] toks[k])
            &&& e < toks.len() ==> !numeral_token(toks[e])
            &&& f <==> exists|k: int| q <= k < e && #[trigger] toks[k] is FullStop
        }),
    decreases toks.len() - q,
{
    if q < toks.len() && numeral_token(toks[q]) {
        numerals_are_maximal_runs(toks, q + 1);
        let (r, f, e) = numeral_scan(toks, q);
        let (r1, f1, e1) = numeral_scan(toks, q + 1);
        assert(e == e1);
        let pieces = toks.subrange(q, e).map_values(|t: TokenView| numeral_piece(t));
        assert(pieces.drop_first() =~= toks.subrange(q + 1, e).map_values(
            |t: TokenView| numeral_piece(t),
        ));
        assert(r == pieces.first() + pieces.drop_first().flatten());
        if toks[q] is FullStop {
            assert(q <= q < e && toks[q] is FullStop);
        } else {
            assert(f == f1);
            if f {
                let k = choose|k: int| q + 1 <= k < e1 && #[trigger] toks[k] is FullStop;
                assert(q <= k < e && toks[k] is FullStop);
            }
        }
    }
}

/// The value parser
///
/// It holds the tokens from the lenient lexer and the index of the current token.
pub struct Parser {
    input: Vec<Token>,
    pos: usize,
}

impl Parser {
    /// The tokens the parser reads, as views.
    pub closed spec fn tokens_view(&self) -> Seq<TokenView> {
        self.input@.map_values(|t: Token| t@)
    }

    /// The index of the current token.
    pub closed spec fn position(&self) -> usize {
        self.pos
    }

    /// Initializes the parser at the first of the given tokens.
    pub fn new(input: Vec<Token>) -> (parser: Self)
        ensures
            parser.tokens_view() == input@.map_values(|t: Token| t@),
            parser.position() == 0,
    {
        Self { input, pos: 0 }
    }

    /// The current token, or `None` past the last one.
    fn get_token(&self) -> (r: Option<&Token>)
        ensures
            self.tokens_view().len() <= usize::MAX,
            self.pos < self.tokens_view().len() ==> (r matches Some(t) && t@
                == self.tokens_view()[self.pos as int]),
            self.pos >= self.tokens_view().len() ==> r is None,
    {
        assert(self.tokens_view().len() == self.input.len());
        if self.pos < self.input.len() {
            Some(&self.input[self.pos])
        } else {
            None
        }
    }

    /// Moves to the next token.
    fn increment_pos(&mut self)
        requires
            old(self).pos < usize::MAX,
        ensures
            final(self).pos == old(self).pos + 1,
            final(self).tokens_view() == old(self).tokens_view(),
    {
        self.pos += 1;
    }

    /// Reads the literal values among the tokens, from the current one to the end, into a
    /// new environment: the values of [`values_from`], in order.
    ///
    /// Every numeral met must be readable: an integer that fits `isize`, or a float that
    /// `f64` parsing accepts.
    pub fn parse_tokens(&mut self) -> (global_env: Environment)
        requires
            values_from(old(self).tokens_view(), old(self).position() as int) is Some,
        ensures
            final(self).tokens_view() == old(self).tokens_view(),
            values_from(old(self).tokens_view(), old(self).position() as int) == Some(global_env@),
            final(self).position() == if old(self).position() <= old(self).tokens_view().len() {
                old(self).tokens_view().len() as int
            } else {
                old(self).position() as int
            },
    {
        let ghost toks = self.tokens_view();
        let ghost start = self.pos as int;
        let mut global_env = Environment::new();
        loop
            invariant
                self.tokens_view() == toks,
                toks == old(self).tokens_view(),
                start == old(self).pos,
                values_from(toks, self.pos as int) is Some,
                values_from(toks, start) == Some(global_env@ + values_from(
                    toks,
                    self.pos as int,
                ).unwrap()),
                start <= toks.len() ==> self.pos <= toks.len(),
                start > toks.len() ==> self.pos == start,
            ensures
                self.tokens_view() == toks,
                values_from(toks, start) == Some(global_env@),
                start <= toks.len() ==> self.pos == toks.len(),
                start > toks.len() ==> self.pos == start,
            decreases toks.len() - self.pos,
        {
            let ghost p = self.pos as int;
            let ghost before = global_env@;
            let token = match self.get_token() {
                Some(t) => t,
                None => {
                    assert(before + Seq::<EnvValueView>::empty() =~= before);
                    break;
                },
            };
            match token {
                Token::Number(_) => {
                    proof {
                        lemma_numeral_scan(toks, p);
                    }
                    match self.parse_integer() {
                        Ok(v) => {
                            global_env.add_element(v);
                            let ghost rest = values_from(toks, self.pos as int).unwrap();
                            assert(before.push(v@) + rest =~= before + (seq![v@] + rest));
                        },
                        Err(_) => {
                            assert(false);
                        },
                    }
                },
                Token::StringLiteral(_) => {
                    match self.parse_string() {
                        Ok(v) => {
                            global_env.add_element(v);
                            let ghost rest = values_from(toks, self.pos as int).unwrap();
                            assert(before.push(v@) + rest =~= before + (seq![v@] + rest));
                        },
                        Err(_) => {
                            assert(false);
                        },
                    }
                },
                Token::Boolean(_) => {
                    match self.parse_boolean() {
                        Ok(v) => {
                            global_env.add_element(v);
                            let ghost rest = values_from(toks, self.pos as int).unwrap();
                            assert(before.push(v@) + rest =~= before + (seq![v@] + rest));
                        },
                        Err(_) => {
                            assert(false);
                        },
                    }
                },
                _ => {
                    self.increment_pos();
                },
            }
        }
        global_env
    }

    /// Reads a numeral from the current token on: number tokens and full stops. With a full
    /// stop the numeral is a float, held as its text; without, an `isize`.
    ///
    /// # Errors
    /// * [`ParserError::Int`]: the integer numeral does not parse as an `isize`.
    fn parse_integer(&mut self) -> (r: Result<EnvValue, ParserError>)
        requires
            old(self).pos <= old(self).tokens_view().len(),
            ({
                let (numeral, is_float, _) = numeral_scan(old(self).tokens_view(), old(self).pos as int);
                is_float ==> float_syntax(numeral)
            }),
        ensures
            final(self).tokens_view() == old(self).tokens_view(),
            ({
                let (numeral, is_float, e) = numeral_scan(old(self).tokens_view(), old(self).pos as int);
                &&& final(self).pos == e
                &&& match numeral_value(numeral, is_float) {
                    Some(v) => r matches Ok(x) && x@ == v,
                    None => r matches Err(ParserError::Int(_)),
                }
            }),
    {
        let ghost toks = self.tokens_view();
        let ghost start = self.pos as int;
        let mut array: String = String::new();
        let mut is_float: bool = false;
        proof {
            lemma_numeral_scan(toks, start);
        }
        loop
            invariant
                self.tokens_view() == toks,
                toks == old(self).tokens_view(),
                start == old(self).pos,
                0 <= start <= self.pos <= toks.len(),
                ({
                    let (r, f, e) = numeral_scan(toks, self.pos as int);
                    let (r0, f0, e0) = numeral_scan(toks, start);
                    &&& array@ + r == r0
                    &&& (is_float || f) == f0
                    &&& e == e0
                }),
            ensures
                self.tokens_view() == toks,
                ({
                    let (r0, f0, e0) = numeral_scan(toks, start);
                    &&& array@ == r0
                    &&& is_float == f0
                    &&& self.pos == e0
                }),
            decreases toks.len() - self.pos,
        {
            let token = match self.get_token() {
                Some(t) => t,
                None => break,
            };
            proof {
                lemma_numeral_scan(toks, self.pos as int + 1);
            }
            let ghost a0 = array@;
            match token {
                Token::Number(t) => {
                    array.append(t.as_str());
                    let ghost r1 = numeral_scan(toks, self.pos + 1).0;
                    assert(a0 + (t@ + r1) =~= array@ + r1);
                },
                Token::FullStop => {
                    is_float = true;
                    array.append(".");
                    proof {
                        reveal_strlit(".");
                    }
                    let ghost r1 = numeral_scan(toks, self.pos + 1).0;
                    assert(a0 + (seq!['.'] + r1) =~= array@ + r1);
                },
                _ => {
                    assert(array@ + Seq::<char>::empty() =~= array@);
                    break;
                },
            }
            self.increment_pos();
        }
        if is_float {
            Ok(EnvValue::FLOAT(array))
        } else {
            match parse_isize(array.as_str()) {
                Ok(result) => Ok(EnvValue::INT(result)),
                Err(e) => Err(ParserError::Int(e)),
            }
        }
    }

    /// Reads a string literal.
    ///
    /// # Errors
    /// * [`ParserError::NoToken`]: there is no current token.
    /// * [`ParserError::TokenTypeMismatch`]: the current token is not a string literal.
    fn parse_string(&mut self) -> (r: Result<EnvValue, ParserError>)
        ensures
            final(self).tokens_view() == old(self).tokens_view(),
            match (if old(self).pos < old(self).tokens_view().len() {
                Some(old(self).tokens_view()[old(self).pos as int])
            } else {
                None
            }) {
                Some(TokenView::StringLiteral(s)) => r matches Ok(v) && v@ == EnvValueView::STRING(s)
                    && final(self).pos == old(self).pos + 1,
                Some(_) => r matches Err(ParserError::TokenTypeMismatch) && final(self).pos == old(
                    self,
                ).pos,
                None => r matches Err(ParserError::NoToken) && final(self).pos == old(self).pos,
            },
    {
        let result: Result<EnvValue, ParserError>;
        if let Some(token) = self.get_token() {
            match token {
                Token::StringLiteral(t) => {
                    result = Ok(EnvValue::STRING(t.clone()));
                    self.increment_pos();
                },
                _ => result = Err(ParserError::TokenTypeMismatch),
            }
        } else {
            result = Err(ParserError::NoToken);
        }
        result
    }

    /// Reads a boolean.
    ///
    /// # Errors
    /// * [`ParserError::NoToken`]: there is no current token.
    /// * [`ParserError::TokenTypeMismatch`]: the current token is not a boolean.
    fn parse_boolean(&mut self) -> (r: Result<EnvValue, ParserError>)
        ensures
            final(self).tokens_view() == old(self).tokens_view(),
            match (if old(self).pos < old(self).tokens_view().len() {
                Some(old(self).tokens_view()[old(self).pos as int])
            } else {
                None
            }) {
                Some(TokenView::Boolean(b)) => r matches Ok(v) && v@ == EnvValueView::BOOL(
                    b == Booleans::TRUE,
                ) && final(self).pos == old(self).pos + 1,
                Some(_) => r matches Err(ParserError::TokenTypeMismatch) && final(self).pos == old(
                    self,
                ).pos,
                None => r matches Err(ParserError::NoToken) && final(self).pos == old(self).pos,
            },
    {
        let result: Result<EnvValue, ParserError>;
        if let Some(token) = self.get_token() {
            match token {
                Token::Boolean(b) => {
                    match b {
                        Booleans::TRUE => {
                            result = Ok(EnvValue::BOOL(true));
                            self.increment_pos();
                        },
                        Booleans::FALSE => {
                            result = Ok(EnvValue::BOOL(false));
                            self.increment_pos();
                        },
                    }
                },
                _ => result = Err(ParserError::TokenTypeMismatch),
            }
        } else {
            result = Err(ParserError::NoToken);
        }
        result
    }
}

} // verus!
