use vstd::prelude::*;

use crate::numerals::{decimal, usize_to_text};
use crate::symbols::owned_text;

verus! {

/// Error type for the Envlang lexer
///
/// Errors always contain at least the lexer position where they arose; some also carry
/// the input length, or the text that could not be lexed.
#[derive(Debug, PartialEq, Eq, Clone)]
pub enum LexerError {
    InvalidToken(usize, String),  // (pos, token)
    UnterminatedString(usize, String),  // (pos, partial_string)
    EmptyIdentifier(usize),  // (pos)
    BrokenLexer(usize, usize),  // (pos, input_len)
    InvertedSlice(usize, usize),  // (start, end)
    SliceOutOfBounds(usize, usize, usize),  // (pos, end, input_len)
    IndexOutOfBounds(usize, usize, usize),  // (pos, idx, input_len)
    UnrecognizedInput(usize, String),  // (pos, input)
    InvalidOperator(usize, String),  // (pos, input)
}

/// The mathematical value of a [`LexerError`]: texts become character sequences.
pub enum LexerErrorView {
    InvalidToken(usize, Seq<char>),
    UnterminatedString(usize, Seq<char>),
    EmptyIdentifier(usize),
    BrokenLexer(usize, usize),
    InvertedSlice(usize, usize),
    SliceOutOfBounds(usize, usize, usize),
    IndexOutOfBounds(usize, usize, usize),
    UnrecognizedInput(usize, Seq<char>),
    InvalidOperator(usize, Seq<char>),
}

impl View for LexerError {
    type V = LexerErrorView;

    open spec fn view(&self) -> LexerErrorView {
        match self {
            LexerError::InvalidToken(p, s) => LexerErrorView::InvalidToken(*p, s@),
            LexerError::UnterminatedString(p, s) => LexerErrorView::UnterminatedString(*p, s@),
            LexerError::EmptyIdentifier(p) => LexerErrorView::EmptyIdentifier(*p),
            LexerError::BrokenLexer(p, l) => LexerErrorView::BrokenLexer(*p, *l),
            LexerError::InvertedSlice(a, b) => LexerErrorView::InvertedSlice(*a, *b),
            LexerError::SliceOutOfBounds(p, e, l) => LexerErrorView::SliceOutOfBounds(*p, *e, *l),
            LexerError::IndexOutOfBounds(p, i, l) => LexerErrorView::IndexOutOfBounds(*p, *i, *l),
            LexerError::UnrecognizedInput(p, s) => LexerErrorView::UnrecognizedInput(*p, s@),
            LexerError::InvalidOperator(p, s) => LexerErrorView::InvalidOperator(*p, s@),
        }
    }
}

impl LexerErrorView {
    /// The message that describes the error to a reader.
    pub open spec fn text(self) -> Seq<char> {
        match self {
            LexerErrorView::InvalidToken(pos, token) => "Lexer error at position "@ + decimal(pos as int) + ": Invalid token: "@ + token,
            LexerErrorView::UnterminatedString(pos, partial) => "Lexer error at position "@ + decimal(pos as int) + ": Unterminated string literal '"@ + partial + "'"@,
            LexerErrorView::EmptyIdentifier(pos) => "Lexer error at position "@ + decimal(pos as int) + ": Empty identifier"@,
            LexerErrorView::BrokenLexer(pos, len) => "Lexer error: Lexer in invalid state: position "@ + decimal(pos as int) + " beyond input length "@ + decimal(len as int),
            LexerErrorView::InvertedSlice(start, end) => "Lexer error: Invalid slice: Start position "@ + decimal(start as int) + " greater than end position "@ + decimal(end as int),
            LexerErrorView::SliceOutOfBounds(pos, end, len) => "Lexer error: Attempted to get position "@ + decimal(pos as int) + " to "@ + decimal(end as int) + " from string with length "@ + decimal(len as int),
            LexerErrorView::IndexOutOfBounds(pos, idx, len) => "Lexer error at position "@ + decimal(pos as int) + ": Attempted to access element at index "@ + decimal(idx as int) + " from input with length "@ + decimal(len as int),
            LexerErrorView::UnrecognizedInput(pos, input) => "Lexer error at position "@ + decimal(pos as int) + ": Unrecognized input stream '"@ + input + "'"@,
            LexerErrorView::InvalidOperator(pos, input) => "Lexer error at position "@ + decimal(pos as int) + ": Unrecognized first symbol for comparison operator '"@ + input + "'"@,
        }
    }
}

impl LexerError {
    /// The message that describes the error to a reader: where it arose and what went wrong.
    pub fn to_string(&self) -> (s: String)
        ensures
            s@ == self@.text(),
    {
        match self {
            LexerError::InvalidToken(pos, token) => {
                let mut s = owned_text("Lexer error at position ");
                s.append(usize_to_text(*pos).as_str());
                s.append(": Invalid token: ");
                s.append(token.as_str());
                s
            },
            LexerError::UnterminatedString(pos, partial) => {
                let mut s = owned_text("Lexer error at position ");
                s.append(usize_to_text(*pos).as_str());
                s.append(": Unterminated string literal '");
                s.append(partial.as_str());
                s.append("'");
                s
            },
            LexerError::EmptyIdentifier(pos) => {
                let mut s = owned_text("Lexer error at position ");
                s.append(usize_to_text(*pos).as_str());
                s.append(": Empty identifier");
                s
            },
            LexerError::BrokenLexer(pos, len) => {
                let mut s = owned_text("Lexer error: Lexer in invalid state: position ");
                s.append(usize_to_text(*pos).as_str());
                s.append(" beyond input length ");
                s.append(usize_to_text(*len).as_str());
                s
            },
            LexerError::InvertedSlice(start, end) => {
                let mut s = owned_text("Lexer error: Invalid slice: Start position ");
                s.append(usize_to_text(*start).as_str());
                s.append(" greater than end position ");
                s.append(usize_to_text(*end).as_str());
                s
            },
            LexerError::SliceOutOfBounds(pos, end, len) => {
                let mut s = owned_text("Lexer error: Attempted to get position ");
                s.append(usize_to_text(*pos).as_str());
                s.append(" to ");
                s.append(usize_to_text(*end).as_str());
                s.append(" from string with length ");
                s.append(usize_to_text(*len).as_str());
                s
            },
            LexerError::IndexOutOfBounds(pos, idx, len) => {
                let mut s = owned_text("Lexer error at position ");
                s.append(usize_to_text(*pos).as_str());
                s.append(": Attempted to access element at index ");
                s.append(usize_to_text(*idx).as_str());
                s.append(" from input with length ");
                s.append(usize_to_text(*len).as_str());
                s
            },
            LexerError::UnrecognizedInput(pos, input) => {
                let mut s = owned_text("Lexer error at position ");
                s.append(usize_to_text(*pos).as_str());
                s.append(": Unrecognized input stream '");
                s.append(input.as_str());
                s.append("'");
                s
            },
            LexerError::InvalidOperator(pos, input) => {
                let mut s = owned_text("Lexer error at position ");
                s.append(usize_to_text(*pos).as_str());
                s.append(": Unrecognized first symbol for comparison operator '");
                s.append(input.as_str());
                s.append("'");
                s
            },
        }
    }
}

} // verus!
