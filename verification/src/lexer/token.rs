use vstd::prelude::*;

use crate::symbols::{owned_text, Booleans, Keywords, Operators};

verus! {

/// A lexed Envlang token
#[derive(Debug, PartialEq, Eq, Clone)]
pub enum Token {
    LeftBrace,
    RightBrace,
    LeftParen,
    RightParen,
    LeftBracket,
    RightBracket,
    Identifier(String),
    Number(String),
    StringLiteral(String),
    Boolean(Booleans),
    Keyword(Keywords),
    Whitespace(String),
    Operator(Operators),
    LineTerminator,
    Comma,
    EOF,
}

/// The mathematical value of a [`Token`]: the same variants, with texts as character sequences.
pub enum TokenView {
    LeftBrace,
    RightBrace,
    LeftParen,
    RightParen,
    LeftBracket,
    RightBracket,
    Identifier(Seq<char>),
    Number(Seq<char>),
    StringLiteral(Seq<char>),
    Boolean(Booleans),
    Keyword(Keywords),
    Whitespace(Seq<char>),
    Operator(Operators),
    LineTerminator,
    Comma,
    EOF,
}

impl View for Token {
    type V = TokenView;

    open spec fn view(&self) -> TokenView {
        match self {
            Token::LeftBrace => TokenView::LeftBrace,
            Token::RightBrace => TokenView::RightBrace,
            Token::LeftParen => TokenView::LeftParen,
            Token::RightParen => TokenView::RightParen,
            Token::LeftBracket => TokenView::LeftBracket,
            Token::RightBracket => TokenView::RightBracket,
            Token::Identifier(s) => TokenView::Identifier(s@),
            Token::Number(s) => TokenView::Number(s@),
            Token::StringLiteral(s) => TokenView::StringLiteral(s@),
            Token::Boolean(b) => TokenView::Boolean(*b),
            Token::Keyword(k) => TokenView::Keyword(*k),
            Token::Whitespace(s) => TokenView::Whitespace(s@),
            Token::Operator(o) => TokenView::Operator(*o),
            Token::LineTerminator => TokenView::LineTerminator,
            Token::Comma => TokenView::Comma,
            Token::EOF => TokenView::EOF,
        }
    }
}

impl TokenView {
    /// The text by which a token is shown to a reader.
    pub open spec fn text(self) -> Seq<char> {
        match self {
            TokenView::Number(n) => n,
            TokenView::StringLiteral(s) => seq!['"'] + s + seq!['"'],
            TokenView::Boolean(b) => b.text(),
            TokenView::Identifier(i) => i,
            TokenView::Keyword(k) => k.text(),
            TokenView::Operator(o) => o.text(),
            TokenView::LeftBrace => seq!['{'],
            TokenView::RightBrace => seq!['}'],
            TokenView::LeftParen => seq!['('],
            TokenView::RightParen => seq![')'],
            TokenView::LeftBracket => seq!['['],
            TokenView::RightBracket => seq![']'],
            TokenView::Whitespace(w) => w,
            TokenView::EOF => seq!['e', 'n', 'd', ' ', 'o', 'f', ' ', 'f', 'i', 'l', 'e'],
            TokenView::LineTerminator => seq![';'],
            TokenView::Comma => seq![','],
        }
    }
}

impl Token {
    /// A copy of the token.
    pub fn duplicate(&self) -> (r: Token)
        ensures
            r@ == self@,
    {
        match self {
            Token::LeftBrace => Token::LeftBrace,
            Token::RightBrace => Token::RightBrace,
            Token::LeftParen => Token::LeftParen,
            Token::RightParen => Token::RightParen,
            Token::LeftBracket => Token::LeftBracket,
            Token::RightBracket => Token::RightBracket,
            Token::Identifier(s) => Token::Identifier(s.clone()),
            Token::Number(s) => Token::Number(s.clone()),
            Token::StringLiteral(s) => Token::StringLiteral(s.clone()),
            Token::Boolean(b) => Token::Boolean(*b),
            Token::Keyword(k) => Token::Keyword(*k),
            Token::Whitespace(s) => Token::Whitespace(s.clone()),
            Token::Operator(o) => Token::Operator(*o),
            Token::LineTerminator => Token::LineTerminator,
            Token::Comma => Token::Comma,
            Token::EOF => Token::EOF,
        }
    }

    /// Shows the token as text: string literals in double quotes, end of file in words,
    /// every other token as its source text.
    pub fn to_string(&self) -> (s: String)
        ensures
            s@ == self@.text(),
    {
        proof {
            reveal_strlit("\"");
            reveal_strlit("{");
            reveal_strlit("}");
            reveal_strlit("(");
            reveal_strlit(")");
            reveal_strlit("[");
            reveal_strlit("]");
            reveal_strlit(";");
            reveal_strlit(",");
            reveal_strlit("end of file");
        }
        match self {
            Token::Number(n) => n.clone(),
            Token::StringLiteral(s) => {
                let mut out = owned_text("\"");
                out.append(s.as_str());
                out.append("\"");
                out
            },
            Token::Boolean(b) => b.to_string(),
            Token::Identifier(i) => i.clone(),
            Token::Keyword(k) => k.to_string(),
            Token::Operator(o) => o.to_string(),
            Token::LeftBrace => owned_text("{"),
            Token::RightBrace => owned_text("}"),
            Token::LeftParen => owned_text("("),
            Token::RightParen => owned_text(")"),
            Token::LeftBracket => owned_text("["),
            Token::RightBracket => owned_text("]"),
            Token::Whitespace(w) => w.clone(),
            Token::EOF => owned_text("end of file"),
            Token::LineTerminator => owned_text(";"),
            Token::Comma => owned_text(","),
        }
    }
}

} // verus!
