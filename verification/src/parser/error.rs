use vstd::prelude::*;

use crate::numerals::{decimal, usize_to_text};
use crate::symbols::owned_text;

verus! {

/// Error type for the Envlang parser
///
/// Errors contain the parser position and the source line (counted from line breaks) where
/// they arose, and most contain the text of the value that caused them.
#[derive(Debug, PartialEq, Clone)]
pub enum ParserError {
    NotANumber(usize, usize, String),  // (pos, line, value)
    MalformedNumber(usize, usize, String),  // (pos, line, value)
    InvalidOperation(usize, usize, String),  // (pos, line, value)
    BinaryOpWithNoLHS(usize, usize),  // (pos, line)
    BinaryOpWithNoRHS(usize, usize),  // (pos, line)
    WhitespaceInNumber(usize, usize, String),  // (pos, line, value)
    ParserLogicError(usize, usize),  // (pos, line)
    UnexpectedEOF(usize, usize),  // (pos, line)
    UnclosedEnvironment(usize),  // (line)
    MissingLetIdentifier(usize, usize),  // (pos, line)
    MissingAssignmentOp(usize, usize),  // (pos, line)
    InvalidAssignmentOp(usize, usize, String),  // (pos, line, value)
    EmptyEnv(usize, usize, String),  // (pos, line, value)
    InvalidAccessionTarget(usize, usize, String),  // (pos, line, value)
    InvalidAccessionSource(usize, usize, String),  // (pos, line, value)
    InvalidInheritanceToken(usize, usize, String),  // (pos, line, value)
    ParentlessInheritance(usize, usize, String),  // (pos, line, value)
    DoubleInheritanceParen(usize, usize, String),  // (pos, line, value)
    WildcardAndElements(usize, usize, String),  // (pos, line, value)
    NotInheritClause,
    NotAnEnvironment(usize, usize, String),  // (pos, line, value)
    InvalidFunArgToken(usize, usize, String),  // (pos, line, value)
    DoubleFunArgBracket(usize, usize, String),  // (pos, line, value)
    UnclosedArgumentClause(usize),  // (line)
    MissingFunctionName(usize, usize, String),  // (pos, line, value)
    MissingFunctionArgs(usize, usize),  // (pos, line)
    MissingFunctionBody(usize, usize),  // (pos, line)
    MissingReturnStatement(usize, usize, String),  // (pos, line, value)
    InvalidTokenInFnSignature(usize, usize, String),  // (pos, line, value)
    UnexpectedReturn(usize, usize),  // (pos, line)
    InvalidContextForIdentifier(usize, String),  // (line, context)
    InvalidTokenInFnCall(usize, usize, String),  // (pos, line, value)
    InvalidTokenInUnaryOp(usize, usize, String),  // (pos, line, value)
}

/// The mathematical value of a [`ParserError`]: texts become character sequences.
pub enum ParserErrorView {
    NotANumber(usize, usize, Seq<char>),
    MalformedNumber(usize, usize, Seq<char>),
    InvalidOperation(usize, usize, Seq<char>),
    BinaryOpWithNoLHS(usize, usize),
    BinaryOpWithNoRHS(usize, usize),
    WhitespaceInNumber(usize, usize, Seq<char>),
    ParserLogicError(usize, usize),
    UnexpectedEOF(usize, usize),
    UnclosedEnvironment(usize),
    MissingLetIdentifier(usize, usize),
    MissingAssignmentOp(usize, usize),
    InvalidAssignmentOp(usize, usize, Seq<char>),
    EmptyEnv(usize, usize, Seq<char>),
    InvalidAccessionTarget(usize, usize, Seq<char>),
    InvalidAccessionSource(usize, usize, Seq<char>),
    InvalidInheritanceToken(usize, usize, Seq<char>),
    ParentlessInheritance(usize, usize, Seq<char>),
    DoubleInheritanceParen(usize, usize, Seq<char>),
    WildcardAndElements(usize, usize, Seq<char>),
    NotInheritClause,
    NotAnEnvironment(usize, usize, Seq<char>),
    InvalidFunArgToken(usize, usize, Seq<char>),
    DoubleFunArgBracket(usize, usize, Seq<char>),
    UnclosedArgumentClause(usize),
    MissingFunctionName(usize, usize, Seq<char>),
    MissingFunctionArgs(usize, usize),
    MissingFunctionBody(usize, usize),
    MissingReturnStatement(usize, usize, Seq<char>),
    InvalidTokenInFnSignature(usize, usize, Seq<char>),
    UnexpectedReturn(usize, usize),
    InvalidContextForIdentifier(usize, Seq<char>),
    InvalidTokenInFnCall(usize, usize, Seq<char>),
    InvalidTokenInUnaryOp(usize, usize, Seq<char>),
}

impl View for ParserError {
    type V = ParserErrorView;

    open spec fn view(&self) -> ParserErrorView {
        match self {
            ParserError::NotANumber(p, l, s) => ParserErrorView::NotANumber(*p, *l, s@),
            ParserError::MalformedNumber(p, l, s) => ParserErrorView::MalformedNumber(*p, *l, s@),
            ParserError::InvalidOperation(p, l, s) => ParserErrorView::InvalidOperation(*p, *l, s@),
            ParserError::BinaryOpWithNoLHS(p, l) => ParserErrorView::BinaryOpWithNoLHS(*p, *l),
            ParserError::BinaryOpWithNoRHS(p, l) => ParserErrorView::BinaryOpWithNoRHS(*p, *l),
            ParserError::WhitespaceInNumber(p, l, s) => ParserErrorView::WhitespaceInNumber(
                *p,
                *l,
                s@,
            ),
            ParserError::ParserLogicError(p, l) => ParserErrorView::ParserLogicError(*p, *l),
            ParserError::UnexpectedEOF(p, l) => ParserErrorView::UnexpectedEOF(*p, *l),
            ParserError::UnclosedEnvironment(l) => ParserErrorView::UnclosedEnvironment(*l),
            ParserError::MissingLetIdentifier(p, l) => ParserErrorView::MissingLetIdentifier(*p, *l),
            ParserError::MissingAssignmentOp(p, l) => ParserErrorView::MissingAssignmentOp(*p, *l),
            ParserError::InvalidAssignmentOp(p, l, s) => ParserErrorView::InvalidAssignmentOp(
                *p,
                *l,
                s@,
            ),
            ParserError::EmptyEnv(p, l, s) => ParserErrorView::EmptyEnv(*p, *l, s@),
            ParserError::InvalidAccessionTarget(p, l, s) => ParserErrorView::InvalidAccessionTarget(
                *p,
                *l,
                s@,
            ),
            ParserError::InvalidAccessionSource(p, l, s) => ParserErrorView::InvalidAccessionSource(
                *p,
                *l,
                s@,
            ),
            ParserError::InvalidInheritanceToken(p, l, s) => ParserErrorView::InvalidInheritanceToken(
                *p,
                *l,
                s@,
            ),
            ParserError::ParentlessInheritance(p, l, s) => ParserErrorView::ParentlessInheritance(
                *p,
                *l,
                s@,
            ),
            ParserError::DoubleInheritanceParen(p, l, s) => ParserErrorView::DoubleInheritanceParen(
                *p,
                *l,
                s@,
            ),
            ParserError::WildcardAndElements(p, l, s) => ParserErrorView::WildcardAndElements(
                *p,
                *l,
                s@,
            ),
            ParserError::NotInheritClause => ParserErrorView::NotInheritClause,
            ParserError::NotAnEnvironment(p, l, s) => ParserErrorView::NotAnEnvironment(*p, *l, s@),
            ParserError::InvalidFunArgToken(p, l, s) => ParserErrorView::InvalidFunArgToken(
                *p,
                *l,
                s@,
            ),
            ParserError::DoubleFunArgBracket(p, l, s) => ParserErrorView::DoubleFunArgBracket(
                *p,
                *l,
                s@,
            ),
            ParserError::UnclosedArgumentClause(l) => ParserErrorView::UnclosedArgumentClause(*l),
            ParserError::MissingFunctionName(p, l, s) => ParserErrorView::MissingFunctionName(
                *p,
                *l,
                s@,
            ),
            ParserError::MissingFunctionArgs(p, l) => ParserErrorView::MissingFunctionArgs(*p, *l),
            ParserError::MissingFunctionBody(p, l) => ParserErrorView::MissingFunctionBody(*p, *l),
            ParserError::MissingReturnStatement(p, l, s) => ParserErrorView::MissingReturnStatement(
                *p,
                *l,
                s@,
            ),
            ParserError::InvalidTokenInFnSignature(p, l, s) =>
                ParserErrorView::InvalidTokenInFnSignature(*p, *l, s@),
            ParserError::UnexpectedReturn(p, l) => ParserErrorView::UnexpectedReturn(*p, *l),
            ParserError::InvalidContextForIdentifier(l, s) =>
                ParserErrorView::InvalidContextForIdentifier(*l, s@),
            ParserError::InvalidTokenInFnCall(p, l, s) => ParserErrorView::InvalidTokenInFnCall(
                *p,
                *l,
                s@,
            ),
            ParserError::InvalidTokenInUnaryOp(p, l, s) => ParserErrorView::InvalidTokenInUnaryOp(
                *p,
                *l,
                s@,
            ),
        }
    }
}

/// The start of a message about the token at `pos` on line `line`.
pub open spec fn located(line: usize, pos: usize) -> Seq<char> {
    "Parser error at source line "@ + decimal(line as int) + ", token position "@ + decimal(
        pos as int,
    ) + ": "@
}

/// The start of a message about line `line`.
pub open spec fn at_line(line: usize) -> Seq<char> {
    "Parser error at source line "@ + decimal(line as int) + ": "@
}

impl ParserErrorView {
    /// The message that describes the error to a reader.
    pub open spec fn text(self) -> Seq<char> {
        match self {
            ParserErrorView::NotANumber(pos, line, value) => located(line, pos) + "Value '"@ + value + "' is not a number"@,
            ParserErrorView::MalformedNumber(pos, line, value) => located(line, pos) + "Value '"@ + value + "' is a malformed number"@,
            ParserErrorView::InvalidOperation(pos, line, value) => located(line, pos) + "Invalid operation '"@ + value + "'"@,
            ParserErrorView::BinaryOpWithNoLHS(pos, line) => located(line, pos) + "Binary operation with no left-hand side"@,
            ParserErrorView::BinaryOpWithNoRHS(pos, line) => located(line, pos) + "Binary operation with no right-hand side"@,
            ParserErrorView::WhitespaceInNumber(pos, line, value) => located(line, pos) + "Whitespace inside number '"@ + value + "'"@,
            ParserErrorView::ParserLogicError(pos, line) => located(line, pos) + "Internal parser logic error"@,
            ParserErrorView::UnexpectedEOF(pos, line) => located(line, pos) + "Unexpected end of file"@,
            ParserErrorView::UnclosedEnvironment(line) => at_line(line) + "Unclosed environment"@,
            ParserErrorView::MissingLetIdentifier(pos, line) => located(line, pos) + "Missing identifier after 'let'"@,
            ParserErrorView::MissingAssignmentOp(pos, line) => located(line, pos) + "Missing assignment operator '='"@,
            ParserErrorView::InvalidAssignmentOp(pos, line, value) => located(line, pos) + "Expected assignment operator '=', not '"@ + value + "'"@,
            ParserErrorView::EmptyEnv(pos, line, value) => located(line, pos) + "Empty environment '"@ + value + "'"@,
            ParserErrorView::InvalidAccessionTarget(pos, line, value) => located(line, pos) + "Invalid accession target '"@ + value + "'"@,
            ParserErrorView::InvalidAccessionSource(pos, line, value) => located(line, pos) + "Invalid accession source '"@ + value + "'"@,
            ParserErrorView::InvalidInheritanceToken(pos, line, value) => located(line, pos) + "Invalid token '"@ + value + "' in inheritance statement"@,
            ParserErrorView::ParentlessInheritance(pos, line, value) => located(line, pos) + "Inheritance in parentless environment: '"@ + value + "'"@,
            ParserErrorView::DoubleInheritanceParen(pos, line, value) => located(line, pos) + "Second opening parenthesis for inheritance: '"@ + value + "'"@,
            ParserErrorView::WildcardAndElements(pos, line, value) => located(line, pos) + "Cannot specify both identifiers and wildcard: '"@ + value + "'"@,
            ParserErrorView::NotInheritClause => "Parser error: Attempted to push name to something else than an inherit clause"@,
            ParserErrorView::NotAnEnvironment(pos, line, value) => located(line, pos) + "Expected an Environment instead of: '"@ + value + "'"@,
            ParserErrorView::InvalidFunArgToken(pos, line, value) => located(line, pos) + "Expected whitespace, brackets, commas, or identifiers, instead of: '"@ + value,
            ParserErrorView::DoubleFunArgBracket(pos, line, value) => located(line, pos) + "Second opening bracket for function arguments: '"@ + value + "'"@,
            ParserErrorView::UnclosedArgumentClause(line) => at_line(line) + "Unclosed function argument clause"@,
            ParserErrorView::MissingFunctionName(pos, line, value) => located(line, pos) + "Expected function identifier instead of: '"@ + value + "'"@,
            ParserErrorView::MissingFunctionArgs(pos, line) => located(line, pos) + "Expected function arguments"@,
            ParserErrorView::MissingFunctionBody(pos, line) => located(line, pos) + "Expected function body"@,
            ParserErrorView::MissingReturnStatement(pos, line, value) => located(line, pos) + "Expected return statement instead of: '"@ + value,
            ParserErrorView::InvalidTokenInFnSignature(pos, line, value) => located(line, pos) + "Expected inheritance clause or assignment operator instead of: '"@ + value + "'"@,
            ParserErrorView::UnexpectedReturn(pos, line) => located(line, pos) + "The `return` keyword is not valid in this context"@,
            ParserErrorView::InvalidContextForIdentifier(line, value) => at_line(line) + "Identifier in invalid context '"@ + value + "'"@,
            ParserErrorView::InvalidTokenInFnCall(pos, line, value) => located(line, pos) + "Expected function arguments instead of: '"@ + value + "'"@,
            ParserErrorView::InvalidTokenInUnaryOp(pos, line, value) => located(line, pos) + "Invalid operand '"@ + value + "' for unary operation"@,
        }
    }
}

/// The start of a message about the token at `pos` on line `line`.
fn location_text(line: usize, pos: usize) -> (s: String)
    ensures
        s@ == located(line, pos),
{
    let mut s = owned_text("Parser error at source line ");
    s.append(usize_to_text(line).as_str());
    s.append(", token position ");
    s.append(usize_to_text(pos).as_str());
    s.append(": ");
    s
}

/// The start of a message about line `line`.
fn line_text(line: usize) -> (s: String)
    ensures
        s@ == at_line(line),
{
    let mut s = owned_text("Parser error at source line ");
    s.append(usize_to_text(line).as_str());
    s.append(": ");
    s
}

impl ParserError {
    /// The message that describes the error to a reader: where it arose (source line and
    /// token position) and what went wrong.
    pub fn to_string(&self) -> (s: String)
        ensures
            s@ == self@.text(),
    {
        match self {
            ParserError::NotANumber(pos, line, value) => {
                let mut s = location_text(*line, *pos);
                s.append("Value '");
                s.append(value.as_str());
                s.append("' is not a number");
                s
            },
            ParserError::MalformedNumber(pos, line, value) => {
                let mut s = location_text(*line, *pos);
                s.append("Value '");
                s.append(value.as_str());
                s.append("' is a malformed number");
                s
            },
            ParserError::InvalidOperation(pos, line, value) => {
                let mut s = location_text(*line, *pos);
                s.append("Invalid operation '");
                s.append(value.as_str());
                s.append("'");
                s
            },
            ParserError::BinaryOpWithNoLHS(pos, line) => {
                let mut s = location_text(*line, *pos);
                s.append("Binary operation with no left-hand side");
                s
            },
            ParserError::BinaryOpWithNoRHS(pos, line) => {
                let mut s = location_text(*line, *pos);
                s.append("Binary operation with no right-hand side");
                s
            },
            ParserError::WhitespaceInNumber(pos, line, value) => {
                let mut s = location_text(*line, *pos);
                s.append("Whitespace inside number '");
                s.append(value.as_str());
                s.append("'");
                s
            },
            ParserError::ParserLogicError(pos, line) => {
                let mut s = location_text(*line, *pos);
                s.append("Internal parser logic error");
                s
            },
            ParserError::UnexpectedEOF(pos, line) => {
                let mut s = location_text(*line, *pos);
                s.append("Unexpected end of file");
                s
            },
            ParserError::UnclosedEnvironment(line) => {
                let mut s = line_text(*line);
                s.append("Unclosed environment");
                s
            },
            ParserError::MissingLetIdentifier(pos, line) => {
                let mut s = location_text(*line, *pos);
                s.append("Missing identifier after 'let'");
                s
            },
            ParserError::MissingAssignmentOp(pos, line) => {
                let mut s = location_text(*line, *pos);
                s.append("Missing assignment operator '='");
                s
            },
            ParserError::InvalidAssignmentOp(pos, line, value) => {
                let mut s = location_text(*line, *pos);
                s.append("Expected assignment operator '=', not '");
                s.append(value.as_str());
                s.append("'");
                s
            },
            ParserError::EmptyEnv(pos, line, value) => {
                let mut s = location_text(*line, *pos);
                s.append("Empty environment '");
                s.append(value.as_str());
                s.append("'");
                s
            },
            ParserError::InvalidAccessionTarget(pos, line, value) => {
                let mut s = location_text(*line, *pos);
                s.append("Invalid accession target '");
                s.append(value.as_str());
                s.append("'");
                s
            },
            ParserError::InvalidAccessionSource(pos, line, value) => {
                let mut s = location_text(*line, *pos);
                s.append("Invalid accession source '");
                s.append(value.as_str());
                s.append("'");
                s
            },
            ParserError::InvalidInheritanceToken(pos, line, value) => {
                let mut s = location_text(*line, *pos);
                s.append("Invalid token '");
                s.append(value.as_str());
                s.append("' in inheritance statement");
                s
            },
            ParserError::ParentlessInheritance(pos, line, value) => {
                let mut s = location_text(*line, *pos);
                s.append("Inheritance in parentless environment: '");
                s.append(value.as_str());
                s.append("'");
                s
            },
            ParserError::DoubleInheritanceParen(pos, line, value) => {
                let mut s = location_text(*line, *pos);
                s.append("Second opening parenthesis for inheritance: '");
                s.append(value.as_str());
                s.append("'");
                s
            },
            ParserError::WildcardAndElements(pos, line, value) => {
                let mut s = location_text(*line, *pos);
                s.append("Cannot specify both identifiers and wildcard: '");
                s.append(value.as_str());
                s.append("'");
                s
            },
            ParserError::NotInheritClause => owned_text("Parser error: Attempted to push name to something else than an inherit clause"),
            ParserError::NotAnEnvironment(pos, line, value) => {
                let mut s = location_text(*line, *pos);
                s.append("Expected an Environment instead of: '");
                s.append(value.as_str());
                s.append("'");
                s
            },
            ParserError::InvalidFunArgToken(pos, line, value) => {
                let mut s = location_text(*line, *pos);
                s.append("Expected whitespace, brackets, commas, or identifiers, instead of: '");
                s.append(value.as_str());
                s
            },
            ParserError::DoubleFunArgBracket(pos, line, value) => {
                let mut s = location_text(*line, *pos);
                s.append("Second opening bracket for function arguments: '");
                s.append(value.as_str());
                s.append("'");
                s
            },
            ParserError::UnclosedArgumentClause(line) => {
                let mut s = line_text(*line);
                s.append("Unclosed function argument clause");
                s
            },
            ParserError::MissingFunctionName(pos, line, value) => {
                let mut s = location_text(*line, *pos);
                s.append("Expected function identifier instead of: '");
                s.append(value.as_str());
                s.append("'");
                s
            },
            ParserError::MissingFunctionArgs(pos, line) => {
                let mut s = location_text(*line, *pos);
                s.append("Expected function arguments");
                s
            },
            ParserError::MissingFunctionBody(pos, line) => {
                let mut s = location_text(*line, *pos);
                s.append("Expected function body");
                s
            },
            ParserError::MissingReturnStatement(pos, line, value) => {
                let mut s = location_text(*line, *pos);
                s.append("Expected return statement instead of: '");
                s.append(value.as_str());
                s
            },
            ParserError::InvalidTokenInFnSignature(pos, line, value) => {
                let mut s = location_text(*line, *pos);
                s.append("Expected inheritance clause or assignment operator instead of: '");
                s.append(value.as_str());
                s.append("'");
                s
            },
            ParserError::UnexpectedReturn(pos, line) => {
                let mut s = location_text(*line, *pos);
                s.append("The `return` keyword is not valid in this context");
                s
            },
            ParserError::InvalidContextForIdentifier(line, value) => {
                let mut s = line_text(*line);
                s.append("Identifier in invalid context '");
                s.append(value.as_str());
                s.append("'");
                s
            },
            ParserError::InvalidTokenInFnCall(pos, line, value) => {
                let mut s = location_text(*line, *pos);
                s.append("Expected function arguments instead of: '");
                s.append(value.as_str());
                s.append("'");
                s
            },
            ParserError::InvalidTokenInUnaryOp(pos, line, value) => {
                let mut s = location_text(*line, *pos);
                s.append("Invalid operand '");
                s.append(value.as_str());
                s.append("' for unary operation");
                s
            },
        }
    }
}

} // verus!
