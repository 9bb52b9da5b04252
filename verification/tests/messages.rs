use envlang::lexer::LexerError;
use envlang::parser::{AstNode, ParserError};
use envlang::symbols::{ArithmeticOperators, Operators};
use std::rc::Rc;

#[test]
fn parser_error_message_with_value() {
    assert_eq!(
        ParserError::NotANumber(1, 2, "abc".to_string()).to_string(),
        "Parser error at source line 2, token position 1: Value 'abc' is not a number"
    );
}

#[test]
fn parser_error_message_without_value() {
    assert_eq!(
        ParserError::UnexpectedReturn(0, 1).to_string(),
        "Parser error at source line 1, token position 0: The `return` keyword is not valid in this context"
    );
}

#[test]
fn parser_error_message_with_line_only() {
    assert_eq!(ParserError::UnclosedEnvironment(14).to_string(), "Parser error at source line 14: Unclosed environment");
}

#[test]
fn parser_error_message_for_inheritance() {
    assert_eq!(
        ParserError::NotInheritClause.to_string(),
        "Parser error: Attempted to push name to something else than an inherit clause"
    );
    assert_eq!(
        ParserError::WildcardAndElements(6, 1, "*".to_string()).to_string(),
        "Parser error at source line 1, token position 6: Cannot specify both identifiers and wildcard: '*'"
    );
}

#[test]
fn lexer_error_messages() {
    assert_eq!(LexerError::InvalidToken(3, "x".to_string()).to_string(), "Lexer error at position 3: Invalid token: x");
    assert_eq!(
        LexerError::SliceOutOfBounds(1, 5, 3).to_string(),
        "Lexer error: Attempted to get position 1 to 5 from string with length 3"
    );
    assert_eq!(
        LexerError::UnterminatedString(0, "hello".to_string()).to_string(),
        "Lexer error at position 0: Unterminated string literal 'hello'"
    );
}

#[test]
fn node_texts() {
    let sum = AstNode::BinaryOp {
        left: Rc::new(AstNode::Identifier("x".to_string())),
        operator: Operators::Arithmetic(ArithmeticOperators::ADD),
        right: Rc::new(AstNode::Integer(-5)),
    };
    assert_eq!(sum.to_string(), "x + -5");
    let args = AstNode::FunctionArgs(vec![
        Rc::new(AstNode::Identifier("a".to_string())),
        Rc::new(AstNode::Identifier("b".to_string())),
    ]);
    assert_eq!(args.to_string(), "[a, b]");
    assert_eq!(AstNode::Float("1.50".to_string()).to_string(), "1.50");
    assert_eq!(AstNode::Inherit { names: None }.to_string(), "Inherit elements '*'");
}

#[test]
fn value_parser_error_messages_keep_the_standard_description() {
    let int_error = "x".parse::<i32>().unwrap_err();
    assert_eq!(
        envlang::value_parser::ParserError::Int(int_error.clone()).to_string(),
        format!("Error in parsing integer: {}", int_error)
    );
    let float_error = "x".parse::<f64>().unwrap_err();
    assert_eq!(
        envlang::value_parser::ParserError::Float(float_error.clone()).to_string(),
        format!("Error in parsing float: {}", float_error)
    );
    assert_eq!(envlang::value_parser::ParserError::NoToken.to_string(), "No token available in queue");
    assert_eq!(
        envlang::parsererror::ParserError::Int(int_error.clone()).to_string(),
        format!("Parsing error: {}", int_error)
    );
    assert_eq!(
        envlang::parsererror::ParserError::Float(float_error.clone()).to_string(),
        format!("Parsing error: {}", float_error)
    );
}
