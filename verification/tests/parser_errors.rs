use envlang::lexer::Token;
use envlang::parser::{AstNode, ParseContext, Parser, ParserError};
use envlang::symbols::{ArithmeticOperators, Booleans, Keywords, LogicalOperators, Operators, OtherOperators};
use std::rc::Rc;

fn parse(tokens: Vec<Token>) -> Result<AstNode, ParserError> {
    Parser::new(tokens).parse()
}

fn ident(s: &str) -> Token {
    Token::Identifier(s.to_string())
}

fn number(s: &str) -> Token {
    Token::Number(s.to_string())
}

fn assign() -> Token {
    Token::Operator(Operators::Other(OtherOperators::ASSIGNMENT))
}

fn global(bindings: Vec<AstNode>) -> AstNode {
    AstNode::Environment { name: None, bindings: bindings.into_iter().map(Rc::new).collect(), parent: None }
}

#[test]
fn return_outside_a_function() {
    assert_eq!(parse(vec![Token::Keyword(Keywords::RETURN), Token::EOF]), Err(ParserError::UnexpectedReturn(0, 1)));
}

#[test]
fn line_breaks_are_counted_in_errors() {
    let tokens = vec![
        Token::Whitespace("\n".to_string()),
        Token::Whitespace("\r\n".to_string()),
        Token::Whitespace(" ".to_string()),
        Token::Keyword(Keywords::RETURN),
        Token::EOF,
    ];
    assert_eq!(parse(tokens), Err(ParserError::UnexpectedReturn(3, 3)));
}

#[test]
fn operation_ended_by_end_of_file() {
    let tokens = vec![number("1"), Token::Operator(Operators::Arithmetic(ArithmeticOperators::ADD)), number("2"), Token::EOF];
    assert_eq!(parse(tokens), Err(ParserError::UnexpectedEOF(3, 1)));
}

#[test]
fn operation_without_right_hand_side() {
    let tokens = vec![number("1"), Token::Operator(Operators::Arithmetic(ArithmeticOperators::ADD))];
    assert_eq!(parse(tokens), Err(ParserError::UnexpectedEOF(2, 1)));
}

#[test]
fn let_without_identifier() {
    assert_eq!(parse(vec![Token::Keyword(Keywords::LET), number("5"), Token::EOF]), Err(ParserError::MissingLetIdentifier(1, 1)));
}

#[test]
fn let_at_the_end_of_the_tokens() {
    assert_eq!(parse(vec![Token::Keyword(Keywords::LET)]), Err(ParserError::ParserLogicError(1, 1)));
}

#[test]
fn let_without_assignment_operator() {
    let tokens = vec![Token::Keyword(Keywords::LET), ident("x"), number("5")];
    assert_eq!(parse(tokens), Err(ParserError::MissingAssignmentOp(2, 1)));
}

#[test]
fn let_with_wrong_operator() {
    let tokens = vec![Token::Keyword(Keywords::LET), ident("x"), Token::Operator(Operators::Arithmetic(ArithmeticOperators::ADD)), number("5")];
    assert_eq!(parse(tokens), Err(ParserError::InvalidAssignmentOp(2, 1, "+".to_string())));
}

#[test]
fn accession_of_a_number() {
    let tokens = vec![ident("x"), Token::Operator(Operators::Other(OtherOperators::ACCESSOR)), number("5"), Token::EOF];
    assert_eq!(parse(tokens), Err(ParserError::InvalidAccessionTarget(2, 1, "5".to_string())));
}

#[test]
fn accession_from_a_boolean() {
    let tokens = vec![Token::Boolean(Booleans::TRUE), Token::Operator(Operators::Other(OtherOperators::ACCESSOR)), ident("y"), Token::EOF];
    assert_eq!(parse(tokens), Err(ParserError::InvalidAccessionSource(2, 1, "true".to_string())));
}

#[test]
fn accession_from_a_float_shows_its_numeral() {
    let tokens = vec![
        number("1"),
        Token::Operator(Operators::Other(OtherOperators::ACCESSOR)),
        number("50"),
        Token::Whitespace(" ".to_string()),
        Token::Operator(Operators::Other(OtherOperators::ACCESSOR)),
        ident("y"),
        Token::EOF,
    ];
    assert_eq!(parse(tokens), Err(ParserError::InvalidAccessionSource(5, 1, "1.50".to_string())));
}

#[test]
fn number_in_inheritance_clause() {
    let tokens = vec![Token::Keyword(Keywords::LET), ident("x"), Token::Keyword(Keywords::INHERIT), number("5")];
    assert_eq!(parse(tokens), Err(ParserError::InvalidInheritanceToken(3, 1, "5".to_string())));
}

#[test]
fn second_parenthesis_in_inheritance_clause() {
    let tokens = vec![Token::Keyword(Keywords::LET), ident("x"), Token::Keyword(Keywords::INHERIT), Token::LeftParen, ident("a"), Token::LeftParen];
    assert_eq!(parse(tokens), Err(ParserError::DoubleInheritanceParen(5, 1, "(".to_string())));
}

#[test]
fn number_in_function_arguments() {
    let tokens = vec![Token::Keyword(Keywords::LET), Token::Keyword(Keywords::FUN), ident("f"), Token::LeftBracket, number("5")];
    assert_eq!(parse(tokens), Err(ParserError::InvalidFunArgToken(4, 1, "5".to_string())));
}

#[test]
fn second_bracket_in_function_arguments() {
    let tokens = vec![Token::Keyword(Keywords::LET), Token::Keyword(Keywords::FUN), ident("f"), Token::LeftBracket, ident("a"), Token::LeftBracket];
    assert_eq!(parse(tokens), Err(ParserError::DoubleFunArgBracket(5, 1, "[".to_string())));
}

#[test]
fn unclosed_function_arguments() {
    let tokens = vec![Token::Keyword(Keywords::LET), Token::Keyword(Keywords::FUN), ident("f"), Token::LeftBracket, Token::EOF];
    assert_eq!(parse(tokens), Err(ParserError::UnclosedArgumentClause(1)));
}

#[test]
fn function_without_name() {
    let tokens = vec![Token::Keyword(Keywords::LET), Token::Keyword(Keywords::FUN), number("5")];
    assert_eq!(parse(tokens), Err(ParserError::MissingFunctionName(2, 1, "5".to_string())));
}

#[test]
fn whitespace_between_function_name_and_arguments() {
    let tokens = vec![Token::Keyword(Keywords::LET), Token::Keyword(Keywords::FUN), ident("f"), Token::Whitespace(" ".to_string())];
    assert_eq!(parse(tokens), Err(ParserError::MissingFunctionArgs(3, 1)));
}

#[test]
fn function_without_body() {
    let tokens = vec![Token::Keyword(Keywords::LET), Token::Keyword(Keywords::FUN), ident("f"), Token::LeftBracket, Token::RightBracket];
    assert_eq!(parse(tokens), Err(ParserError::MissingFunctionBody(5, 1)));
}

#[test]
fn function_without_return() {
    let tokens = vec![
        Token::Keyword(Keywords::LET),
        Token::Keyword(Keywords::FUN),
        ident("f"),
        Token::LeftBracket,
        Token::RightBracket,
        assign(),
        number("5"),
        Token::EOF,
    ];
    assert_eq!(parse(tokens), Err(ParserError::MissingReturnStatement(7, 1, String::new())));
}

#[test]
fn function_body_running_out() {
    let tokens = vec![
        Token::Keyword(Keywords::LET),
        Token::Keyword(Keywords::FUN),
        ident("f"),
        Token::LeftBracket,
        Token::RightBracket,
        assign(),
        number("5"),
    ];
    assert_eq!(parse(tokens), Err(ParserError::UnclosedEnvironment(1)));
}

#[test]
fn number_in_function_signature() {
    let tokens = vec![Token::Keyword(Keywords::LET), Token::Keyword(Keywords::FUN), ident("f"), Token::LeftBracket, Token::RightBracket, number("5")];
    assert_eq!(parse(tokens), Err(ParserError::InvalidTokenInFnSignature(5, 1, "5".to_string())));
}

#[test]
fn function_inheritance_without_assignment() {
    let tokens = vec![
        Token::Keyword(Keywords::LET),
        Token::Keyword(Keywords::FUN),
        ident("f"),
        Token::LeftBracket,
        Token::RightBracket,
        Token::Keyword(Keywords::INHERIT),
        Token::LeftParen,
        Token::RightParen,
        number("5"),
    ];
    assert_eq!(parse(tokens), Err(ParserError::MissingAssignmentOp(8, 1)));
}

#[test]
fn comma_after_unary_operator() {
    let tokens = vec![Token::Operator(Operators::Arithmetic(ArithmeticOperators::SUBTRACT)), Token::Comma, Token::EOF];
    assert_eq!(parse(tokens), Err(ParserError::InvalidTokenInUnaryOp(1, 1, ",".to_string())));
}

#[test]
fn unary_operator_at_the_end() {
    let tokens = vec![Token::Operator(Operators::Arithmetic(ArithmeticOperators::ADD))];
    assert_eq!(parse(tokens), Err(ParserError::UnexpectedEOF(1, 1)));
}

#[test]
fn unary_minus_on_a_number() {
    let tokens = vec![Token::Operator(Operators::Arithmetic(ArithmeticOperators::SUBTRACT)), number("5"), Token::LineTerminator, Token::EOF];
    let expected = global(vec![AstNode::UnaryOp {
        op: Operators::Arithmetic(ArithmeticOperators::SUBTRACT),
        operand: Rc::new(AstNode::Integer(5)),
    }]);
    assert_eq!(parse(tokens), Ok(expected));
}

#[test]
fn unary_not_on_a_boolean() {
    let tokens = vec![Token::Operator(Operators::Logical(LogicalOperators::NOT)), Token::Boolean(Booleans::FALSE), Token::EOF];
    let expected = global(vec![AstNode::UnaryOp {
        op: Operators::Logical(LogicalOperators::NOT),
        operand: Rc::new(AstNode::Boolean(false)),
    }]);
    assert_eq!(parse(tokens), Ok(expected));
}

#[test]
fn integer_beyond_isize_is_a_float() {
    let tokens = vec![number("99999999999999999999"), Token::EOF];
    assert_eq!(parse(tokens), Ok(global(vec![AstNode::Float("99999999999999999999".to_string())])));
}

#[test]
fn numeral_starting_with_full_stop_after_unary_minus() {
    let tokens = vec![Token::Operator(Operators::Arithmetic(ArithmeticOperators::SUBTRACT)), number("12"), Token::EOF];
    let expected = global(vec![AstNode::UnaryOp {
        op: Operators::Arithmetic(ArithmeticOperators::SUBTRACT),
        operand: Rc::new(AstNode::Integer(12)),
    }]);
    assert_eq!(parse(tokens), Ok(expected));
}

#[test]
fn extra_braces_in_the_global_environment_are_ignored() {
    let tokens = vec![Token::RightBrace, Token::LeftBrace, number("1"), Token::EOF];
    assert_eq!(parse(tokens), Ok(global(vec![AstNode::Integer(1)])));
}

#[test]
fn empty_token_vector_is_the_empty_program() {
    assert_eq!(parse(vec![]), Ok(global(vec![])));
}

#[test]
fn parse_context_names() {
    assert_eq!(ParseContext::Normal.to_string(), "ParseContext::Normal");
    assert_eq!(ParseContext::FunctionReturn.to_string(), "ParseContext::FunctionReturn");
}

#[test]
fn end_of_file_inside_an_assignment() {
    let tokens = vec![Token::Keyword(Keywords::LET), ident("x"), assign(), number("5"), Token::EOF];
    assert_eq!(parse(tokens), Err(ParserError::UnexpectedEOF(4, 1)));
}

#[test]
fn end_of_file_inside_a_nested_environment() {
    let tokens = vec![Token::Keyword(Keywords::LET), ident("x"), assign(), Token::LeftBrace, number("5"), Token::EOF];
    assert_eq!(parse(tokens), Err(ParserError::UnexpectedEOF(5, 1)));
}

#[test]
fn tokens_running_out_inside_an_assignment() {
    let tokens = vec![Token::Keyword(Keywords::LET), ident("x"), assign(), number("5")];
    assert_eq!(parse(tokens), Err(ParserError::UnclosedEnvironment(1)));
}

#[test]
fn unary_operator_before_end_of_file() {
    let tokens = vec![Token::Operator(Operators::Arithmetic(ArithmeticOperators::SUBTRACT)), Token::EOF];
    assert_eq!(parse(tokens), Err(ParserError::UnexpectedEOF(1, 1)));
}

#[test]
fn logical_not_after_an_operand() {
    let tokens = vec![
        Token::Boolean(Booleans::TRUE),
        Token::Operator(Operators::Logical(LogicalOperators::NOT)),
        Token::Boolean(Booleans::FALSE),
        Token::EOF,
    ];
    assert_eq!(parse(tokens), Err(ParserError::InvalidOperation(2, 1, "!".to_string())));
}

#[test]
fn line_breaks_before_a_binary_operator() {
    let tokens = vec![
        Token::Whitespace("\n".to_string()),
        Token::Whitespace("\r\n".to_string()),
        Token::Whitespace(" ".to_string()),
        Token::Operator(Operators::Arithmetic(ArithmeticOperators::MULTIPLY)),
        Token::EOF,
    ];
    assert_eq!(parse(tokens), Err(ParserError::BinaryOpWithNoLHS(3, 3)));
}
