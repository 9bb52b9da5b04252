use envlang::lenient_lexer::{Lexer, Token};
use envlang::symbols::{Booleans, Keywords};

// Tests for correct behaviour
#[test]
fn lexer_matches_left_brace() {
    let input = vec!["{".to_string()];
    let tokens = Lexer::new(input).tokenize();
    assert_eq!(tokens, vec![Token::LeftBrace, Token::EOF]);
}

#[test]
fn lexer_matches_right_brace() {
    let input = vec!["}".to_string()];
    let tokens = Lexer::new(input).tokenize();
    assert_eq!(tokens, vec![Token::RightBrace, Token::EOF]);
}

#[test]
fn lexer_matches_singlequoted_string() {
    let input = vec![
        "'".to_string(),
        "a".to_string(),
        "s".to_string(),
        "d".to_string(),
        "'".to_string()
    ];
    let tokens = Lexer::new(input).tokenize();
    assert_eq!(tokens, vec![Token::StringLiteral("asd".to_string()), Token::EOF]);
}

#[test]
fn lexer_matches_doublequoted_string() {
    let input = vec![
        "\"".to_string(),
        "a".to_string(),
        "s".to_string(),
        "d".to_string(),
        "\"".to_string()
    ];
    let tokens = Lexer::new(input).tokenize();
    assert_eq!(tokens, vec![Token::StringLiteral("asd".to_string()), Token::EOF]);
}

#[test]
fn lexer_matches_nested_doublequoted_string() {
    let input = vec![
        "\"".to_string(),
        "'".to_string(),
        "a".to_string(),
        "s".to_string(),
        "d".to_string(),
        "'".to_string(),
        "\"".to_string()
    ];
    let tokens = Lexer::new(input).tokenize();
    assert_eq!(tokens, vec![Token::StringLiteral("'asd'".to_string()), Token::EOF])
}

#[test]
fn lexer_matches_nested_singlequoted_string() {
    let input = vec![
        "'".to_string(),
        "\"".to_string(),
        "a".to_string(),
        "s".to_string(),
        "d".to_string(),
        "\"".to_string(),
        "'".to_string()
    ];
    let tokens = Lexer::new(input).tokenize();
    assert_eq!(tokens, vec![Token::StringLiteral("\"asd\"".to_string()), Token::EOF])
}

#[test]
fn lexer_matches_add_operator() {
    let input = vec!["+".to_string()];
    let tokens = Lexer::new(input).tokenize();
    assert_eq!(tokens, vec![Token::Operator("+".to_string()), Token::EOF]);
}

#[test]
fn lexer_matches_subtract_operator() {
    let input = vec!["-".to_string()];
    let tokens = Lexer::new(input).tokenize();
    assert_eq!(tokens, vec![Token::Operator("-".to_string()), Token::EOF]);
}

#[test]
fn lexer_matches_multiply_operator() {
    let input = vec!["*".to_string()];
    let tokens = Lexer::new(input).tokenize();
    assert_eq!(tokens, vec![Token::Operator("*".to_string()), Token::EOF]);
}

#[test]
fn lexer_matches_divide_operator() {
    let input = vec!["/".to_string()];
    let tokens = Lexer::new(input).tokenize();
    assert_eq!(tokens, vec![Token::Operator("/".to_string()), Token::EOF]);
}

#[test]
fn lexer_matches_modulus_operator() {
    let input = vec!["%".to_string()];
    let tokens = Lexer::new(input).tokenize();
    assert_eq!(tokens, vec![Token::Operator("%".to_string()), Token::EOF]);
}

#[test]
fn lexer_matches_exponentiation_operator() {
    let input = vec!["^".to_string()];
    let tokens = Lexer::new(input).tokenize();
    assert_eq!(tokens, vec![Token::Operator("^".to_string()), Token::EOF]);
}

#[test]
fn lexer_matches_fullstop() {
    let input = vec![".".to_string()];
    let tokens = Lexer::new(input).tokenize();
    assert_eq!(tokens, vec![Token::FullStop, Token::EOF]);
}

#[test]
fn lexer_matches_digits() {
    let input = vec!["12345".to_string()];
    let tokens = Lexer::new(input).tokenize();
    assert_eq!(tokens, vec![Token::Number("12345".to_string()), Token::EOF]);
}

#[test]
fn lexer_matches_whitespace() {
    let input = vec!["\n".to_string()];
    let tokens = Lexer::new(input).tokenize();
    assert_eq!(tokens, vec![Token::Whitespace("\n".to_string()), Token::EOF]);
}

#[test]
fn lexer_matches_identifier() {
    let input = vec!["abc".to_string()];
    let tokens = Lexer::new(input).tokenize();
    assert_eq!(tokens, vec![Token::Identifier("abc".to_string()), Token::EOF]);
}

#[test]
fn lexer_matches_bool_true() {
    let input = vec!["true".to_string()];
    let tokens = Lexer::new(input).tokenize();
    assert_eq!(tokens, vec![Token::Boolean(Booleans::TRUE), Token::EOF])
}

#[test]
fn lexer_matches_bool_false() {
    let input = vec!["false".to_string()];
    let tokens = Lexer::new(input).tokenize();
    assert_eq!(tokens, vec![Token::Boolean(Booleans::FALSE), Token::EOF])
}

#[test]
fn lexer_matches_keyword_let() {
    let input = vec!["let".to_string()];
    let tokens = Lexer::new(input).tokenize();
    assert_eq!(tokens, vec![Token::Keyword(Keywords::LET), Token::EOF])
}

#[test]
fn lexer_matches_keyword_inherit() {
    let input = vec!["inherit".to_string()];
    let tokens = Lexer::new(input).tokenize();
    assert_eq!(tokens, vec![Token::Keyword(Keywords::INHERIT), Token::EOF])
}

#[test]
fn lexer_matches_keyword_fun() {
    let input = vec!["fun".to_string()];
    let tokens = Lexer::new(input).tokenize();
    assert_eq!(tokens, vec![Token::Keyword(Keywords::FUN), Token::EOF])
}

// Tests for edge cases
#[test]
fn lexer_handles_diacratic_identifier() {
    let input = vec!["üýö".to_string()];
    let tokens = Lexer::new(input).tokenize();
    assert_eq!(tokens, vec![Token::Identifier("üýö".to_string()), Token::EOF]);
}

#[test]
fn lexer_emojis_are_strings() {
    let input = vec!["\"".to_string(), "😺".to_string(), "\"".to_string()];
    let tokens = Lexer::new(input).tokenize();
    assert_eq!(tokens, vec![Token::StringLiteral("😺".to_string()), Token::EOF]);
}

#[test]
fn lexer_emojis_are_not_identifiers() {
    let input = vec!["😺".to_string()];
    let tokens = Lexer::new(input).tokenize();
    assert_eq!(tokens, vec![Token::EOF]);
}

#[test]
fn lexer_handles_windows_newline() {
    let input = vec!["\r\n".to_string()];
    let tokens = Lexer::new(input).tokenize();
    assert_eq!(tokens, vec![Token::Whitespace("\r\n".to_string()), Token::EOF]);
}
