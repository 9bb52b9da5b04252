use envlang::environment::EnvValue;
use envlang::lenient_lexer::Lexer;
use envlang::value_parser::Parser;

use std::time::Instant;

/// The 64-bit float that a float value's numeral stands for.
fn float_of(value: &EnvValue) -> Option<f64> {
    match value {
        EnvValue::FLOAT(numeral) => numeral.parse::<f64>().ok(),
        _ => None,
    }
}

#[test]
fn matches_integer() {
    let lexed_input = Lexer::new(vec!["5".to_string()]).tokenize();
    let global_env = Parser::new(lexed_input).parse_tokens();
    assert_eq!(global_env.get_elements(), vec![EnvValue::INT(5)]);
}

#[test]
fn matches_float() {
    let lexed_input = Lexer::new(vec!["3".to_string(), ".".to_string(), "5".to_string()]).tokenize();
    let global_env = Parser::new(lexed_input).parse_tokens();
    let elements = global_env.get_elements();
    assert_eq!(elements.len(), 1);
    assert_eq!(float_of(&elements[0]), Some(3.5));
}

#[test]
fn matches_multidigit_float() {
    let lexed_input = Lexer::new(vec![
        "123".to_string(),
        ".".to_string(),
        "456".to_string()
    ]).tokenize();
    let global_env = Parser::new(lexed_input).parse_tokens();
    let elements = global_env.get_elements();
    assert_eq!(elements.len(), 1);
    assert_eq!(float_of(&elements[0]), Some(123.456));
}

#[test]
fn matches_nontrailingzero_float() {
    let lexed_input = Lexer::new(vec![
        "123".to_string(),
        ".".to_string()
    ]).tokenize();
    let global_env = Parser::new(lexed_input).parse_tokens();
    let elements = global_env.get_elements();
    assert_eq!(elements.len(), 1);
    assert_eq!(float_of(&elements[0]), Some(123.0));
}

#[test]
fn matches_string() {
    let lexed_input = Lexer::new(vec![
        "\"".to_string(),
        "a".to_string(),
        "s".to_string(),
        "d".to_string(),
        "\"".to_string()
    ]).tokenize();
    let global_env = Parser::new(lexed_input).parse_tokens();
    assert_eq!(global_env.get_elements(), vec![EnvValue::STRING("asd".to_string())])
}

#[test]
fn parser_matches_bool_true() {
    let lexed_input = Lexer::new(vec![
        "t".to_string(),
        "r".to_string(),
        "u".to_string(),
        "e".to_string()
    ]).tokenize();
    let global_env = Parser::new(lexed_input).parse_tokens();
    assert_eq!(global_env.get_elements(), vec![EnvValue::BOOL(true)]);
}

#[test]
fn parser_matches_bool_false() {
    let lexed_input = Lexer::new(vec![
        "f".to_string(),
        "a".to_string(),
        "l".to_string(),
        "s".to_string(),
        "e".to_string()
    ]).tokenize();
    let global_env = Parser::new(lexed_input).parse_tokens();
    assert_eq!(global_env.get_elements(), vec![EnvValue::BOOL(false)]);
}

// Compares lexing a number as one segment with lexing it digit by digit.
#[test]
fn benchmark_number_parsing() {
    let large_input = vec!["96145225658".to_string()];

    let start = Instant::now();
    let tokens = Lexer::new(large_input.clone()).tokenize();
    let mut parser = Parser::new(tokens);
    parser.parse_tokens();
    let combined_duration = start.elapsed();

    let start = Instant::now();
    let char_input: Vec<String> = large_input
        .iter()
        .flat_map(|s| s.chars().map(|c| c.to_string()))
        .collect();
    let tokens = Lexer::new(char_input).tokenize();
    let mut parser = Parser::new(tokens);
    parser.parse_tokens();
    let single_char_duration = start.elapsed();

    println!("Combined tokens: {:?}", combined_duration);
    println!("Single char tokens: {:?}", single_char_duration);
}
