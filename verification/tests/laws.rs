use envlang::lexer::{Lexer, Token};
use envlang::parser::{AstNode, Parser};
use envlang::symbols::{
    ArithmeticOperators, ComparisonOperators, LogicalOperators, Operators, OtherOperators,
};
use envlang::unicodesegmenters::segment_graphemes;

fn lex(text: &str) -> Vec<Token> {
    Lexer::new(segment_graphemes(text)).tokenize().unwrap()
}

fn all_operators() -> Vec<Operators> {
    vec![
        Operators::Arithmetic(ArithmeticOperators::ADD),
        Operators::Arithmetic(ArithmeticOperators::SUBTRACT),
        Operators::Arithmetic(ArithmeticOperators::DIVIDE),
        Operators::Arithmetic(ArithmeticOperators::MULTIPLY),
        Operators::Arithmetic(ArithmeticOperators::MODULUS),
        Operators::Arithmetic(ArithmeticOperators::EXPONENTIATION),
        Operators::Comparison(ComparisonOperators::LT),
        Operators::Comparison(ComparisonOperators::LEQ),
        Operators::Comparison(ComparisonOperators::GT),
        Operators::Comparison(ComparisonOperators::GEQ),
        Operators::Comparison(ComparisonOperators::EQ),
        Operators::Comparison(ComparisonOperators::NEQ),
        Operators::Logical(LogicalOperators::AND),
        Operators::Logical(LogicalOperators::OR),
        Operators::Logical(LogicalOperators::NOT),
        Operators::Other(OtherOperators::ACCESSOR),
        Operators::Other(OtherOperators::ASSIGNMENT),
    ]
}

#[test]
fn operator_text_lexes_back_to_the_operator() {
    for op in all_operators() {
        let text = Token::Operator(op).to_string();
        assert_eq!(lex(&text), vec![Token::Operator(op), Token::EOF], "operator {}", text);
    }
}

#[test]
fn symbol_text_lexes_back_to_the_symbol() {
    for token in [
        Token::LeftBrace,
        Token::RightBrace,
        Token::LeftParen,
        Token::RightParen,
        Token::LeftBracket,
        Token::RightBracket,
        Token::Comma,
        Token::LineTerminator,
    ] {
        let text = token.to_string();
        assert_eq!(lex(&text), vec![token.clone(), Token::EOF]);
    }
}

#[test]
fn lexed_tokens_end_with_their_only_end_of_file() {
    let tokens = lex("{ 5 + 3; };\n'text' x.y;");
    assert_eq!(tokens.last(), Some(&Token::EOF));
    assert_eq!(tokens.iter().filter(|t| **t == Token::EOF).count(), 1);
}

#[test]
fn lexed_program_parses() {
    let tokens = lex("5 + 3;\nx.y;\n{ true }");
    let ast = Parser::new(tokens).parse().unwrap();
    match ast {
        AstNode::Environment { bindings, name: None, parent: None } => assert_eq!(bindings.len(), 3),
        other => panic!("Expected the global environment, got {:?}", other),
    }
}

#[test]
fn token_sequences_give_a_result() {
    // Odd sequences still yield a tree or an error.
    let sequences = vec![
        vec![Token::Comma, Token::RightParen, Token::EOF],
        vec![Token::LineTerminator, Token::LineTerminator],
        vec![Token::Keyword(envlang::symbols::Keywords::INHERIT), Token::EOF, Token::EOF],
        vec![Token::LeftBracket, Token::Identifier("x".to_string()), Token::LeftBracket],
        vec![Token::Identifier("x".to_string()), Token::Operator(Operators::Logical(LogicalOperators::NOT))],
    ];
    for tokens in sequences {
        let _ = Parser::new(tokens).parse();
    }
}

#[test]
fn empty_input_lexes_to_end_of_file() {
    assert_eq!(Lexer::new(vec![]).tokenize().unwrap(), vec![Token::EOF]);
}

#[test]
fn assignment_followed_by_space() {
    let input = vec!["=".to_string(), " ".to_string()];
    assert_eq!(
        Lexer::new(input).tokenize().unwrap(),
        vec![Token::Operator(Operators::Other(OtherOperators::ASSIGNMENT)), Token::Whitespace(" ".to_string()), Token::EOF]
    );
}

#[test]
fn comparison_followed_by_operand() {
    assert_eq!(
        lex("a<b"),
        vec![
            Token::Identifier("a".to_string()),
            Token::Operator(Operators::Comparison(ComparisonOperators::LT)),
            Token::Identifier("b".to_string()),
            Token::EOF
        ]
    );
}

#[test]
fn documented_assignment_lexes_and_parses() {
    let tokens = lex("let a = 5;");
    let ast = Parser::new(tokens).parse().unwrap();
    match ast {
        AstNode::Environment { bindings, .. } => {
            assert_eq!(bindings.len(), 1);
            match &*bindings[0] {
                AstNode::Let { name, value: Some(v), inherit: None } => {
                    assert_eq!(name, "a");
                    assert_eq!(**v, AstNode::Integer(5));
                },
                other => panic!("Expected an assignment, got {:?}", other),
            }
        },
        other => panic!("Expected the global environment, got {:?}", other),
    }
}

#[test]
fn lexing_keeps_the_text() {
    let text = "let a = {b + 12;}\n<= x!";
    let tokens = lex(text);
    let shown: String = tokens.iter().filter(|t| **t != Token::EOF).map(|t| t.to_string()).collect();
    assert_eq!(shown, text);
}

#[test]
fn lenient_lexer_reads_continuing_segments_again() {
    let input = vec!["a".to_string(), "b".to_string(), "c".to_string()];
    let tokens = envlang::lenient_lexer::Lexer::new(input).tokenize();
    assert_eq!(
        tokens,
        vec![
            envlang::lenient_lexer::Token::Identifier("abc".to_string()),
            envlang::lenient_lexer::Token::Identifier("bc".to_string()),
            envlang::lenient_lexer::Token::Identifier("c".to_string()),
            envlang::lenient_lexer::Token::EOF,
        ]
    );
}
