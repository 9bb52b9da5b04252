use envlang::environment::{EnvValue, Environment};
use envlang::lenient_lexer;
use envlang::parser::{AstNode, ParserError};
use std::rc::Rc;

fn env_with(name: Option<&str>, bindings: Vec<AstNode>, parent: Option<AstNode>) -> AstNode {
    AstNode::Environment {
        name: name.map(|n| n.to_string()),
        bindings: bindings.into_iter().map(Rc::new).collect(),
        parent: parent.map(Rc::new),
    }
}

#[test]
fn environment_getters() {
    let parent = env_with(None, vec![], None);
    let env = env_with(Some("e"), vec![AstNode::Integer(1), AstNode::Boolean(true)], Some(parent.clone()));
    assert!(env.is_environment());
    assert!(!env.is_single_element_env());
    assert_eq!(env.get_name(), Some("e".to_string()));
    assert_eq!(env.get_parent(), Some(Rc::new(parent)));
    assert_eq!(
        env.get_bindings(),
        Some(vec![Rc::new(AstNode::Integer(1)), Rc::new(AstNode::Boolean(true))])
    );
    assert_eq!(env.get_params(), None);
    assert_eq!(env.get_inherited_names(), None);
}

#[test]
fn getters_of_other_nodes() {
    let node = AstNode::Integer(3);
    assert!(!node.is_environment());
    assert!(!node.is_single_element_env());
    assert_eq!(node.get_bindings(), None);
    assert_eq!(node.get_name(), None);
    assert_eq!(node.get_parent(), None);
    let args = AstNode::FunctionArgs(vec![Rc::new(AstNode::Identifier("x".to_string()))]);
    assert_eq!(args.get_params(), Some(vec![Rc::new(AstNode::Identifier("x".to_string()))]));
    assert!(env_with(None, vec![AstNode::Integer(1)], None).is_single_element_env());
}

#[test]
fn pushed_inherited_name_is_read_back() {
    let mut clause = AstNode::Inherit { names: Some(vec!["a".to_string()]) };
    assert_eq!(clause.push_inherited_name("b".to_string()), Ok(()));
    assert_eq!(clause.get_inherited_names(), Some(vec!["a".to_string(), "b".to_string()]));
}

#[test]
fn names_cannot_join_a_wildcard() {
    let mut clause = AstNode::Inherit { names: None };
    assert_eq!(
        clause.push_inherited_name("b".to_string()),
        Err(ParserError::WildcardAndElements(0, 0, "wrong implementation".to_string()))
    );
    assert_eq!(clause, AstNode::Inherit { names: None });
}

#[test]
fn names_are_only_pushed_to_inheritance_clauses() {
    let mut node = AstNode::Identifier("x".to_string());
    assert_eq!(node.push_inherited_name("b".to_string()), Err(ParserError::NotInheritClause));
    assert_eq!(node, AstNode::Identifier("x".to_string()));
}

#[test]
fn added_element_is_read_back() {
    let mut env = Environment::new();
    env.add_element(EnvValue::INT(4));
    env.add_element(EnvValue::STRING("s".to_string()));
    assert_eq!(env.get_elements(), vec![EnvValue::INT(4), EnvValue::STRING("s".to_string())]);
}

#[test]
fn lenient_tokens_end_with_their_only_end_of_file() {
    let input = vec!["1".to_string(), " ".to_string(), "@".to_string(), "x".to_string()];
    let tokens = lenient_lexer::Lexer::new(input).tokenize();
    assert_eq!(tokens.last(), Some(&lenient_lexer::Token::EOF));
    assert_eq!(tokens.iter().filter(|t| **t == lenient_lexer::Token::EOF).count(), 1);
}

#[test]
fn set_field_of_an_assignment() {
    let mut node = AstNode::Let { name: "x".to_string(), value: None, inherit: None };
    let result = node.set_field::<AstNode>(|v| {
        if let AstNode::Let { value, .. } = v {
            *value = Some(Rc::new(AstNode::Integer(5)));
        }
        Ok(())
    });
    assert_eq!(result, Ok(()));
    assert_eq!(node, AstNode::Let { name: "x".to_string(), value: Some(Rc::new(AstNode::Integer(5))), inherit: None });
}

#[test]
fn set_field_passes_on_the_setter_error() {
    let mut node = AstNode::FunctionArgs(vec![]);
    let result = node.set_field::<AstNode>(|_| Err(ParserError::NotInheritClause));
    assert_eq!(result, Err(ParserError::NotInheritClause));
}

#[test]
fn set_field_of_another_node() {
    let mut node = AstNode::Integer(1);
    let result = node.set_field::<AstNode>(|v| {
        *v = AstNode::Integer(2);
        Ok(())
    });
    assert_eq!(result, Err(ParserError::ParserLogicError(0, 0)));
    assert_eq!(node, AstNode::Integer(1));
}
