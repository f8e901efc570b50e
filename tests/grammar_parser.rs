use std::collections::HashMap;

use fleet_control::grammar_file::parse_grammar_file;
use fleet_control::grammar_parser::{create_parser, GrammarDefinition, GrammarRule, GrammarType};

#[test]
fn test_antlr_parser_creation() {
    let grammar = GrammarDefinition {
        name: "test_grammar".to_string(),
        grammar_type: GrammarType::Antlr,
        rules: vec![GrammarRule {
            name: "start".to_string(),
            production: "ID".to_string(),
            action: None,
        }],
        start_rule: "start".to_string(),
        metadata: HashMap::new(),
    };
    
    let parser = create_parser(grammar);
    assert!(parser.parse("test").is_ok());
}

#[test]
fn test_yacc_parser_creation() {
    let grammar = GrammarDefinition {
        name: "test_yacc".to_string(),
        grammar_type: GrammarType::Yacc,
        rules: vec![GrammarRule {
            name: "expr".to_string(),
            production: "ID '+' ID".to_string(),
            action: Some("$$ = $1 + $3".to_string()),
        }],
        start_rule: "expr".to_string(),
        metadata: HashMap::new(),
    };
    
    let parser = create_parser(grammar);
    assert!(parser.parse("a + b").is_ok());
}

#[test]
fn test_zpp_parser_creation() {
    let grammar = GrammarDefinition {
        name: "test_zpp".to_string(),
        grammar_type: GrammarType::ZPlusPlus,
        rules: vec![GrammarRule {
            name: "State".to_string(),
            production: "x: ℕ; y: ℕ".to_string(),
            action: None,
        }],
        start_rule: "State".to_string(),
        metadata: HashMap::new(),
    };
    
    let parser = create_parser(grammar);
    assert!(parser.parse("x = 5; y = 10").is_ok());
}

#[test]
fn test_parse_grammar_file() {
    let content = r#"
        grammar TestGrammar;
        start expr;
        expr: ID '+' ID
        term: ID
    "#;
    
    let result = parse_grammar_file(content, GrammarType::Antlr);
    assert!(result.is_ok());
    
    let grammar = result.unwrap();
    assert_eq!(grammar.name, "TestGrammar");
    assert_eq!(grammar.start_rule, "expr");
    assert_eq!(grammar.rules.len(), 2);
}
