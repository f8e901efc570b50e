use fleet_control::grammar_service::GrammarService;

#[test]
fn test_grammar_service_creation() {
    let mut service = GrammarService::new();
    assert!(service.load_default_grammars().is_ok());
    
    let grammars = service.list_grammars().unwrap();
    assert!(!grammars.is_empty());
    assert!(grammars.contains(&"ArithmeticGrammar".to_string()));
}

#[test]
fn test_parse_arithmetic() {
    let mut service = GrammarService::new();
    service.load_default_grammars().unwrap();
    
    let result = service.parse("ArithmeticGrammar", "2 + 3 * 4");
    assert!(result.is_ok());
    
    let parse_tree = result.unwrap();
    assert_eq!(parse_tree.node_type, "program");
}

#[test]
fn test_generate_code() {
    let mut service = GrammarService::new();
    service.load_default_grammars().unwrap();
    
    let result = service.generate_code("ArithmeticGrammar", "rust");
    assert!(result.is_ok());
    
    let code = result.unwrap();
    assert!(code.contains("Generated parser for grammar: ArithmeticGrammar"));
}

#[test]
fn default_grammars_are_all_loaded() {
    let mut service = GrammarService::new();
    assert!(service.load_default_grammars().is_ok());
    let names = service.list_grammars().unwrap();
    for expected in [
        "ArithmeticGrammar",
        "JsonGrammar",
        "LLMApiGrammar",
        "ConfigurationGrammar",
        "PromptTemplateGrammar",
        "ResourceManagement",
        "LLMQueryLanguage",
        "ZPlusPlus",
        "LLMSystemSpecification",
        "InferenceWorkflowSpecification",
    ] {
        assert!(names.contains(&expected.to_string()), "{expected}");
    }
    assert_eq!(names.len(), 10);
    let code = service.generate_code("ResourceManagement", "c").unwrap();
    assert!(code.contains("#include <sys/resource.h>"));
}
