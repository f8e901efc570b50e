use std::collections::HashMap;

use fleet_control::grammar_codegen::capitalize_rule_name;
use fleet_control::grammar_file::parse_grammar_file;
use fleet_control::grammar_parser::{
    create_parser, GrammarDefinition, GrammarError, GrammarRule, GrammarType, YaccParser,
};
use fleet_control::text::{contains, remove_char, replace_all, starts_with, str_equal, strip_prefix, trim};

#[test]
fn capitalize_uppercases_first_and_drops_underscores() {
    assert_eq!(capitalize_rule_name("expr_list_item"), "Exprlistitem");
    assert_eq!(capitalize_rule_name("ß_x"), "SSx");
    assert_eq!(capitalize_rule_name(""), "");
}

#[test]
fn text_helpers() {
    assert!(str_equal("abc", "abc"));
    assert!(!str_equal("abc", "abd"));
    assert!(starts_with("file:///x", "file://"));
    assert!(!starts_with("fil", "file"));
    assert_eq!(strip_prefix("file:///x", "file://"), Some("/x"));
    assert_eq!(strip_prefix("memory://", "file://"), None);
    assert_eq!(trim("  a b \t\n"), "a b");
    assert!(contains("LLMApiGrammar", "Api"));
    assert!(!contains("Grammar", "Api"));
    assert!(contains("x", ""));
    assert_eq!(replace_all("a;b;c", ";", "\n  "), "a\n  b\n  c");
    assert_eq!(replace_all("x: ℕ; y: ℕ", "ℕ", "\\nat"), "x: \\nat; y: \\nat");
    assert_eq!(replace_all("aaa", "aa", "b"), "ba");
    assert_eq!(replace_all("abc", "", "x"), "abc");
    assert_eq!(remove_char("a_b_c", '_'), "abc");
}

#[test]
fn grammar_file_defaults_and_comments() {
    let content = "// a comment: ignored\n# also: ignored\nrule_a : X Y ;;\r\nrule_b:Z";
    let g = parse_grammar_file(content, GrammarType::Yacc).unwrap();
    assert_eq!(g.name, "unnamed_grammar");
    assert_eq!(g.start_rule, "start");
    assert_eq!(g.rules.len(), 2);
    assert_eq!(g.rules[0].name, "rule_a");
    assert_eq!(g.rules[0].production, "X Y ");
    assert_eq!(g.rules[1].name, "rule_b");
    assert_eq!(g.rules[1].production, "Z");
    assert!(g.rules.iter().all(|r| r.action.is_none()));
    assert_eq!(g.grammar_type, GrammarType::Yacc);
}

#[test]
fn grammar_file_without_rules_is_refused() {
    assert_eq!(parse_grammar_file("grammar Empty;\nstart x;\n", GrammarType::Antlr).unwrap_err(), GrammarError::NoRules);
    assert_eq!(parse_grammar_file("", GrammarType::Antlr).unwrap_err(), GrammarError::NoRules);
}

fn one_rule_grammar(grammar_type: GrammarType) -> GrammarDefinition {
    GrammarDefinition {
        name: "G".to_string(),
        grammar_type,
        rules: vec![GrammarRule {
            name: "start".to_string(),
            production: "A".to_string(),
            action: None,
        }],
        start_rule: "start".to_string(),
        metadata: HashMap::new(),
    }
}

#[test]
fn parse_trees_by_dialect() {
    let t = create_parser(one_rule_grammar(GrammarType::Antlr)).parse("héllo").unwrap();
    assert_eq!(t.node_type, "program");
    assert_eq!(t.value, Some("héllo".to_string()));
    assert_eq!(t.span, Some((0, 6)));
    assert!(t.children.is_empty());
    let t = create_parser(one_rule_grammar(GrammarType::Yacc)).parse("x").unwrap();
    assert_eq!(t.node_type, "yacc_program");
    let t = create_parser(one_rule_grammar(GrammarType::ZPlusPlus)).parse("x").unwrap();
    assert_eq!(t.node_type, "z_specification");
}

#[test]
fn languages_by_dialect() {
    let g = one_rule_grammar(GrammarType::Yacc);
    let p = create_parser(g.clone());
    assert!(p.generate_code(&g, "c").is_ok());
    assert!(p.generate_code(&g, "rust").unwrap().starts_with("// Generated YACC-style parser for grammar: G\n\n"));
    assert_eq!(p.generate_code(&g, "latex").unwrap_err(), GrammarError::UnsupportedLanguage);
    let g = one_rule_grammar(GrammarType::ZPlusPlus);
    let p = create_parser(g.clone());
    assert!(p.generate_code(&g, "latex").unwrap().starts_with("% Generated Z++ specification: G\n\n"));
    assert_eq!(p.generate_code(&g, "rust").unwrap_err(), GrammarError::UnsupportedLanguage);
    let g = one_rule_grammar(GrammarType::Antlr);
    let p = create_parser(g.clone());
    assert!(p.generate_code(&g, "typescript").unwrap().starts_with("// Generated TypeScript parser for grammar: G\n\n"));
    assert_eq!(p.generate_code(&g, "c").unwrap_err(), GrammarError::UnsupportedLanguage);
}

#[test]
fn validation_by_dialect() {
    let mut g = one_rule_grammar(GrammarType::Yacc);
    g.start_rule = "missing".to_string();
    let yacc = YaccParser::new(g.clone());
    assert!(yacc.validate_grammar(&g).is_ok());
    let antlr = create_parser(GrammarDefinition { grammar_type: GrammarType::Antlr, ..g.clone() });
    assert_eq!(antlr.validate_grammar(&g), Err(GrammarError::StartRuleNotFound));
    g.rules.clear();
    assert_eq!(yacc.validate_grammar(&g), Err(GrammarError::NoRules));
}

#[test]
fn yacc_default_actions() {
    let g = GrammarDefinition {
        name: "Q".to_string(),
        grammar_type: GrammarType::Yacc,
        rules: vec![
            GrammarRule { name: "expr".to_string(), production: "A".to_string(), action: None },
            GrammarRule { name: "stmt".to_string(), production: "B".to_string(), action: None },
            GrammarRule { name: "other".to_string(), production: "C".to_string(), action: None },
        ],
        start_rule: "expr".to_string(),
        metadata: HashMap::new(),
    };
    let code = YaccParser::new(g.clone()).generate_code(&g, "c").unwrap();
    assert!(code.contains("expr : A { printf(\"Expression evaluated\\n\"); };\n"));
    assert!(code.contains("stmt : B { printf(\"Statement executed\\n\"); };\n"));
    assert!(code.contains("other : C { printf(\"Rule matched: other\\n\"); };\n"));
    assert!(!code.contains("#include <sqlite3.h>"));
    assert!(code.contains("    printf(\"Starting Q Parser\\n\");\n"));
}
