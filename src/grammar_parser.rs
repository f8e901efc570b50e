use std::collections::HashMap;

use vstd::prelude::*;

use crate::grammar_codegen::{
    antlr_rust_code, antlr_rust_spec, antlr_typescript_code, antlr_typescript_spec, yacc_c_code,
    yacc_c_spec, yacc_rust_code, yacc_rust_spec, zpp_latex_code, zpp_latex_spec, zpp_markdown_code,
    zpp_markdown_spec,
};
use crate::text::str_equal;

verus! {

/// One rule of a grammar: its name, what it produces, and an optional
/// semantic action.
#[derive(Debug, Clone)]
pub struct GrammarRule {
    pub name: String,
    pub production: String,
    pub action: Option<String>,
}

/// The dialect a grammar is written in.
#[derive(Debug, Clone, Copy, PartialEq, Eq, Structural)]
pub enum GrammarType {
    Antlr,
    Yacc,
    ZPlusPlus,
}

/// A grammar: its rules, the rule to start from, and free-form metadata.
#[derive(Debug, Clone)]
pub struct GrammarDefinition {
    pub name: String,
    pub grammar_type: GrammarType,
    pub rules: Vec<GrammarRule>,
    pub start_rule: String,
    pub metadata: HashMap<String, String>,
}

/// A node of a parse tree.
#[derive(Debug)]
pub struct ParseTree {
    pub node_type: String,
    pub value: Option<String>,
    pub children: Vec<ParseTree>,
    pub span: Option<(usize, usize)>,
}

/// Why a grammar operation failed.
#[derive(Clone, Copy, Debug, PartialEq, Eq, Structural)]
pub enum GrammarError {
    /// The grammar has no rule.
    NoRules,
    /// No rule bears the name of the start rule.
    StartRuleNotFound,
    /// The parser cannot generate code in the language asked for.
    UnsupportedLanguage,
    /// No grammar of that name is loaded.
    GrammarNotFound,
}

impl GrammarError {
    /// The sentence that tells a user what went wrong.
    pub open spec fn message_spec(self) -> Seq<char> {
        match self {
            GrammarError::NoRules => "Grammar must have at least one rule"@,
            GrammarError::StartRuleNotFound => "Start rule not found in grammar rules"@,
            GrammarError::UnsupportedLanguage => "Unsupported target language"@,
            GrammarError::GrammarNotFound => "Grammar not found"@,
        }
    }

    pub fn message(&self) -> (r: String)
        ensures
            r@ == self.message_spec(),
    {
        let m = match self {
            GrammarError::NoRules => "Grammar must have at least one rule",
            GrammarError::StartRuleNotFound => "Start rule not found in grammar rules",
            GrammarError::UnsupportedLanguage => "Unsupported target language",
            GrammarError::GrammarNotFound => "Grammar not found",
        };
        m.to_owned()
    }
}

/// The dialect that a request names: `antlr`, `yacc`, or `z++` / `zpp`.
pub open spec fn grammar_type_named(name: Seq<char>) -> Option<GrammarType> {
    if name == "antlr"@ {
        Some(GrammarType::Antlr)
    } else if name == "yacc"@ {
        Some(GrammarType::Yacc)
    } else if name == "z++"@ || name == "zpp"@ {
        Some(GrammarType::ZPlusPlus)
    } else {
        None
    }
}

pub fn grammar_type_from_name(name: &str) -> (r: Option<GrammarType>)
    ensures
        r == grammar_type_named(name@),
{
    if str_equal(name, "antlr") {
        Some(GrammarType::Antlr)
    } else if str_equal(name, "yacc") {
        Some(GrammarType::Yacc)
    } else if str_equal(name, "z++") || str_equal(name, "zpp") {
        Some(GrammarType::ZPlusPlus)
    } else {
        None
    }
}

/// Whether some rule of `rules` is named `name`.
pub open spec fn has_rule_named(rules: Seq<GrammarRule>, name: Seq<char>) -> bool {
    exists|i: int| 0 <= i < rules.len() && (#[trigger] rules[i]).name@ == name
}

/// The tree that a parser makes of an input: one node of the parser's type
/// holding the whole input, with its span in bytes.
pub open spec fn is_whole_input_tree(t: ParseTree, node_type: Seq<char>, input: Seq<char>, n_bytes: nat) -> bool {
    &&& t.node_type@ == node_type
    &&& t.value is Some
    &&& t.value->Some_0@ == input
    &&& t.children@.len() == 0
    &&& t.span == Some((0usize, n_bytes as usize))
}

fn whole_input_tree(node_type: &str, input: &str) -> (r: ParseTree)
    ensures
        is_whole_input_tree(r, node_type@, input@, input.len() as nat),
{
    ParseTree {
        node_type: node_type.to_owned(),
        value: Some(input.to_owned()),
        children: Vec::new(),
        span: Some((0, input.len())),
    }
}

/// Whether some rule is named like the grammar's start rule.
pub fn has_start_rule(grammar: &GrammarDefinition) -> (r: bool)
    ensures
        r == has_rule_named(grammar.rules@, grammar.start_rule@),
{
    let mut i: usize = 0;
    while i < grammar.rules.len()
        invariant
            i <= grammar.rules@.len(),
            forall|j: int| 0 <= j < i ==> (#[trigger] grammar.rules@[j]).name@ != grammar.start_rule@,
        decreases grammar.rules@.len() - i,
    {
        if grammar.rules[i].name == grammar.start_rule {
            return true;
        }
        i = i + 1;
    }
    false
}

/// What every grammar parser offers.
pub trait GrammarParser {
    fn parse(&self, input: &str) -> Result<ParseTree, GrammarError>;

    fn validate_grammar(&self, grammar: &GrammarDefinition) -> Result<(), GrammarError>;

    fn generate_code(&self, grammar: &GrammarDefinition, language: &str) -> Result<String, GrammarError>;
}

/// A parser for ANTLR-style grammars.
pub struct AntlrParser {
    pub grammar: GrammarDefinition,
}

/// A parser for YACC-style grammars.
pub struct YaccParser {
    pub grammar: GrammarDefinition,
}

/// A parser for Z++ formal specifications.
pub struct ZPlusPlusParser {
    pub grammar: GrammarDefinition,
}

impl AntlrParser {
    pub fn new(grammar: GrammarDefinition) -> (r: AntlrParser)
        ensures
            r.grammar == grammar,
    {
        AntlrParser { grammar }
    }

    /// The whole input, as one `program` node.
    pub fn parse(&self, input: &str) -> (r: Result<ParseTree, GrammarError>)
        ensures
            r is Ok && is_whole_input_tree(r->Ok_0, "program"@, input@, input.len() as nat),
    {
        Ok(whole_input_tree("program", input))
    }

    /// A grammar is valid when it has a rule and one of its rules is the start rule.
    pub fn validate_grammar(&self, grammar: &GrammarDefinition) -> (r: Result<(), GrammarError>)
        ensures
            r == if grammar.rules@.len() == 0 {
                Err(GrammarError::NoRules)
            } else if !has_rule_named(grammar.rules@, grammar.start_rule@) {
                Err(GrammarError::StartRuleNotFound)
            } else {
                Ok(())
            },
    {
        if grammar.rules.len() == 0 {
            Err(GrammarError::NoRules)
        } else if !has_start_rule(grammar) {
            Err(GrammarError::StartRuleNotFound)
        } else {
            Ok(())
        }
    }
}

impl AntlrParser {
    /// Code for the grammar in `rust` or `typescript`; other languages are refused.
    pub fn generate_code(&self, grammar: &GrammarDefinition, language: &str) -> (r: Result<String, GrammarError>)
        ensures
            language@ == "rust"@ ==> r is Ok && r->Ok_0@ == antlr_rust_spec(*grammar),
            language@ == "typescript"@ ==> r is Ok && r->Ok_0@ == antlr_typescript_spec(*grammar),
            language@ != "rust"@ && language@ != "typescript"@ ==> r == Err::<String, GrammarError>(
                GrammarError::UnsupportedLanguage,
            ),
    {
        AntlrParser::generate_code_for(grammar, language)
    }

    pub fn generate_code_for(grammar: &GrammarDefinition, language: &str) -> (r: Result<String, GrammarError>)
        ensures
            language@ == "rust"@ ==> r is Ok && r->Ok_0@ == antlr_rust_spec(*grammar),
            language@ == "typescript"@ ==> r is Ok && r->Ok_0@ == antlr_typescript_spec(*grammar),
            language@ != "rust"@ && language@ != "typescript"@ ==> r == Err::<String, GrammarError>(
                GrammarError::UnsupportedLanguage,
            ),
    {
        proof {
            reveal_strlit("rust");
            reveal_strlit("typescript");
            assert("rust"@.len() != "typescript"@.len());
        }
        if str_equal(language, "rust") {
            Ok(antlr_rust_code(grammar))
        } else if str_equal(language, "typescript") {
            Ok(antlr_typescript_code(grammar))
        } else {
            Err(GrammarError::UnsupportedLanguage)
        }
    }
}

impl YaccParser {
    /// Code for the grammar in `c` or `rust`; other languages are refused.
    pub fn generate_code(&self, grammar: &GrammarDefinition, language: &str) -> (r: Result<String, GrammarError>)
        ensures
            language@ == "c"@ ==> r is Ok && r->Ok_0@ == yacc_c_spec(*grammar),
            language@ == "rust"@ ==> r is Ok && r->Ok_0@ == yacc_rust_spec(*grammar),
            language@ != "c"@ && language@ != "rust"@ ==> r == Err::<String, GrammarError>(
                GrammarError::UnsupportedLanguage,
            ),
    {
        YaccParser::generate_code_for(grammar, language)
    }

    pub fn generate_code_for(grammar: &GrammarDefinition, language: &str) -> (r: Result<String, GrammarError>)
        ensures
            language@ == "c"@ ==> r is Ok && r->Ok_0@ == yacc_c_spec(*grammar),
            language@ == "rust"@ ==> r is Ok && r->Ok_0@ == yacc_rust_spec(*grammar),
            language@ != "c"@ && language@ != "rust"@ ==> r == Err::<String, GrammarError>(
                GrammarError::UnsupportedLanguage,
            ),
    {
        proof {
            reveal_strlit("c");
            reveal_strlit("rust");
            assert("c"@.len() != "rust"@.len());
        }
        if str_equal(language, "c") {
            Ok(yacc_c_code(grammar))
        } else if str_equal(language, "rust") {
            Ok(yacc_rust_code(grammar))
        } else {
            Err(GrammarError::UnsupportedLanguage)
        }
    }
}

impl ZPlusPlusParser {
    /// A document for the specification in `latex` or `markdown`; other
    /// languages are refused.
    pub fn generate_code(&self, grammar: &GrammarDefinition, language: &str) -> (r: Result<String, GrammarError>)
        ensures
            language@ == "latex"@ ==> r is Ok && r->Ok_0@ == zpp_latex_spec(*grammar),
            language@ == "markdown"@ ==> r is Ok && r->Ok_0@ == zpp_markdown_spec(*grammar),
            language@ != "latex"@ && language@ != "markdown"@ ==> r == Err::<String, GrammarError>(
                GrammarError::UnsupportedLanguage,
            ),
    {
        ZPlusPlusParser::generate_code_for(grammar, language)
    }

    pub fn generate_code_for(grammar: &GrammarDefinition, language: &str) -> (r: Result<String, GrammarError>)
        ensures
            language@ == "latex"@ ==> r is Ok && r->Ok_0@ == zpp_latex_spec(*grammar),
            language@ == "markdown"@ ==> r is Ok && r->Ok_0@ == zpp_markdown_spec(*grammar),
            language@ != "latex"@ && language@ != "markdown"@ ==> r == Err::<String, GrammarError>(
                GrammarError::UnsupportedLanguage,
            ),
    {
        proof {
            reveal_strlit("latex");
            reveal_strlit("markdown");
            assert("latex"@.len() != "markdown"@.len());
        }
        if str_equal(language, "latex") {
            Ok(zpp_latex_code(grammar))
        } else if str_equal(language, "markdown") {
            Ok(zpp_markdown_code(grammar))
        } else {
            Err(GrammarError::UnsupportedLanguage)
        }
    }
}

impl YaccParser {
    pub fn new(grammar: GrammarDefinition) -> (r: YaccParser)
        ensures
            r.grammar == grammar,
    {
        YaccParser { grammar }
    }

    /// The whole input, as one `yacc_program` node.
    pub fn parse(&self, input: &str) -> (r: Result<ParseTree, GrammarError>)
        ensures
            r is Ok && is_whole_input_tree(r->Ok_0, "yacc_program"@, input@, input.len() as nat),
    {
        Ok(whole_input_tree("yacc_program", input))
    }

    /// A grammar is valid when it has a rule.
    pub fn validate_grammar(&self, grammar: &GrammarDefinition) -> (r: Result<(), GrammarError>)
        ensures
            r == if grammar.rules@.len() == 0 {
                Err(GrammarError::NoRules)
            } else {
                Ok(())
            },
    {
        if grammar.rules.len() == 0 {
            Err(GrammarError::NoRules)
        } else {
            Ok(())
        }
    }
}

impl ZPlusPlusParser {
    pub fn new(grammar: GrammarDefinition) -> (r: ZPlusPlusParser)
        ensures
            r.grammar == grammar,
    {
        ZPlusPlusParser { grammar }
    }

    /// The whole input, as one `z_specification` node.
    pub fn parse(&self, input: &str) -> (r: Result<ParseTree, GrammarError>)
        ensures
            r is Ok && is_whole_input_tree(r->Ok_0, "z_specification"@, input@, input.len() as nat),
    {
        Ok(whole_input_tree("z_specification", input))
    }

    /// A specification is valid when it has a schema.
    pub fn validate_grammar(&self, grammar: &GrammarDefinition) -> (r: Result<(), GrammarError>)
        ensures
            r == if grammar.rules@.len() == 0 {
                Err(GrammarError::NoRules)
            } else {
                Ok(())
            },
    {
        if grammar.rules.len() == 0 {
            Err(GrammarError::NoRules)
        } else {
            Ok(())
        }
    }
}

/// The name of the root node that a dialect's parser makes.
pub open spec fn root_node_type_of(grammar_type: GrammarType) -> Seq<char> {
    match grammar_type {
        GrammarType::Antlr => "program"@,
        GrammarType::Yacc => "yacc_program"@,
        GrammarType::ZPlusPlus => "z_specification"@,
    }
}

/// Whether a dialect's parser generates code in `language`.
pub open spec fn supports_language_of(grammar_type: GrammarType, language: Seq<char>) -> bool {
    match grammar_type {
        GrammarType::Antlr => language == "rust"@ || language == "typescript"@,
        GrammarType::Yacc => language == "c"@ || language == "rust"@,
        GrammarType::ZPlusPlus => language == "latex"@ || language == "markdown"@,
    }
}

/// The code that a dialect's parser generates for a grammar in a language
/// it supports.
pub open spec fn code_for(grammar: GrammarDefinition, language: Seq<char>) -> Seq<char> {
    match grammar.grammar_type {
        GrammarType::Antlr => if language == "rust"@ {
            antlr_rust_spec(grammar)
        } else {
            antlr_typescript_spec(grammar)
        },
        GrammarType::Yacc => if language == "c"@ {
            yacc_c_spec(grammar)
        } else {
            yacc_rust_spec(grammar)
        },
        GrammarType::ZPlusPlus => if language == "latex"@ {
            zpp_latex_spec(grammar)
        } else {
            zpp_markdown_spec(grammar)
        },
    }
}

/// A parser of any of the supported dialects.
pub enum AnyGrammarParser {
    Antlr(AntlrParser),
    Yacc(YaccParser),
    ZPlusPlus(ZPlusPlusParser),
}

impl AnyGrammarParser {
    pub open spec fn grammar_type_spec(&self) -> GrammarType {
        match self {
            AnyGrammarParser::Antlr(_) => GrammarType::Antlr,
            AnyGrammarParser::Yacc(_) => GrammarType::Yacc,
            AnyGrammarParser::ZPlusPlus(_) => GrammarType::ZPlusPlus,
        }
    }

    /// The name of the root node this parser makes.
    pub open spec fn root_node_type(&self) -> Seq<char> {
        root_node_type_of(self.grammar_type_spec())
    }

    pub fn parse(&self, input: &str) -> (r: Result<ParseTree, GrammarError>)
        ensures
            r is Ok && is_whole_input_tree(r->Ok_0, self.root_node_type(), input@, input.len() as nat),
    {
        match self {
            AnyGrammarParser::Antlr(p) => p.parse(input),
            AnyGrammarParser::Yacc(p) => p.parse(input),
            AnyGrammarParser::ZPlusPlus(p) => p.parse(input),
        }
    }

    pub fn validate_grammar(&self, grammar: &GrammarDefinition) -> (r: Result<(), GrammarError>)
        ensures
            r == if grammar.rules@.len() == 0 {
                Err(GrammarError::NoRules)
            } else if self is Antlr && !has_rule_named(grammar.rules@, grammar.start_rule@) {
                Err(GrammarError::StartRuleNotFound)
            } else {
                Ok(())
            },
    {
        match self {
            AnyGrammarParser::Antlr(p) => p.validate_grammar(grammar),
            AnyGrammarParser::Yacc(p) => p.validate_grammar(grammar),
            AnyGrammarParser::ZPlusPlus(p) => p.validate_grammar(grammar),
        }
    }
}

impl AnyGrammarParser {
    /// Whether this parser generates code in `language`.
    pub open spec fn supports_language(&self, language: Seq<char>) -> bool {
        supports_language_of(self.grammar_type_spec(), language)
    }

    pub fn generate_code(&self, grammar: &GrammarDefinition, language: &str) -> (r: Result<String, GrammarError>)
        ensures
            self.supports_language(language@) <==> r is Ok,
            r is Ok ==> r->Ok_0@ == code_for(
                GrammarDefinition { grammar_type: self.grammar_type_spec(), ..*grammar },
                language@,
            ),
            !self.supports_language(language@) ==> r == Err::<String, GrammarError>(
                GrammarError::UnsupportedLanguage,
            ),
    {
        match self {
            AnyGrammarParser::Antlr(p) => p.generate_code(grammar, language),
            AnyGrammarParser::Yacc(p) => p.generate_code(grammar, language),
            AnyGrammarParser::ZPlusPlus(p) => p.generate_code(grammar, language),
        }
    }
}

impl GrammarParser for AntlrParser {
    fn parse(&self, input: &str) -> Result<ParseTree, GrammarError> {
        AntlrParser::parse(self, input)
    }

    fn validate_grammar(&self, grammar: &GrammarDefinition) -> Result<(), GrammarError> {
        AntlrParser::validate_grammar(self, grammar)
    }

    fn generate_code(&self, grammar: &GrammarDefinition, language: &str) -> Result<String, GrammarError> {
        AntlrParser::generate_code(self, grammar, language)
    }
}

impl GrammarParser for YaccParser {
    fn parse(&self, input: &str) -> Result<ParseTree, GrammarError> {
        YaccParser::parse(self, input)
    }

    fn validate_grammar(&self, grammar: &GrammarDefinition) -> Result<(), GrammarError> {
        YaccParser::validate_grammar(self, grammar)
    }

    fn generate_code(&self, grammar: &GrammarDefinition, language: &str) -> Result<String, GrammarError> {
        YaccParser::generate_code(self, grammar, language)
    }
}

impl GrammarParser for ZPlusPlusParser {
    fn parse(&self, input: &str) -> Result<ParseTree, GrammarError> {
        ZPlusPlusParser::parse(self, input)
    }

    fn validate_grammar(&self, grammar: &GrammarDefinition) -> Result<(), GrammarError> {
        ZPlusPlusParser::validate_grammar(self, grammar)
    }

    fn generate_code(&self, grammar: &GrammarDefinition, language: &str) -> Result<String, GrammarError> {
        ZPlusPlusParser::generate_code(self, grammar, language)
    }
}

impl GrammarParser for AnyGrammarParser {
    fn parse(&self, input: &str) -> Result<ParseTree, GrammarError> {
        AnyGrammarParser::parse(self, input)
    }

    fn validate_grammar(&self, grammar: &GrammarDefinition) -> Result<(), GrammarError> {
        AnyGrammarParser::validate_grammar(self, grammar)
    }

    fn generate_code(&self, grammar: &GrammarDefinition, language: &str) -> Result<String, GrammarError> {
        AnyGrammarParser::generate_code(self, grammar, language)
    }
}

/// Parses `input` with the parser of a dialect.
pub fn parse_with(grammar_type: GrammarType, input: &str) -> (r: Result<ParseTree, GrammarError>)
    ensures
        r is Ok && is_whole_input_tree(r->Ok_0, root_node_type_of(grammar_type), input@, input.len() as nat),
{
    match grammar_type {
        GrammarType::Antlr => Ok(whole_input_tree("program", input)),
        GrammarType::Yacc => Ok(whole_input_tree("yacc_program", input)),
        GrammarType::ZPlusPlus => Ok(whole_input_tree("z_specification", input)),
    }
}

/// Generates code for a grammar with the parser of its dialect.
pub fn generate_with(grammar: &GrammarDefinition, language: &str) -> (r: Result<String, GrammarError>)
    ensures
        supports_language_of(grammar.grammar_type, language@) <==> r is Ok,
        r is Ok ==> r->Ok_0@ == code_for(*grammar, language@),
        !supports_language_of(grammar.grammar_type, language@) ==> r == Err::<String, GrammarError>(
            GrammarError::UnsupportedLanguage,
        ),
{
    match grammar.grammar_type {
        GrammarType::Antlr => AntlrParser::generate_code_for(grammar, language),
        GrammarType::Yacc => YaccParser::generate_code_for(grammar, language),
        GrammarType::ZPlusPlus => ZPlusPlusParser::generate_code_for(grammar, language),
    }
}

/// The parser for the grammar's dialect.
pub fn create_parser(grammar: GrammarDefinition) -> (r: AnyGrammarParser)
    ensures
        match grammar.grammar_type {
            GrammarType::Antlr => r is Antlr && r->Antlr_0.grammar == grammar,
            GrammarType::Yacc => r is Yacc && r->Yacc_0.grammar == grammar,
            GrammarType::ZPlusPlus => r is ZPlusPlus && r->ZPlusPlus_0.grammar == grammar,
        },
{
    match grammar.grammar_type {
        GrammarType::Antlr => AnyGrammarParser::Antlr(AntlrParser::new(grammar)),
        GrammarType::Yacc => AnyGrammarParser::Yacc(YaccParser::new(grammar)),
        GrammarType::ZPlusPlus => AnyGrammarParser::ZPlusPlus(ZPlusPlusParser::new(grammar)),
    }
}

} // verus!
