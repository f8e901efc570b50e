use vstd::prelude::*;

use crate::grammar_parser::{GrammarDefinition, GrammarRule};
use crate::text::{
    append_str, contains, contains_spec, lemma_contains_concat, lemma_contains_trans, occurs_at, remove_char, remove_char_spec, replace_all, replace_spec,
    uppercase_char, uppercase_of,
};

verus! {

/// A rule or grammar name as a type name: its first character upper-cased,
/// the underscores of the rest dropped.
pub open spec fn capitalized(name: Seq<char>) -> Seq<char> {
    if name.len() == 0 {
        Seq::empty()
    } else {
        uppercase_of(name[0]) + remove_char_spec(name.skip(1), '_')
    }
}

pub fn capitalize_rule_name(name: &str) -> (r: String)
    ensures
        r@ == capitalized(name@),
{
    let n = name.unicode_len();
    if n == 0 {
        return String::new();
    }
    let mut out = uppercase_char(name.get_char(0));
    let rest = remove_char(name.substring_char(1, n), '_');
    append_str(&mut out, rest.as_str());
    assert(name@.subrange(1, n as int) =~= name@.skip(1));
    out
}

/// Whether a name mentions either word.
pub open spec fn mentions_spec(name: Seq<char>, a: Seq<char>, b: Seq<char>) -> bool {
    contains_spec(name, a) || contains_spec(name, b)
}

/// Whether a name mentions either word.
pub fn mentions(name: &str, a: &str, b: &str) -> (r: bool)
    ensures
        r == mentions_spec(name@, a@, b@),
{
    contains(name, a) || contains(name, b)
}

/// The first line of the Rust code generated from an ANTLR grammar.
pub open spec fn antlr_rust_header(name: Seq<char>) -> Seq<char> {
    "// Generated parser for grammar: "@ + name + "\n\n"@
}

/// The first line of the TypeScript code generated from an ANTLR grammar.
pub open spec fn antlr_typescript_header(name: Seq<char>) -> Seq<char> {
    "// Generated TypeScript parser for grammar: "@ + name + "\n\n"@
}

/// The first line of the C code generated from a YACC grammar.
pub open spec fn yacc_c_header(name: Seq<char>) -> Seq<char> {
    "/* Generated YACC parser for grammar: "@ + name + " */\n\n"@
}

/// The first line of the Rust code generated from a YACC grammar.
pub open spec fn yacc_rust_header(name: Seq<char>) -> Seq<char> {
    "// Generated YACC-style parser for grammar: "@ + name + "\n\n"@
}

/// The first line of the LaTeX generated from a Z++ specification.
pub open spec fn zpp_latex_header(name: Seq<char>) -> Seq<char> {
    "% Generated Z++ specification: "@ + name + "\n\n"@
}

/// The first line of the Markdown generated from a Z++ specification.
pub open spec fn zpp_markdown_header(name: Seq<char>) -> Seq<char> {
    "# Z++ Specification: "@ + name + "\n\n"@
}

/// `before`, then `name`, then `after`, as a new string.
fn framed(before: &str, name: &str, after: &str) -> (r: String)
    ensures
        r@ == before@ + name@ + after@,
{
    let mut out = before.to_owned();
    append_str(&mut out, name);
    append_str(&mut out, after);
    out
}

/// A production in LaTeX: each Z notation symbol as its macro.
pub open spec fn latex_notation_spec(production: Seq<char>) -> Seq<char> {
    replace_spec(replace_spec(replace_spec(replace_spec(replace_spec(replace_spec(replace_spec(replace_spec(replace_spec(replace_spec(replace_spec(replace_spec(replace_spec(replace_spec(replace_spec(replace_spec(replace_spec(replace_spec(replace_spec(replace_spec(replace_spec(replace_spec(replace_spec(replace_spec(replace_spec(replace_spec(replace_spec(replace_spec(production, "ℕ"@, "\\nat"@), "ℝ"@, "\\real"@), "𝔽"@, "\\finset"@), "ℤ"@, "\\integer"@), "𝔹"@, "\\bool"@), "ℙ"@, "\\power"@), "⤔"@, "\\pfun"@), "→"@, "\\fun"@), "↦"@, "\\mapsto"@), "∈"@, "\\in"@), "∉"@, "\\notin"@), "∀"@, "\\forall"@), "∃"@, "\\exists"@), "⇒"@, "\\implies"@), "∧"@, "\\land"@), "∨"@, "\\lor"@), "¬"@, "\\lnot"@), "≤"@, "\\leq"@), "≥"@, "\\geq"@), "≠"@, "\\neq"@), "∅"@, "\\emptyset"@), "⟨"@, "\\langle"@), "⟩"@, "\\rangle"@), "⋃"@, "\\bigcup"@), "⋂"@, "\\bigcap"@), "Σ"@, "\\sum"@), "Δ"@, "\\Delta"@), "Ξ"@, "\\Xi"@)
}

fn latex_notation(production: &str) -> (r: String)
    ensures
        r@ == latex_notation_spec(production@),
{
    let p = replace_all(production, "ℕ", "\\nat");
    let p = replace_all(p.as_str(), "ℝ", "\\real");
    let p = replace_all(p.as_str(), "𝔽", "\\finset");
    let p = replace_all(p.as_str(), "ℤ", "\\integer");
    let p = replace_all(p.as_str(), "𝔹", "\\bool");
    let p = replace_all(p.as_str(), "ℙ", "\\power");
    let p = replace_all(p.as_str(), "⤔", "\\pfun");
    let p = replace_all(p.as_str(), "→", "\\fun");
    let p = replace_all(p.as_str(), "↦", "\\mapsto");
    let p = replace_all(p.as_str(), "∈", "\\in");
    let p = replace_all(p.as_str(), "∉", "\\notin");
    let p = replace_all(p.as_str(), "∀", "\\forall");
    let p = replace_all(p.as_str(), "∃", "\\exists");
    let p = replace_all(p.as_str(), "⇒", "\\implies");
    let p = replace_all(p.as_str(), "∧", "\\land");
    let p = replace_all(p.as_str(), "∨", "\\lor");
    let p = replace_all(p.as_str(), "¬", "\\lnot");
    let p = replace_all(p.as_str(), "≤", "\\leq");
    let p = replace_all(p.as_str(), "≥", "\\geq");
    let p = replace_all(p.as_str(), "≠", "\\neq");
    let p = replace_all(p.as_str(), "∅", "\\emptyset");
    let p = replace_all(p.as_str(), "⟨", "\\langle");
    let p = replace_all(p.as_str(), "⟩", "\\rangle");
    let p = replace_all(p.as_str(), "⋃", "\\bigcup");
    let p = replace_all(p.as_str(), "⋂", "\\bigcap");
    let p = replace_all(p.as_str(), "Σ", "\\sum");
    let p = replace_all(p.as_str(), "Δ", "\\Delta");
    replace_all(p.as_str(), "Ξ", "\\Xi")
}

/// A schema rule is named a schema.
pub open spec fn is_schema_rule(r: GrammarRule) -> bool {
    mentions_spec(r.name@, "schema"@, "Schema"@)
}

/// A theorem rule is named a theorem, and is no schema.
pub open spec fn is_theorem_rule(r: GrammarRule) -> bool {
    !is_schema_rule(r) && mentions_spec(r.name@, "theorem"@, "Theorem"@)
}

/// An operation rule is neither a schema nor a theorem.
pub open spec fn is_operation_rule(r: GrammarRule) -> bool {
    !is_schema_rule(r) && !mentions_spec(r.name@, "theorem"@, "Theorem"@)
}

fn is_schema_rule_exec(rule: &GrammarRule) -> (b: bool)
    ensures
        b == is_schema_rule(*rule),
{
    mentions(rule.name.as_str(), "schema", "Schema")
}

fn is_theorem_rule_exec(rule: &GrammarRule) -> (b: bool)
    ensures
        b == is_theorem_rule(*rule),
{
    !is_schema_rule_exec(rule) && mentions(rule.name.as_str(), "theorem", "Theorem")
}

fn is_operation_rule_exec(rule: &GrammarRule) -> (b: bool)
    ensures
        b == is_operation_rule(*rule),
{
    !is_schema_rule_exec(rule) && !mentions(rule.name.as_str(), "theorem", "Theorem")
}

pub open spec fn has_operation_rule(rules: Seq<GrammarRule>) -> bool {
    exists|i: int| 0 <= i < rules.len() && is_operation_rule(#[trigger] rules[i])
}

pub open spec fn has_theorem_rule(rules: Seq<GrammarRule>) -> bool {
    exists|i: int| 0 <= i < rules.len() && is_theorem_rule(#[trigger] rules[i])
}

/// Whether some rule is an operation (`theorems == false`) or a theorem.
fn any_rule_of_kind(rules: &Vec<GrammarRule>, theorems: bool) -> (b: bool)
    ensures
        b == if theorems {
            has_theorem_rule(rules@)
        } else {
            has_operation_rule(rules@)
        },
{
    let mut i: usize = 0;
    while i < rules.len()
        invariant
            i <= rules@.len(),
            theorems ==> forall|j: int| 0 <= j < i ==> !is_theorem_rule(#[trigger] rules@[j]),
            !theorems ==> forall|j: int| 0 <= j < i ==> !is_operation_rule(#[trigger] rules@[j]),
        decreases rules@.len() - i,
    {
        let hit = if theorems {
            is_theorem_rule_exec(&rules[i])
        } else {
            is_operation_rule_exec(&rules[i])
        };
        if hit {
            return true;
        }
        i = i + 1;
    }
    false
}

/// The declarations of a YACC specification in C, with those that a resource or query grammar calls for.
pub open spec fn yacc_c_prologue_spec(name: Seq<char>) -> Seq<char> {
    "%{\n#include <stdio.h>\n#include <stdlib.h>\n#include <string.h>\n\n"@ + (if mentions_spec(name, "resource"@, "Resource"@) { "#include <math.h>\n#include <sys/resource.h>\n"@ } else { Seq::<char>::empty() }) + (if mentions_spec(name, "query"@, "Query"@) { "#include <sqlite3.h>\n"@ } else { Seq::<char>::empty() }) + "\n// Forward declarations\nint yylex(void);\nvoid yyerror(const char *s);\n\n"@ + (if mentions_spec(name, "resource"@, "Resource"@) { "// Resource management structures\ntypedef struct {\n    char *name;\n    double value;\n    int allocated;\n} Resource;\n\n"@ } else { Seq::<char>::empty() }) + "%}\n\n// Token declarations\n%union {\n    double num;\n    char *str;\n    int ival;\n}\n\n%token <num> NUMBER\n%token <str> IDENTIFIER STRING\n%token <ival> INTEGER\n\n"@ + (if mentions_spec(name, "resource"@, "Resource"@) { "// Resource management tokens\n%token ALLOCATE DEALLOCATE RESOURCE AGENT\n%token CPU MEMORY GPU LOAD OPTIMIZE\n\n"@ } else { Seq::<char>::empty() }) + (if mentions_spec(name, "query"@, "Query"@) { "// Query language tokens\n%token SELECT FROM WHERE LIMIT ORDER BY\n%token MODEL INFERENCE EMBEDDING COMPLETION\n\n"@ } else { Seq::<char>::empty() }) + "// Operator precedence\n%left OR\n%left AND\n%right NOT\n%left EQ NE LT LE GT GE\n%left '+' '-'\n%left '*' '/' '%'\n%right '^'\n%right UMINUS\n\n%%\n\n// Grammar rules\n"@
}

#[verifier::rlimit(40)]
fn yacc_c_prologue(name: &str) -> (r: String)
    ensures
        r@ == yacc_c_prologue_spec(name@),
{
    let mut out = String::new();
    append_str(&mut out, "%{\n#include <stdio.h>\n#include <stdlib.h>\n#include <string.h>\n\n");
    if mentions(name, "resource", "Resource") {
        append_str(&mut out, "#include <math.h>\n#include <sys/resource.h>\n");
    }
    if mentions(name, "query", "Query") {
        append_str(&mut out, "#include <sqlite3.h>\n");
    }
    append_str(&mut out, "\n// Forward declarations\nint yylex(void);\nvoid yyerror(const char *s);\n\n");
    if mentions(name, "resource", "Resource") {
        append_str(&mut out, "// Resource management structures\ntypedef struct {\n    char *name;\n    double value;\n    int allocated;\n} Resource;\n\n");
    }
    append_str(&mut out, "%}\n\n// Token declarations\n%union {\n    double num;\n    char *str;\n    int ival;\n}\n\n%token <num> NUMBER\n%token <str> IDENTIFIER STRING\n%token <ival> INTEGER\n\n");
    if mentions(name, "resource", "Resource") {
        append_str(&mut out, "// Resource management tokens\n%token ALLOCATE DEALLOCATE RESOURCE AGENT\n%token CPU MEMORY GPU LOAD OPTIMIZE\n\n");
    }
    if mentions(name, "query", "Query") {
        append_str(&mut out, "// Query language tokens\n%token SELECT FROM WHERE LIMIT ORDER BY\n%token MODEL INFERENCE EMBEDDING COMPLETION\n\n");
    }
    append_str(&mut out, "// Operator precedence\n%left OR\n%left AND\n%right NOT\n%left EQ NE LT LE GT GE\n%left '+' '-'\n%left '*' '/' '%'\n%right '^'\n%right UMINUS\n\n%%\n\n// Grammar rules\n");
    assert(out@ =~= yacc_c_prologue_spec(name@));
    out
}

/// One rule of a YACC specification: its production and its action, or a default action that reports the match.
pub open spec fn yacc_c_rule_spec(r: GrammarRule) -> Seq<char> {
    r.name@ + " : "@ + r.production@ + " "@ + (match r.action { Some(a) => "{ "@ + a@ + " }"@, None => (if mentions_spec(r.name@, "expression"@, "expr"@) { "{ printf(\"Expression evaluated\\n\"); }"@ } else { (if mentions_spec(r.name@, "statement"@, "stmt"@) { "{ printf(\"Statement executed\\n\"); }"@ } else { "{ printf(\"Rule matched: "@ + r.name@ + "\\n\"); }"@ }) }) }) + ";\n"@
}

fn yacc_c_rule(rule: &GrammarRule) -> (r: String)
    ensures
        r@ == yacc_c_rule_spec(*rule),
{
    let mut out = String::new();
    append_str(&mut out, rule.name.as_str());
    append_str(&mut out, " : ");
    append_str(&mut out, rule.production.as_str());
    append_str(&mut out, " ");
    match &rule.action {
        Some(action) => {
            append_str(&mut out, "{ ");
            append_str(&mut out, action.as_str());
            append_str(&mut out, " }");
        },
        None => {
            if mentions(rule.name.as_str(), "expression", "expr") {
                append_str(&mut out, "{ printf(\"Expression evaluated\\n\"); }");
            } else {
                if mentions(rule.name.as_str(), "statement", "stmt") {
                    append_str(&mut out, "{ printf(\"Statement executed\\n\"); }");
                } else {
                    append_str(&mut out, "{ printf(\"Rule matched: ");
                    append_str(&mut out, rule.name.as_str());
                    append_str(&mut out, "\\n\"); }");
                }
            }
        },
    }
    append_str(&mut out, ";\n");
    assert(out@ =~= yacc_c_rule_spec(*rule));
    out
}

/// The rules of a YACC specification, in order.
pub open spec fn yacc_c_rules_spec(rules: Seq<GrammarRule>) -> Seq<char>
    decreases rules.len(),
{
    if rules.len() == 0 {
        Seq::empty()
    } else {
        yacc_c_rules_spec(rules.drop_last()) + yacc_c_rule_spec(rules.last())
    }
}

fn yacc_c_rules(rules: &Vec<GrammarRule>) -> (r: String)
    ensures
        r@ == yacc_c_rules_spec(rules@),
{
    let mut out = String::new();
    let mut i: usize = 0;
    while i < rules.len()
        invariant
            i <= rules@.len(),
            out@ == yacc_c_rules_spec(rules@.take(i as int)),
        decreases rules@.len() - i,
    {
        let line = yacc_c_rule(&rules[i]);
        proof {
            assert(rules@.take(i + 1).drop_last() =~= rules@.take(i as int));
        }
        append_str(&mut out, line.as_str());
        assert(out@ == yacc_c_rules_spec(rules@.take(i + 1)));
        i = i + 1;
    }
    assert(rules@.take(i as int) =~= rules@);
    out
}

/// The error handler and entry point that end a YACC specification.
pub open spec fn yacc_c_epilogue_spec(name: Seq<char>) -> Seq<char> {
    "\n%%\n\nvoid yyerror(const char *s) {\n    fprintf(stderr, \"Parser Error: %s\\n\", s);\n}\n\nint main(void) {\n    printf(\"Starting "@ + name + " Parser\\n\");\n    return yyparse();\n}\n"@
}

fn yacc_c_epilogue(name: &str) -> (r: String)
    ensures
        r@ == yacc_c_epilogue_spec(name@),
{
    let mut out = String::new();
    append_str(&mut out, "\n%%\n\nvoid yyerror(const char *s) {\n    fprintf(stderr, \"Parser Error: %s\\n\", s);\n}\n\nint main(void) {\n    printf(\"Starting ");
    append_str(&mut out, name);
    append_str(&mut out, " Parser\\n\");\n    return yyparse();\n}\n");
    assert(out@ =~= yacc_c_epilogue_spec(name@));
    out
}

/// One rule as a Rust comment.
pub open spec fn yacc_rust_rule_spec(r: GrammarRule) -> Seq<char> {
    "// YACC Rule: "@ + r.name@ + " : "@ + r.production@ + "\n"@
}

fn yacc_rust_rule(rule: &GrammarRule) -> (r: String)
    ensures
        r@ == yacc_rust_rule_spec(*rule),
{
    let mut out = String::new();
    append_str(&mut out, "// YACC Rule: ");
    append_str(&mut out, rule.name.as_str());
    append_str(&mut out, " : ");
    append_str(&mut out, rule.production.as_str());
    append_str(&mut out, "\n");
    assert(out@ =~= yacc_rust_rule_spec(*rule));
    out
}

/// The rules as Rust comments, in order.
pub open spec fn yacc_rust_rules_spec(rules: Seq<GrammarRule>) -> Seq<char>
    decreases rules.len(),
{
    if rules.len() == 0 {
        Seq::empty()
    } else {
        yacc_rust_rules_spec(rules.drop_last()) + yacc_rust_rule_spec(rules.last())
    }
}

fn yacc_rust_rules(rules: &Vec<GrammarRule>) -> (r: String)
    ensures
        r@ == yacc_rust_rules_spec(rules@),
{
    let mut out = String::new();
    let mut i: usize = 0;
    while i < rules.len()
        invariant
            i <= rules@.len(),
            out@ == yacc_rust_rules_spec(rules@.take(i as int)),
        decreases rules@.len() - i,
    {
        let line = yacc_rust_rule(&rules[i]);
        proof {
            assert(rules@.take(i + 1).drop_last() =~= rules@.take(i as int));
        }
        append_str(&mut out, line.as_str());
        assert(out@ == yacc_rust_rules_spec(rules@.take(i + 1)));
        i = i + 1;
    }
    assert(rules@.take(i as int) =~= rules@);
    out
}

/// The opening of the generated Rust code, up to the AST node variants.
pub open spec fn antlr_rust_preamble_spec() -> Seq<char> {
    "use serde::{Deserialize, Serialize};\nuse std::collections::HashMap;\n\n// AST Node definitions\n#[derive(Debug, Clone, Serialize, Deserialize)]\npub enum AstNode {\n"@
}

fn antlr_rust_preamble() -> (r: String)
    ensures
        r@ == antlr_rust_preamble_spec(),
{
    let mut out = String::new();
    append_str(&mut out, "use serde::{Deserialize, Serialize};\nuse std::collections::HashMap;\n\n// AST Node definitions\n#[derive(Debug, Clone, Serialize, Deserialize)]\npub enum AstNode {\n");
    assert(out@ =~= antlr_rust_preamble_spec());
    out
}

/// The AST node variant of a rule.
pub open spec fn antlr_rust_variant_spec(r: GrammarRule) -> Seq<char> {
    "    "@ + capitalized(r.name@) + "("@ + capitalized(r.name@) + "Node),\n"@
}

fn antlr_rust_variant(rule: &GrammarRule) -> (r: String)
    ensures
        r@ == antlr_rust_variant_spec(*rule),
{
    let mut out = String::new();
    append_str(&mut out, "    ");
    append_str(&mut out, capitalize_rule_name(rule.name.as_str()).as_str());
    append_str(&mut out, "(");
    append_str(&mut out, capitalize_rule_name(rule.name.as_str()).as_str());
    append_str(&mut out, "Node),\n");
    assert(out@ =~= antlr_rust_variant_spec(*rule));
    out
}

/// The AST node variants, one per rule.
pub open spec fn antlr_rust_variants_spec(rules: Seq<GrammarRule>) -> Seq<char>
    decreases rules.len(),
{
    if rules.len() == 0 {
        Seq::empty()
    } else {
        antlr_rust_variants_spec(rules.drop_last()) + antlr_rust_variant_spec(rules.last())
    }
}

fn antlr_rust_variants(rules: &Vec<GrammarRule>) -> (r: String)
    ensures
        r@ == antlr_rust_variants_spec(rules@),
{
    let mut out = String::new();
    let mut i: usize = 0;
    while i < rules.len()
        invariant
            i <= rules@.len(),
            out@ == antlr_rust_variants_spec(rules@.take(i as int)),
        decreases rules@.len() - i,
    {
        let line = antlr_rust_variant(&rules[i]);
        proof {
            assert(rules@.take(i + 1).drop_last() =~= rules@.take(i as int));
        }
        append_str(&mut out, line.as_str());
        assert(out@ == antlr_rust_variants_spec(rules@.take(i + 1)));
        i = i + 1;
    }
    assert(rules@.take(i as int) =~= rules@);
    out
}

/// The node type of a rule; a grammar for an LLM API also gets parameters and metadata.
pub open spec fn antlr_rust_struct_spec(r: GrammarRule, api: bool) -> Seq<char> {
    "#[derive(Debug, Clone, Serialize, Deserialize)]\npub struct "@ + capitalized(r.name@) + "Node {\n    pub rule_name: String,\n    pub production: String,\n    pub children: Vec<AstNode>,\n    pub text: Option<String>,\n    pub span: Option<(usize, usize)>,\n"@ + (if api { "    pub parameters: Option<HashMap<String, String>>,\n    pub metadata: Option<HashMap<String, serde_json::Value>>,\n"@ } else { Seq::<char>::empty() }) + "}\n\n"@
}

fn antlr_rust_struct(rule: &GrammarRule, api: bool) -> (r: String)
    ensures
        r@ == antlr_rust_struct_spec(*rule, api),
{
    let mut out = String::new();
    append_str(&mut out, "#[derive(Debug, Clone, Serialize, Deserialize)]\npub struct ");
    append_str(&mut out, capitalize_rule_name(rule.name.as_str()).as_str());
    append_str(&mut out, "Node {\n    pub rule_name: String,\n    pub production: String,\n    pub children: Vec<AstNode>,\n    pub text: Option<String>,\n    pub span: Option<(usize, usize)>,\n");
    if api {
        append_str(&mut out, "    pub parameters: Option<HashMap<String, String>>,\n    pub metadata: Option<HashMap<String, serde_json::Value>>,\n");
    }
    append_str(&mut out, "}\n\n");
    assert(out@ =~= antlr_rust_struct_spec(*rule, api));
    out
}

/// The node types, one per rule.
pub open spec fn antlr_rust_structs_spec(rules: Seq<GrammarRule>, api: bool) -> Seq<char>
    decreases rules.len(),
{
    if rules.len() == 0 {
        Seq::empty()
    } else {
        antlr_rust_structs_spec(rules.drop_last(), api) + antlr_rust_struct_spec(rules.last(), api)
    }
}

fn antlr_rust_structs(rules: &Vec<GrammarRule>, api: bool) -> (r: String)
    ensures
        r@ == antlr_rust_structs_spec(rules@, api),
{
    let mut out = String::new();
    let mut i: usize = 0;
    while i < rules.len()
        invariant
            i <= rules@.len(),
            out@ == antlr_rust_structs_spec(rules@.take(i as int), api),
        decreases rules@.len() - i,
    {
        let line = antlr_rust_struct(&rules[i], api);
        proof {
            assert(rules@.take(i + 1).drop_last() =~= rules@.take(i as int));
        }
        append_str(&mut out, line.as_str());
        assert(out@ == antlr_rust_structs_spec(rules@.take(i + 1), api));
        i = i + 1;
    }
    assert(rules@.take(i as int) =~= rules@);
    out
}

/// The parser type of the generated Rust code, whose root node is that of `root_rule`.
pub open spec fn antlr_rust_parser_spec(name: Seq<char>, root_rule: Seq<char>, api: bool) -> Seq<char> {
    "// Parser implementation for "@ + name + "\n#[derive(Debug)]\npub struct "@ + capitalized(name) + "Parser {\n    grammar_name: String,\n}\n\nimpl "@ + capitalized(name) + "Parser {\n    pub fn new() -> Self {\n        Self { grammar_name: \""@ + name + "\".to_string() }\n    }\n\n    pub fn parse(&self, input: &str) -> Result<AstNode, String> {\n        // Basic parsing implementation - would use ANTLR runtime in production\n        let root = AstNode::"@ + capitalized(root_rule) + "("@ + capitalized(root_rule) + "Node {\n            rule_name: \"program\".to_string(),\n            production: \"start\".to_string(),\n            children: vec![],\n            text: Some(input.to_string()),\n            span: Some((0, input.len())),\n"@ + (if api { "            parameters: Some(HashMap::new()),\n            metadata: Some(HashMap::new()),\n"@ } else { Seq::<char>::empty() }) + "        });\n        Ok(root)\n    }\n}\n\n// Grammar Rules:\n"@
}

#[verifier::rlimit(40)]
fn antlr_rust_parser(name: &str, root_rule: &str, api: bool) -> (r: String)
    ensures
        r@ == antlr_rust_parser_spec(name@, root_rule@, api),
{
    let mut out = String::new();
    append_str(&mut out, "// Parser implementation for ");
    append_str(&mut out, name);
    append_str(&mut out, "\n#[derive(Debug)]\npub struct ");
    append_str(&mut out, capitalize_rule_name(name).as_str());
    append_str(&mut out, "Parser {\n    grammar_name: String,\n}\n\nimpl ");
    append_str(&mut out, capitalize_rule_name(name).as_str());
    append_str(&mut out, "Parser {\n    pub fn new() -> Self {\n        Self { grammar_name: \"");
    append_str(&mut out, name);
    append_str(&mut out, "\".to_string() }\n    }\n\n    pub fn parse(&self, input: &str) -> Result<AstNode, String> {\n        // Basic parsing implementation - would use ANTLR runtime in production\n        let root = AstNode::");
    append_str(&mut out, capitalize_rule_name(root_rule).as_str());
    append_str(&mut out, "(");
    append_str(&mut out, capitalize_rule_name(root_rule).as_str());
    append_str(&mut out, "Node {\n            rule_name: \"program\".to_string(),\n            production: \"start\".to_string(),\n            children: vec![],\n            text: Some(input.to_string()),\n            span: Some((0, input.len())),\n");
    if api {
        append_str(&mut out, "            parameters: Some(HashMap::new()),\n            metadata: Some(HashMap::new()),\n");
    }
    append_str(&mut out, "        });\n        Ok(root)\n    }\n}\n\n// Grammar Rules:\n");
    assert(out@ =~= antlr_rust_parser_spec(name@, root_rule@, api));
    out
}

/// A rule as a comment, with its action if it has one.
pub open spec fn antlr_rust_comment_spec(r: GrammarRule) -> Seq<char> {
    "// "@ + r.name@ + ": "@ + r.production@ + "\n"@ + (match r.action { Some(a) => "//   Action: "@ + a@ + "\n"@, None => Seq::<char>::empty() })
}

fn antlr_rust_comment(rule: &GrammarRule) -> (r: String)
    ensures
        r@ == antlr_rust_comment_spec(*rule),
{
    let mut out = String::new();
    append_str(&mut out, "// ");
    append_str(&mut out, rule.name.as_str());
    append_str(&mut out, ": ");
    append_str(&mut out, rule.production.as_str());
    append_str(&mut out, "\n");
    match &rule.action {
        Some(action) => {
            append_str(&mut out, "//   Action: ");
            append_str(&mut out, action.as_str());
            append_str(&mut out, "\n");
        },
        None => {},
    }
    assert(out@ =~= antlr_rust_comment_spec(*rule));
    out
}

/// The rules as comments, in order.
pub open spec fn antlr_rust_comments_spec(rules: Seq<GrammarRule>) -> Seq<char>
    decreases rules.len(),
{
    if rules.len() == 0 {
        Seq::empty()
    } else {
        antlr_rust_comments_spec(rules.drop_last()) + antlr_rust_comment_spec(rules.last())
    }
}

fn antlr_rust_comments(rules: &Vec<GrammarRule>) -> (r: String)
    ensures
        r@ == antlr_rust_comments_spec(rules@),
{
    let mut out = String::new();
    let mut i: usize = 0;
    while i < rules.len()
        invariant
            i <= rules@.len(),
            out@ == antlr_rust_comments_spec(rules@.take(i as int)),
        decreases rules@.len() - i,
    {
        let line = antlr_rust_comment(&rules[i]);
        proof {
            assert(rules@.take(i + 1).drop_last() =~= rules@.take(i as int));
        }
        append_str(&mut out, line.as_str());
        assert(out@ == antlr_rust_comments_spec(rules@.take(i + 1)));
        i = i + 1;
    }
    assert(rules@.take(i as int) =~= rules@);
    out
}

/// The base node interface of the generated TypeScript.
pub open spec fn antlr_ts_preamble_spec(api: bool) -> Seq<char> {
    "// AST Node Types\nexport interface AstNode {\n  type: string;\n  text?: string;\n  children: AstNode[];\n  span?: [number, number];\n"@ + (if api { "  parameters?: Record<string, any>;\n  metadata?: Record<string, any>;\n"@ } else { Seq::<char>::empty() }) + "}\n\n"@
}

fn antlr_ts_preamble(api: bool) -> (r: String)
    ensures
        r@ == antlr_ts_preamble_spec(api),
{
    let mut out = String::new();
    append_str(&mut out, "// AST Node Types\nexport interface AstNode {\n  type: string;\n  text?: string;\n  children: AstNode[];\n  span?: [number, number];\n");
    if api {
        append_str(&mut out, "  parameters?: Record<string, any>;\n  metadata?: Record<string, any>;\n");
    }
    append_str(&mut out, "}\n\n");
    assert(out@ =~= antlr_ts_preamble_spec(api));
    out
}

/// The node interface of a rule.
pub open spec fn antlr_ts_interface_spec(r: GrammarRule) -> Seq<char> {
    "export interface "@ + capitalized(r.name@) + "Node extends AstNode {\n  type: '"@ + r.name@ + "';\n  production: '"@ + r.production@ + "';\n}\n\n"@
}

fn antlr_ts_interface(rule: &GrammarRule) -> (r: String)
    ensures
        r@ == antlr_ts_interface_spec(*rule),
{
    let mut out = String::new();
    append_str(&mut out, "export interface ");
    append_str(&mut out, capitalize_rule_name(rule.name.as_str()).as_str());
    append_str(&mut out, "Node extends AstNode {\n  type: '");
    append_str(&mut out, rule.name.as_str());
    append_str(&mut out, "';\n  production: '");
    append_str(&mut out, rule.production.as_str());
    append_str(&mut out, "';\n}\n\n");
    assert(out@ =~= antlr_ts_interface_spec(*rule));
    out
}

/// The node interfaces, one per rule.
pub open spec fn antlr_ts_interfaces_spec(rules: Seq<GrammarRule>) -> Seq<char>
    decreases rules.len(),
{
    if rules.len() == 0 {
        Seq::empty()
    } else {
        antlr_ts_interfaces_spec(rules.drop_last()) + antlr_ts_interface_spec(rules.last())
    }
}

fn antlr_ts_interfaces(rules: &Vec<GrammarRule>) -> (r: String)
    ensures
        r@ == antlr_ts_interfaces_spec(rules@),
{
    let mut out = String::new();
    let mut i: usize = 0;
    while i < rules.len()
        invariant
            i <= rules@.len(),
            out@ == antlr_ts_interfaces_spec(rules@.take(i as int)),
        decreases rules@.len() - i,
    {
        let line = antlr_ts_interface(&rules[i]);
        proof {
            assert(rules@.take(i + 1).drop_last() =~= rules@.take(i as int));
        }
        append_str(&mut out, line.as_str());
        assert(out@ == antlr_ts_interfaces_spec(rules@.take(i + 1)));
        i = i + 1;
    }
    assert(rules@.take(i as int) =~= rules@);
    out
}

/// The start of the parser class, up to its list of rule names.
pub open spec fn antlr_ts_class_spec(name: Seq<char>, api: bool) -> Seq<char> {
    "export class "@ + capitalized(name) + "Parser {\n  private grammarName = '"@ + name + "';\n\n  parse(input: string): AstNode {\n    // Basic parsing implementation - would use ANTLR runtime in production\n    return {\n      type: 'program',\n      text: input,\n      children: [],\n      span: [0, input.length],\n"@ + (if api { "      parameters: {},\n      metadata: {},\n"@ } else { Seq::<char>::empty() }) + "    };\n  }\n\n  validate(node: AstNode): boolean {\n    // Validation logic would go here\n    return node.type !== undefined;\n  }\n\n  getGrammarInfo(): { name: string; rules: string[] } {\n    return {\n      name: '"@ + name + "',\n      rules: [\n"@
}

#[verifier::rlimit(40)]
fn antlr_ts_class(name: &str, api: bool) -> (r: String)
    ensures
        r@ == antlr_ts_class_spec(name@, api),
{
    let mut out = String::new();
    append_str(&mut out, "export class ");
    append_str(&mut out, capitalize_rule_name(name).as_str());
    append_str(&mut out, "Parser {\n  private grammarName = '");
    append_str(&mut out, name);
    append_str(&mut out, "';\n\n  parse(input: string): AstNode {\n    // Basic parsing implementation - would use ANTLR runtime in production\n    return {\n      type: 'program',\n      text: input,\n      children: [],\n      span: [0, input.length],\n");
    if api {
        append_str(&mut out, "      parameters: {},\n      metadata: {},\n");
    }
    append_str(&mut out, "    };\n  }\n\n  validate(node: AstNode): boolean {\n    // Validation logic would go here\n    return node.type !== undefined;\n  }\n\n  getGrammarInfo(): { name: string; rules: string[] } {\n    return {\n      name: '");
    append_str(&mut out, name);
    append_str(&mut out, "',\n      rules: [\n");
    assert(out@ =~= antlr_ts_class_spec(name@, api));
    out
}

/// A rule name in the parser's list of rules.
pub open spec fn antlr_ts_rule_name_spec(r: GrammarRule) -> Seq<char> {
    "        '"@ + r.name@ + "',\n"@
}

fn antlr_ts_rule_name(rule: &GrammarRule) -> (r: String)
    ensures
        r@ == antlr_ts_rule_name_spec(*rule),
{
    let mut out = String::new();
    append_str(&mut out, "        '");
    append_str(&mut out, rule.name.as_str());
    append_str(&mut out, "',\n");
    assert(out@ =~= antlr_ts_rule_name_spec(*rule));
    out
}

/// The rule names, in order.
pub open spec fn antlr_ts_rule_names_spec(rules: Seq<GrammarRule>) -> Seq<char>
    decreases rules.len(),
{
    if rules.len() == 0 {
        Seq::empty()
    } else {
        antlr_ts_rule_names_spec(rules.drop_last()) + antlr_ts_rule_name_spec(rules.last())
    }
}

fn antlr_ts_rule_names(rules: &Vec<GrammarRule>) -> (r: String)
    ensures
        r@ == antlr_ts_rule_names_spec(rules@),
{
    let mut out = String::new();
    let mut i: usize = 0;
    while i < rules.len()
        invariant
            i <= rules@.len(),
            out@ == antlr_ts_rule_names_spec(rules@.take(i as int)),
        decreases rules@.len() - i,
    {
        let line = antlr_ts_rule_name(&rules[i]);
        proof {
            assert(rules@.take(i + 1).drop_last() =~= rules@.take(i as int));
        }
        append_str(&mut out, line.as_str());
        assert(out@ == antlr_ts_rule_names_spec(rules@.take(i + 1)));
        i = i + 1;
    }
    assert(rules@.take(i as int) =~= rules@);
    out
}

/// The end of the parser class and the default export.
pub open spec fn antlr_ts_epilogue_spec(name: Seq<char>) -> Seq<char> {
    "      ],\n    };\n  }\n}\n\nexport default "@ + capitalized(name) + "Parser;\n"@
}

fn antlr_ts_epilogue(name: &str) -> (r: String)
    ensures
        r@ == antlr_ts_epilogue_spec(name@),
{
    let mut out = String::new();
    append_str(&mut out, "      ],\n    };\n  }\n}\n\nexport default ");
    append_str(&mut out, capitalize_rule_name(name).as_str());
    append_str(&mut out, "Parser;\n");
    assert(out@ =~= antlr_ts_epilogue_spec(name@));
    out
}

/// The preamble and introduction of a LaTeX specification.
pub open spec fn latex_preamble_spec(name: Seq<char>) -> Seq<char> {
    "\\documentclass[11pt]{{article}}\n\\usepackage{{oz}}\n\\usepackage{{zed-csp}}\n\\usepackage{{amsmath}}\n\\usepackage{{amssymb}}\n\\usepackage{{theorem}}\n\n\\title{"@ + name + " Formal Specification}\n\\author{{Generated by Grammar Service}}\n\\date{{\\today}}\n\n\\begin{{document}}\n\\maketitle\n\n\\section{{Introduction}}\nThis document presents the formal Z++ specification for "@ + name + ".\n\n"@ + (if mentions_spec(name, "LLM"@, "Inference"@) { "This specification models the behavior and properties of Large Language Model inference systems, including request processing, resource management, and system invariants.\n\n"@ } else { Seq::<char>::empty() }) + "\\section{{Formal Specifications}}\n\n"@
}

fn latex_preamble(name: &str) -> (r: String)
    ensures
        r@ == latex_preamble_spec(name@),
{
    let mut out = String::new();
    append_str(&mut out, "\\documentclass[11pt]{{article}}\n\\usepackage{{oz}}\n\\usepackage{{zed-csp}}\n\\usepackage{{amsmath}}\n\\usepackage{{amssymb}}\n\\usepackage{{theorem}}\n\n\\title{");
    append_str(&mut out, name);
    append_str(&mut out, " Formal Specification}\n\\author{{Generated by Grammar Service}}\n\\date{{\\today}}\n\n\\begin{{document}}\n\\maketitle\n\n\\section{{Introduction}}\nThis document presents the formal Z++ specification for ");
    append_str(&mut out, name);
    append_str(&mut out, ".\n\n");
    if mentions(name, "LLM", "Inference") {
        append_str(&mut out, "This specification models the behavior and properties of Large Language Model inference systems, including request processing, resource management, and system invariants.\n\n");
    }
    append_str(&mut out, "\\section{{Formal Specifications}}\n\n");
    assert(out@ =~= latex_preamble_spec(name@));
    out
}

/// A rule in LaTeX: a schema box when its production declares natural numbers, a definition otherwise; then its action.
pub open spec fn latex_rule_spec(r: GrammarRule) -> Seq<char> {
    (if contains_spec(r.production@, ":"@) && contains_spec(r.production@, "ℕ"@) { "\\begin{schema}{"@ + r.name@ + "}\n"@ + latex_notation_spec(r.production@) + "\n\\end{{schema}}\n\n"@ } else { "\\subsection{"@ + r.name@ + "}\n\\["@ + r.name@ + " \\defs "@ + r.production@ + "\\]\n\n"@ }) + (match r.action { Some(a) => "\\textbf{Semantic Action:} "@ + a@ + "\n\n"@, None => Seq::<char>::empty() })
}

fn latex_rule(rule: &GrammarRule) -> (r: String)
    ensures
        r@ == latex_rule_spec(*rule),
{
    let mut out = String::new();
    if contains(rule.production.as_str(), ":") && contains(rule.production.as_str(), "ℕ") {
        append_str(&mut out, "\\begin{schema}{");
        append_str(&mut out, rule.name.as_str());
        append_str(&mut out, "}\n");
        append_str(&mut out, latex_notation(rule.production.as_str()).as_str());
        append_str(&mut out, "\n\\end{{schema}}\n\n");
    } else {
        append_str(&mut out, "\\subsection{");
        append_str(&mut out, rule.name.as_str());
        append_str(&mut out, "}\n\\[");
        append_str(&mut out, rule.name.as_str());
        append_str(&mut out, " \\defs ");
        append_str(&mut out, rule.production.as_str());
        append_str(&mut out, "\\]\n\n");
    }
    match &rule.action {
        Some(action) => {
            append_str(&mut out, "\\textbf{Semantic Action:} ");
            append_str(&mut out, action.as_str());
            append_str(&mut out, "\n\n");
        },
        None => {},
    }
    assert(out@ =~= latex_rule_spec(*rule));
    out
}

/// The rules in LaTeX, in order.
pub open spec fn latex_rules_spec(rules: Seq<GrammarRule>) -> Seq<char>
    decreases rules.len(),
{
    if rules.len() == 0 {
        Seq::empty()
    } else {
        latex_rules_spec(rules.drop_last()) + latex_rule_spec(rules.last())
    }
}

fn latex_rules(rules: &Vec<GrammarRule>) -> (r: String)
    ensures
        r@ == latex_rules_spec(rules@),
{
    let mut out = String::new();
    let mut i: usize = 0;
    while i < rules.len()
        invariant
            i <= rules@.len(),
            out@ == latex_rules_spec(rules@.take(i as int)),
        decreases rules@.len() - i,
    {
        let line = latex_rule(&rules[i]);
        proof {
            assert(rules@.take(i + 1).drop_last() =~= rules@.take(i as int));
        }
        append_str(&mut out, line.as_str());
        assert(out@ == latex_rules_spec(rules@.take(i + 1)));
        i = i + 1;
    }
    assert(rules@.take(i as int) =~= rules@);
    out
}

/// The theorems that close the specification of a system or workflow.
pub open spec fn latex_theorems_spec(name: Seq<char>) -> Seq<char> {
    (if mentions_spec(name, "System"@, "Workflow"@) { "\\section{{Theorems and Properties}}\n\n\\begin{{theorem}}[Safety]\nThe system maintains its safety invariants at all times.\n\\end{{theorem}}\n\n\\begin{{theorem}}[Liveness]\nThe system makes progress and does not deadlock.\n\\end{{theorem}}\n\n\\begin{{theorem}}[Correctness]\nAll operations preserve system consistency.\n\\end{{theorem}}\n\n"@ } else { Seq::<char>::empty() })
}

fn latex_theorems(name: &str) -> (r: String)
    ensures
        r@ == latex_theorems_spec(name@),
{
    let mut out = String::new();
    if mentions(name, "System", "Workflow") {
        append_str(&mut out, "\\section{{Theorems and Properties}}\n\n\\begin{{theorem}}[Safety]\nThe system maintains its safety invariants at all times.\n\\end{{theorem}}\n\n\\begin{{theorem}}[Liveness]\nThe system makes progress and does not deadlock.\n\\end{{theorem}}\n\n\\begin{{theorem}}[Correctness]\nAll operations preserve system consistency.\n\\end{{theorem}}\n\n");
    }
    assert(out@ =~= latex_theorems_spec(name@));
    out
}

/// The table of contents and overview of a Markdown specification, up to its schemas heading.
pub open spec fn md_intro_spec(name: Seq<char>) -> Seq<char> {
    "## Table of Contents\n\n1. [Overview](#overview)\n2. [Schemas](#schemas)\n3. [Operations](#operations)\n4. [Invariants](#invariants)\n5. [Theorems](#theorems)\n\n## Overview\n\n"@ + (if mentions_spec(name, "LLM"@, "Inference"@) { "This Z++ specification models the formal behavior of a Large Language Model inference system. It defines the mathematical properties, state transitions, and safety/liveness properties that govern the system's operation.\n\n"@ } else { (if contains_spec(name, "System"@) { "This Z++ specification provides a formal mathematical model of the system, including its state space, operations, and correctness properties.\n\n"@ } else { Seq::<char>::empty() }) }) + "## Schemas\n\n"@
}

fn md_intro(name: &str) -> (r: String)
    ensures
        r@ == md_intro_spec(name@),
{
    let mut out = String::new();
    append_str(&mut out, "## Table of Contents\n\n1. [Overview](#overview)\n2. [Schemas](#schemas)\n3. [Operations](#operations)\n4. [Invariants](#invariants)\n5. [Theorems](#theorems)\n\n## Overview\n\n");
    if mentions(name, "LLM", "Inference") {
        append_str(&mut out, "This Z++ specification models the formal behavior of a Large Language Model inference system. It defines the mathematical properties, state transitions, and safety/liveness properties that govern the system's operation.\n\n");
    } else {
        if contains(name, "System") {
            append_str(&mut out, "This Z++ specification provides a formal mathematical model of the system, including its state space, operations, and correctness properties.\n\n");
        }
    }
    append_str(&mut out, "## Schemas\n\n");
    assert(out@ =~= md_intro_spec(name@));
    out
}

/// The section of a schema rule; nothing for another rule.
pub open spec fn md_schema_spec(r: GrammarRule) -> Seq<char> {
    (if is_schema_rule(r) { "### "@ + r.name@ + "\n\n```z\nschema "@ + r.name@ + "\n  "@ + replace_spec(r.production@, ";"@, "\n  "@) + "\n```\n\n"@ + (match r.action { Some(a) => "**Semantic Action:** `"@ + a@ + "`\n\n"@, None => Seq::<char>::empty() }) } else { Seq::<char>::empty() })
}

fn md_schema(rule: &GrammarRule) -> (r: String)
    ensures
        r@ == md_schema_spec(*rule),
{
    let mut out = String::new();
    if is_schema_rule_exec(rule) {
        append_str(&mut out, "### ");
        append_str(&mut out, rule.name.as_str());
        append_str(&mut out, "\n\n```z\nschema ");
        append_str(&mut out, rule.name.as_str());
        append_str(&mut out, "\n  ");
        append_str(&mut out, replace_all(rule.production.as_str(), ";", "\n  ").as_str());
        append_str(&mut out, "\n```\n\n");
        match &rule.action {
            Some(action) => {
                append_str(&mut out, "**Semantic Action:** `");
                append_str(&mut out, action.as_str());
                append_str(&mut out, "`\n\n");
            },
            None => {},
        }
    }
    assert(out@ =~= md_schema_spec(*rule));
    out
}

/// The schema sections, in the order of the rules.
pub open spec fn md_schemas_spec(rules: Seq<GrammarRule>) -> Seq<char>
    decreases rules.len(),
{
    if rules.len() == 0 {
        Seq::empty()
    } else {
        md_schemas_spec(rules.drop_last()) + md_schema_spec(rules.last())
    }
}

fn md_schemas(rules: &Vec<GrammarRule>) -> (r: String)
    ensures
        r@ == md_schemas_spec(rules@),
{
    let mut out = String::new();
    let mut i: usize = 0;
    while i < rules.len()
        invariant
            i <= rules@.len(),
            out@ == md_schemas_spec(rules@.take(i as int)),
        decreases rules@.len() - i,
    {
        let line = md_schema(&rules[i]);
        proof {
            assert(rules@.take(i + 1).drop_last() =~= rules@.take(i as int));
        }
        append_str(&mut out, line.as_str());
        assert(out@ == md_schemas_spec(rules@.take(i + 1)));
        i = i + 1;
    }
    assert(rules@.take(i as int) =~= rules@);
    out
}

/// The section of an operation rule, described by what its name says it does; nothing for another rule.
pub open spec fn md_operation_spec(r: GrammarRule) -> Seq<char> {
    (if is_operation_rule(r) { "### "@ + r.name@ + "\n\n```z\n"@ + r.production@ + "\n```\n\n"@ + (if contains_spec(r.name@, "Init"@) { "*Initialization operation that sets up the initial system state.*\n\n"@ } else { (if contains_spec(r.name@, "Register"@) { "*Registration operation for adding new entities to the system.*\n\n"@ } else { (if contains_spec(r.name@, "Process"@) { "*Processing operation that handles system requests or commands.*\n\n"@ } else { (if contains_spec(r.name@, "Update"@) { "*Update operation that modifies existing system state.*\n\n"@ } else { Seq::<char>::empty() }) }) }) }) + (match r.action { Some(a) => "**Implementation Notes:** "@ + a@ + "\n\n"@, None => Seq::<char>::empty() }) } else { Seq::<char>::empty() })
}

fn md_operation(rule: &GrammarRule) -> (r: String)
    ensures
        r@ == md_operation_spec(*rule),
{
    let mut out = String::new();
    if is_operation_rule_exec(rule) {
        append_str(&mut out, "### ");
        append_str(&mut out, rule.name.as_str());
        append_str(&mut out, "\n\n```z\n");
        append_str(&mut out, rule.production.as_str());
        append_str(&mut out, "\n```\n\n");
        if contains(rule.name.as_str(), "Init") {
            append_str(&mut out, "*Initialization operation that sets up the initial system state.*\n\n");
        } else {
            if contains(rule.name.as_str(), "Register") {
                append_str(&mut out, "*Registration operation for adding new entities to the system.*\n\n");
            } else {
                if contains(rule.name.as_str(), "Process") {
                    append_str(&mut out, "*Processing operation that handles system requests or commands.*\n\n");
                } else {
                    if contains(rule.name.as_str(), "Update") {
                        append_str(&mut out, "*Update operation that modifies existing system state.*\n\n");
                    }
                }
            }
        }
        match &rule.action {
            Some(action) => {
                append_str(&mut out, "**Implementation Notes:** ");
                append_str(&mut out, action.as_str());
                append_str(&mut out, "\n\n");
            },
            None => {},
        }
    }
    assert(out@ =~= md_operation_spec(*rule));
    out
}

/// The operation sections, in the order of the rules.
pub open spec fn md_operations_spec(rules: Seq<GrammarRule>) -> Seq<char>
    decreases rules.len(),
{
    if rules.len() == 0 {
        Seq::empty()
    } else {
        md_operations_spec(rules.drop_last()) + md_operation_spec(rules.last())
    }
}

fn md_operations(rules: &Vec<GrammarRule>) -> (r: String)
    ensures
        r@ == md_operations_spec(rules@),
{
    let mut out = String::new();
    let mut i: usize = 0;
    while i < rules.len()
        invariant
            i <= rules@.len(),
            out@ == md_operations_spec(rules@.take(i as int)),
        decreases rules@.len() - i,
    {
        let line = md_operation(&rules[i]);
        proof {
            assert(rules@.take(i + 1).drop_last() =~= rules@.take(i as int));
        }
        append_str(&mut out, line.as_str());
        assert(out@ == md_operations_spec(rules@.take(i + 1)));
        i = i + 1;
    }
    assert(rules@.take(i as int) =~= rules@);
    out
}

/// The invariant line of a rule named an invariant or bounding a value; nothing for another rule.
pub open spec fn md_invariant_spec(r: GrammarRule) -> Seq<char> {
    (if contains_spec(r.name@, "Invariant"@) || contains_spec(r.production@, "≤"@) || contains_spec(r.production@, "≥"@) { "- **"@ + r.name@ + "**: "@ + r.production@ + "\n"@ } else { Seq::<char>::empty() })
}

fn md_invariant(rule: &GrammarRule) -> (r: String)
    ensures
        r@ == md_invariant_spec(*rule),
{
    let mut out = String::new();
    if contains(rule.name.as_str(), "Invariant") || contains(rule.production.as_str(), "≤") || contains(rule.production.as_str(), "≥") {
        append_str(&mut out, "- **");
        append_str(&mut out, rule.name.as_str());
        append_str(&mut out, "**: ");
        append_str(&mut out, rule.production.as_str());
        append_str(&mut out, "\n");
    }
    assert(out@ =~= md_invariant_spec(*rule));
    out
}

/// The invariant lines, in the order of the rules.
pub open spec fn md_invariants_spec(rules: Seq<GrammarRule>) -> Seq<char>
    decreases rules.len(),
{
    if rules.len() == 0 {
        Seq::empty()
    } else {
        md_invariants_spec(rules.drop_last()) + md_invariant_spec(rules.last())
    }
}

fn md_invariants(rules: &Vec<GrammarRule>) -> (r: String)
    ensures
        r@ == md_invariants_spec(rules@),
{
    let mut out = String::new();
    let mut i: usize = 0;
    while i < rules.len()
        invariant
            i <= rules@.len(),
            out@ == md_invariants_spec(rules@.take(i as int)),
        decreases rules@.len() - i,
    {
        let line = md_invariant(&rules[i]);
        proof {
            assert(rules@.take(i + 1).drop_last() =~= rules@.take(i as int));
        }
        append_str(&mut out, line.as_str());
        assert(out@ == md_invariants_spec(rules@.take(i + 1)));
        i = i + 1;
    }
    assert(rules@.take(i as int) =~= rules@);
    out
}

/// The section of a theorem rule; nothing for another rule.
pub open spec fn md_theorem_spec(r: GrammarRule) -> Seq<char> {
    (if is_theorem_rule(r) { "### "@ + r.name@ + "\n\n```z\n"@ + r.production@ + "\n```\n\n"@ + (if contains_spec(r.name@, "Safety"@) { "*This theorem ensures that the system maintains safety properties.*\n\n"@ } else { (if contains_spec(r.name@, "Liveness"@) { "*This theorem guarantees system progress and absence of deadlocks.*\n\n"@ } else { (if contains_spec(r.name@, "Correctness"@) { "*This theorem proves the correctness of system operations.*\n\n"@ } else { Seq::<char>::empty() }) }) }) } else { Seq::<char>::empty() })
}

fn md_theorem(rule: &GrammarRule) -> (r: String)
    ensures
        r@ == md_theorem_spec(*rule),
{
    let mut out = String::new();
    if is_theorem_rule_exec(rule) {
        append_str(&mut out, "### ");
        append_str(&mut out, rule.name.as_str());
        append_str(&mut out, "\n\n```z\n");
        append_str(&mut out, rule.production.as_str());
        append_str(&mut out, "\n```\n\n");
        if contains(rule.name.as_str(), "Safety") {
            append_str(&mut out, "*This theorem ensures that the system maintains safety properties.*\n\n");
        } else {
            if contains(rule.name.as_str(), "Liveness") {
                append_str(&mut out, "*This theorem guarantees system progress and absence of deadlocks.*\n\n");
            } else {
                if contains(rule.name.as_str(), "Correctness") {
                    append_str(&mut out, "*This theorem proves the correctness of system operations.*\n\n");
                }
            }
        }
    }
    assert(out@ =~= md_theorem_spec(*rule));
    out
}

/// The theorem sections, in the order of the rules.
pub open spec fn md_theorems_spec(rules: Seq<GrammarRule>) -> Seq<char>
    decreases rules.len(),
{
    if rules.len() == 0 {
        Seq::empty()
    } else {
        md_theorems_spec(rules.drop_last()) + md_theorem_spec(rules.last())
    }
}

fn md_theorems(rules: &Vec<GrammarRule>) -> (r: String)
    ensures
        r@ == md_theorems_spec(rules@),
{
    let mut out = String::new();
    let mut i: usize = 0;
    while i < rules.len()
        invariant
            i <= rules@.len(),
            out@ == md_theorems_spec(rules@.take(i as int)),
        decreases rules@.len() - i,
    {
        let line = md_theorem(&rules[i]);
        proof {
            assert(rules@.take(i + 1).drop_last() =~= rules@.take(i as int));
        }
        append_str(&mut out, line.as_str());
        assert(out@ == md_theorems_spec(rules@.take(i + 1)));
        i = i + 1;
    }
    assert(rules@.take(i as int) =~= rules@);
    out
}

/// The guide to Z notation that ends a Markdown specification.
pub open spec fn md_guide_spec() -> Seq<char> {
    "## Z++ Notation Guide\n\n| Symbol | Meaning |\n|--------|----------|\n| ℕ | Natural numbers |\n| ℝ | Real numbers |\n| ℤ | Integers |\n| 𝔹 | Boolean values |\n| 𝔽 | Finite sets |\n| ℙ | Power set |\n| → | Total function |\n| ⤔ | Partial function |\n| ∈ | Set membership |\n| ∀ | Universal quantifier |\n| ∃ | Existential quantifier |\n| ⇒ | Implication |\n| ∧ | Logical AND |\n| ∨ | Logical OR |\n| Δ | State change |\n| Ξ | No state change |\n\n"@
}

fn md_guide() -> (r: String)
    ensures
        r@ == md_guide_spec(),
{
    let mut out = String::new();
    append_str(&mut out, "## Z++ Notation Guide\n\n| Symbol | Meaning |\n|--------|----------|\n| ℕ | Natural numbers |\n| ℝ | Real numbers |\n| ℤ | Integers |\n| 𝔹 | Boolean values |\n| 𝔽 | Finite sets |\n| ℙ | Power set |\n| → | Total function |\n| ⤔ | Partial function |\n| ∈ | Set membership |\n| ∀ | Universal quantifier |\n| ∃ | Existential quantifier |\n| ⇒ | Implication |\n| ∧ | Logical AND |\n| ∨ | Logical OR |\n| Δ | State change |\n| Ξ | No state change |\n\n");
    assert(out@ =~= md_guide_spec());
    out
}

/// Rust code for an ANTLR grammar: AST node types, a parser skeleton and
/// the rules as comments; a grammar without rules yields only the fallback
/// parse expression.
pub open spec fn antlr_rust_spec(g: GrammarDefinition) -> Seq<char> {
    if g.rules@.len() == 0 {
        "        Ok(AstNode::Default)"@
    } else {
        let api = mentions_spec(g.name@, "LLM"@, "Api"@);
        antlr_rust_header(g.name@) + antlr_rust_preamble_spec() + antlr_rust_variants_spec(g.rules@) + "}\n\n"@
            + antlr_rust_structs_spec(g.rules@, api) + antlr_rust_parser_spec(g.name@, g.rules@[0].name@, api)
            + antlr_rust_comments_spec(g.rules@)
    }
}

pub fn antlr_rust_code(grammar: &GrammarDefinition) -> (r: String)
    ensures
        r@ == antlr_rust_spec(*grammar),
{
    let name = grammar.name.as_str();
    if grammar.rules.len() == 0 {
        return String::from_str("        Ok(AstNode::Default)");
    }
    let api = mentions(name, "LLM", "Api");
    let mut out = framed("// Generated parser for grammar: ", name, "\n\n");
    append_str(&mut out, antlr_rust_preamble().as_str());
    append_str(&mut out, antlr_rust_variants(&grammar.rules).as_str());
    append_str(&mut out, "}\n\n");
    append_str(&mut out, antlr_rust_structs(&grammar.rules, api).as_str());
    append_str(&mut out, antlr_rust_parser(name, grammar.rules[0].name.as_str(), api).as_str());
    append_str(&mut out, antlr_rust_comments(&grammar.rules).as_str());
    out
}

/// TypeScript code for an ANTLR grammar: node interfaces and a parser class.
pub open spec fn antlr_typescript_spec(g: GrammarDefinition) -> Seq<char> {
    let api = mentions_spec(g.name@, "LLM"@, "Api"@);
    antlr_typescript_header(g.name@) + antlr_ts_preamble_spec(api) + antlr_ts_interfaces_spec(g.rules@)
        + antlr_ts_class_spec(g.name@, api) + antlr_ts_rule_names_spec(g.rules@) + antlr_ts_epilogue_spec(g.name@)
}

pub fn antlr_typescript_code(grammar: &GrammarDefinition) -> (r: String)
    ensures
        r@ == antlr_typescript_spec(*grammar),
{
    let name = grammar.name.as_str();
    let api = mentions(name, "LLM", "Api");
    let mut out = framed("// Generated TypeScript parser for grammar: ", name, "\n\n");
    append_str(&mut out, antlr_ts_preamble(api).as_str());
    append_str(&mut out, antlr_ts_interfaces(&grammar.rules).as_str());
    append_str(&mut out, antlr_ts_class(name, api).as_str());
    append_str(&mut out, antlr_ts_rule_names(&grammar.rules).as_str());
    append_str(&mut out, antlr_ts_epilogue(name).as_str());
    out
}

/// A YACC specification in C for a YACC grammar, with the declarations its
/// domain (resources, queries) calls for.
pub open spec fn yacc_c_spec(g: GrammarDefinition) -> Seq<char> {
    yacc_c_header(g.name@) + yacc_c_prologue_spec(g.name@) + yacc_c_rules_spec(g.rules@) + yacc_c_epilogue_spec(g.name@)
}

pub fn yacc_c_code(grammar: &GrammarDefinition) -> (r: String)
    ensures
        r@ == yacc_c_spec(*grammar),
{
    let name = grammar.name.as_str();
    let mut out = framed("/* Generated YACC parser for grammar: ", name, " */\n\n");
    append_str(&mut out, yacc_c_prologue(name).as_str());
    append_str(&mut out, yacc_c_rules(&grammar.rules).as_str());
    append_str(&mut out, yacc_c_epilogue(name).as_str());
    out
}

/// The rules of a YACC grammar as Rust comments.
pub open spec fn yacc_rust_spec(g: GrammarDefinition) -> Seq<char> {
    yacc_rust_header(g.name@) + yacc_rust_rules_spec(g.rules@)
}

pub fn yacc_rust_code(grammar: &GrammarDefinition) -> (r: String)
    ensures
        r@ == yacc_rust_spec(*grammar),
{
    let mut out = framed("// Generated YACC-style parser for grammar: ", grammar.name.as_str(), "\n\n");
    append_str(&mut out, yacc_rust_rules(&grammar.rules).as_str());
    out
}

/// A LaTeX document for a Z++ specification: each schema in a schema box,
/// each other rule as a definition, and theorems for a system.
pub open spec fn zpp_latex_spec(g: GrammarDefinition) -> Seq<char> {
    zpp_latex_header(g.name@) + latex_preamble_spec(g.name@) + latex_rules_spec(g.rules@) + latex_theorems_spec(g.name@)
        + "\\end{{document}}\n"@
}

pub fn zpp_latex_code(grammar: &GrammarDefinition) -> (r: String)
    ensures
        r@ == zpp_latex_spec(*grammar),
{
    let name = grammar.name.as_str();
    let mut out = framed("% Generated Z++ specification: ", name, "\n\n");
    append_str(&mut out, latex_preamble(name).as_str());
    append_str(&mut out, latex_rules(&grammar.rules).as_str());
    append_str(&mut out, latex_theorems(name).as_str());
    append_str(&mut out, "\\end{{document}}\n");
    out
}

/// A Markdown document for a Z++ specification: schemas, operations,
/// invariants and theorems, and a guide to the notation.
pub open spec fn zpp_markdown_spec(g: GrammarDefinition) -> Seq<char> {
    zpp_markdown_header(g.name@) + md_intro_spec(g.name@) + md_schemas_spec(g.rules@) + (if has_operation_rule(g.rules@) {
        "## Operations\n\n"@ + md_operations_spec(g.rules@)
    } else {
        Seq::<char>::empty()
    }) + "## Invariants\n\nThe following invariants must hold at all times:\n\n"@ + md_invariants_spec(g.rules@) + (
    if has_theorem_rule(g.rules@) {
        "\n## Theorems\n\n"@ + md_theorems_spec(g.rules@)
    } else {
        Seq::<char>::empty()
    }) + md_guide_spec()
}

pub fn zpp_markdown_code(grammar: &GrammarDefinition) -> (r: String)
    ensures
        r@ == zpp_markdown_spec(*grammar),
{
    let name = grammar.name.as_str();
    let mut out = framed("# Z++ Specification: ", name, "\n\n");
    append_str(&mut out, md_intro(name).as_str());
    append_str(&mut out, md_schemas(&grammar.rules).as_str());
    if any_rule_of_kind(&grammar.rules, false) {
        append_str(&mut out, "## Operations\n\n");
        append_str(&mut out, md_operations(&grammar.rules).as_str());
    }
    append_str(&mut out, "## Invariants\n\nThe following invariants must hold at all times:\n\n");
    append_str(&mut out, md_invariants(&grammar.rules).as_str());
    if any_rule_of_kind(&grammar.rules, true) {
        append_str(&mut out, "\n## Theorems\n\n");
        append_str(&mut out, md_theorems(&grammar.rules).as_str());
    }
    append_str(&mut out, md_guide().as_str());
    assert(out@ =~= zpp_markdown_spec(*grammar));
    out
}

proof fn lemma_heading_opens(s: Seq<char>, name: Seq<char>, rest: Seq<char>)
    requires
        s == "### "@ + name + rest,
    ensures
        contains_spec(s, "### "@ + name),
{
    let h = "### "@ + name;
    assert(s.subrange(0, h.len() as int) =~= h);
    assert(occurs_at(s, h, 0));
}

proof fn lemma_md_schemas_hold(rules: Seq<GrammarRule>, i: int)
    requires
        0 <= i < rules.len(),
    ensures
        contains_spec(md_schemas_spec(rules), md_schema_spec(rules[i])),
    decreases rules.len(),
{
    lemma_contains_concat(md_schemas_spec(rules.drop_last()), md_schema_spec(rules.last()));
    if i < rules.len() - 1 {
        lemma_md_schemas_hold(rules.drop_last(), i);
        assert(rules.drop_last()[i] == rules[i]);
    }
}

proof fn lemma_md_operations_hold(rules: Seq<GrammarRule>, i: int)
    requires
        0 <= i < rules.len(),
    ensures
        contains_spec(md_operations_spec(rules), md_operation_spec(rules[i])),
    decreases rules.len(),
{
    lemma_contains_concat(md_operations_spec(rules.drop_last()), md_operation_spec(rules.last()));
    if i < rules.len() - 1 {
        lemma_md_operations_hold(rules.drop_last(), i);
        assert(rules.drop_last()[i] == rules[i]);
    }
}

proof fn lemma_md_theorems_hold(rules: Seq<GrammarRule>, i: int)
    requires
        0 <= i < rules.len(),
    ensures
        contains_spec(md_theorems_spec(rules), md_theorem_spec(rules[i])),
    decreases rules.len(),
{
    lemma_contains_concat(md_theorems_spec(rules.drop_last()), md_theorem_spec(rules.last()));
    if i < rules.len() - 1 {
        lemma_md_theorems_hold(rules.drop_last(), i);
        assert(rules.drop_last()[i] == rules[i]);
    }
}

/// Every rule of a Z++ specification gets a `### <name>` heading in its
/// Markdown document: a schema among the schemas, a theorem among the
/// theorems, any other rule among the operations.
pub proof fn lemma_markdown_heads_every_rule(g: GrammarDefinition, i: int)
    requires
        0 <= i < g.rules@.len(),
    ensures
        contains_spec(zpp_markdown_spec(g), "### "@ + g.rules@[i].name@),
{
    let rules = g.rules@;
    let r = rules[i];
    let h = "### "@ + r.name@;
    let t1 = zpp_markdown_header(g.name@);
    let t2 = md_intro_spec(g.name@);
    let t3 = md_schemas_spec(rules);
    let t4 = if has_operation_rule(rules) {
        "## Operations\n\n"@ + md_operations_spec(rules)
    } else {
        Seq::<char>::empty()
    };
    let t5 = "## Invariants\n\nThe following invariants must hold at all times:\n\n"@;
    let t6 = md_invariants_spec(rules);
    let t7 = if has_theorem_rule(rules) {
        "\n## Theorems\n\n"@ + md_theorems_spec(rules)
    } else {
        Seq::<char>::empty()
    };
    let t8 = md_guide_spec();
    assert(zpp_markdown_spec(g) == t1 + t2 + t3 + t4 + t5 + t6 + t7 + t8);
    lemma_contains_concat(t1, t2);
    lemma_contains_concat(t1 + t2, t3);
    lemma_contains_concat(t1 + t2 + t3, t4);
    lemma_contains_concat(t1 + t2 + t3 + t4, t5);
    lemma_contains_concat(t1 + t2 + t3 + t4 + t5, t6);
    lemma_contains_concat(t1 + t2 + t3 + t4 + t5 + t6, t7);
    lemma_contains_concat(t1 + t2 + t3 + t4 + t5 + t6 + t7, t8);
    if is_schema_rule(r) {
        let rest = md_schema_spec(r).subrange(h.len() as int, md_schema_spec(r).len() as int);
        assert(md_schema_spec(r) =~= "### "@ + r.name@ + rest);
        lemma_heading_opens(md_schema_spec(r), r.name@, rest);
        lemma_md_schemas_hold(rules, i);
        lemma_contains_trans(t3, md_schema_spec(r), h);
    } else if is_theorem_rule(r) {
        let rest = md_theorem_spec(r).subrange(h.len() as int, md_theorem_spec(r).len() as int);
        assert(md_theorem_spec(r) =~= "### "@ + r.name@ + rest);
        lemma_heading_opens(md_theorem_spec(r), r.name@, rest);
        lemma_md_theorems_hold(rules, i);
        lemma_contains_trans(md_theorems_spec(rules), md_theorem_spec(r), h);
        assert(has_theorem_rule(rules));
        lemma_contains_concat("\n## Theorems\n\n"@, md_theorems_spec(rules));
    } else {
        let rest = md_operation_spec(r).subrange(h.len() as int, md_operation_spec(r).len() as int);
        assert(md_operation_spec(r) =~= "### "@ + r.name@ + rest);
        lemma_heading_opens(md_operation_spec(r), r.name@, rest);
        lemma_md_operations_hold(rules, i);
        lemma_contains_trans(md_operations_spec(rules), md_operation_spec(r), h);
        assert(has_operation_rule(rules));
        lemma_contains_concat("## Operations\n\n"@, md_operations_spec(rules));
    }
}

proof fn lemma_yacc_c_rules_hold(rules: Seq<GrammarRule>, i: int)
    requires
        0 <= i < rules.len(),
    ensures
        contains_spec(yacc_c_rules_spec(rules), yacc_c_rule_spec(rules[i])),
    decreases rules.len(),
{
    lemma_contains_concat(yacc_c_rules_spec(rules.drop_last()), yacc_c_rule_spec(rules.last()));
    if i < rules.len() - 1 {
        lemma_yacc_c_rules_hold(rules.drop_last(), i);
        assert(rules.drop_last()[i] == rules[i]);
    }
}

proof fn lemma_latex_rules_hold(rules: Seq<GrammarRule>, i: int)
    requires
        0 <= i < rules.len(),
    ensures
        contains_spec(latex_rules_spec(rules), latex_rule_spec(rules[i])),
    decreases rules.len(),
{
    lemma_contains_concat(latex_rules_spec(rules.drop_last()), latex_rule_spec(rules.last()));
    if i < rules.len() - 1 {
        lemma_latex_rules_hold(rules.drop_last(), i);
        assert(rules.drop_last()[i] == rules[i]);
    }
}

proof fn lemma_antlr_rust_structs_hold(rules: Seq<GrammarRule>, i: int, api: bool)
    requires
        0 <= i < rules.len(),
    ensures
        contains_spec(antlr_rust_structs_spec(rules, api), antlr_rust_struct_spec(rules[i], api)),
    decreases rules.len(),
{
    lemma_contains_concat(antlr_rust_structs_spec(rules.drop_last(), api), antlr_rust_struct_spec(rules.last(), api));
    if i < rules.len() - 1 {
        lemma_antlr_rust_structs_hold(rules.drop_last(), i, api);
        assert(rules.drop_last()[i] == rules[i]);
    }
}

proof fn lemma_antlr_ts_interfaces_hold(rules: Seq<GrammarRule>, i: int)
    requires
        0 <= i < rules.len(),
    ensures
        contains_spec(antlr_ts_interfaces_spec(rules), antlr_ts_interface_spec(rules[i])),
    decreases rules.len(),
{
    lemma_contains_concat(antlr_ts_interfaces_spec(rules.drop_last()), antlr_ts_interface_spec(rules.last()));
    if i < rules.len() - 1 {
        lemma_antlr_ts_interfaces_hold(rules.drop_last(), i);
        assert(rules.drop_last()[i] == rules[i]);
    }
}

/// Each rule of a YACC grammar stands in the C specification as
/// `name : production { action };`, and a grammar about resources gets the
/// math and resource headers.
pub proof fn lemma_yacc_c_holds_rules(g: GrammarDefinition, i: int)
    requires
        0 <= i < g.rules@.len(),
    ensures
        contains_spec(yacc_c_spec(g), yacc_c_rule_spec(g.rules@[i])),
        mentions_spec(g.name@, "resource"@, "Resource"@) ==> contains_spec(
            yacc_c_spec(g),
            "#include <math.h>\n#include <sys/resource.h>\n"@,
        ),
{
    let h = yacc_c_header(g.name@);
    let p = yacc_c_prologue_spec(g.name@);
    let m = yacc_c_rules_spec(g.rules@);
    let e = yacc_c_epilogue_spec(g.name@);
    lemma_contains_concat(h, p);
    lemma_contains_concat(h + p, m);
    lemma_contains_concat(h + p + m, e);
    lemma_yacc_c_rules_hold(g.rules@, i);
    if mentions_spec(g.name@, "resource"@, "Resource"@) {
        let inc = "#include <math.h>\n#include <sys/resource.h>\n"@;
        let a = "%{\n#include <stdio.h>\n#include <stdlib.h>\n#include <string.h>\n\n"@;
        let rest = p.subrange((a.len() + inc.len()) as int, p.len() as int);
        assert(p =~= a + inc + rest);
        lemma_contains_concat(a, inc);
        lemma_contains_concat(a + inc, rest);
    }
}

/// Each rule stands in the LaTeX document: a schema box when its production
/// declares natural numbers, a definition otherwise.
pub proof fn lemma_latex_holds_rules(g: GrammarDefinition, i: int)
    requires
        0 <= i < g.rules@.len(),
    ensures
        contains_spec(zpp_latex_spec(g), latex_rule_spec(g.rules@[i])),
{
    let h = zpp_latex_header(g.name@);
    let p = latex_preamble_spec(g.name@);
    let m = latex_rules_spec(g.rules@);
    let t = latex_theorems_spec(g.name@);
    lemma_contains_concat(h, p);
    lemma_contains_concat(h + p, m);
    lemma_contains_concat(h + p + m, t);
    lemma_contains_concat(h + p + m + t, "\\end{{document}}\n"@);
    lemma_latex_rules_hold(g.rules@, i);
}

/// Each rule of an ANTLR grammar gets its node type in the Rust code.
pub proof fn lemma_antlr_rust_holds_rules(g: GrammarDefinition, i: int)
    requires
        0 <= i < g.rules@.len(),
    ensures
        contains_spec(antlr_rust_spec(g), antlr_rust_struct_spec(g.rules@[i], mentions_spec(g.name@, "LLM"@, "Api"@))),
{
    let api = mentions_spec(g.name@, "LLM"@, "Api"@);
    let t1 = antlr_rust_header(g.name@) + antlr_rust_preamble_spec() + antlr_rust_variants_spec(g.rules@) + "}\n\n"@;
    let t2 = antlr_rust_structs_spec(g.rules@, api);
    let t3 = antlr_rust_parser_spec(g.name@, g.rules@[0].name@, api);
    let t4 = antlr_rust_comments_spec(g.rules@);
    lemma_contains_concat(t1, t2);
    lemma_contains_concat(t1 + t2, t3);
    lemma_contains_concat(t1 + t2 + t3, t4);
    lemma_antlr_rust_structs_hold(g.rules@, i, api);
}

/// Each rule of an ANTLR grammar gets its node interface in the TypeScript code.
pub proof fn lemma_antlr_typescript_holds_rules(g: GrammarDefinition, i: int)
    requires
        0 <= i < g.rules@.len(),
    ensures
        contains_spec(antlr_typescript_spec(g), antlr_ts_interface_spec(g.rules@[i])),
{
    let api = mentions_spec(g.name@, "LLM"@, "Api"@);
    let t1 = antlr_typescript_header(g.name@) + antlr_ts_preamble_spec(api);
    let t2 = antlr_ts_interfaces_spec(g.rules@);
    let t3 = antlr_ts_class_spec(g.name@, api) + antlr_ts_rule_names_spec(g.rules@) + antlr_ts_epilogue_spec(g.name@);
    assert(antlr_typescript_spec(g) =~= t1 + t2 + t3);
    lemma_contains_concat(t1, t2);
    lemma_contains_concat(t1 + t2, t3);
    lemma_antlr_ts_interfaces_hold(g.rules@, i);
}

} // verus!
