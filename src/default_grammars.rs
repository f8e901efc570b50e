use std::collections::HashMap;

use vstd::prelude::*;

use crate::grammar_parser::{GrammarDefinition, GrammarError, GrammarRule, GrammarType};
use crate::grammar_service::GrammarService;

verus! {

/// A grammar with this name, dialect and start rule, whose rules bear these
/// names in this order, and without metadata.
pub open spec fn has_shape(
    g: GrammarDefinition,
    name: Seq<char>,
    grammar_type: GrammarType,
    start_rule: Seq<char>,
    rule_names: Seq<Seq<char>>,
) -> bool {
    &&& g.name@ == name
    &&& g.grammar_type == grammar_type
    &&& g.start_rule@ == start_rule
    &&& g.rules@.len() == rule_names.len()
    &&& forall|i: int| 0 <= i < rule_names.len() ==> (#[trigger] g.rules@[i]).name@ == rule_names[i]
    &&& g.metadata@ == Map::<String, String>::empty()
}

fn rule(name: &str, production: &str, action: Option<&str>) -> (r: GrammarRule)
    ensures
        r.name@ == name@,
        r.production@ == production@,
{
    GrammarRule {
        name: String::from_str(name),
        production: String::from_str(production),
        action: match action {
            Some(a) => Some(String::from_str(a)),
            None => None,
        },
    }
}

/// A grammar of the given name, dialect, start rule and rules, without metadata.
fn grammar(name: &str, grammar_type: GrammarType, start_rule: &str, rules: Vec<GrammarRule>) -> (r: GrammarDefinition)
    ensures
        r.name@ == name@,
        r.grammar_type == grammar_type,
        r.start_rule@ == start_rule@,
        r.rules@ == rules@,
        r.metadata@ == Map::<String, String>::empty(),
{
    GrammarDefinition {
        name: String::from_str(name),
        grammar_type,
        rules,
        start_rule: String::from_str(start_rule),
        metadata: HashMap::new(),
    }
}

pub open spec fn arithmetic_grammar_names() -> Seq<Seq<char>> {
    seq!["expr"@, "expr"@, "expr"@, "term"@, "term"@, "term"@, "factor"@, "factor"@]
}

/// Arithmetic expressions with the four operations.
fn create_arithmetic_grammar() -> (r: GrammarDefinition)
    ensures
        has_shape(r, "ArithmeticGrammar"@, GrammarType::Antlr, "expr"@, arithmetic_grammar_names()),
{
    let mut rules: Vec<GrammarRule> = Vec::new();
    rules.push(rule("expr", "expr '+' term", None));
    rules.push(rule("expr", "expr '-' term", None));
    rules.push(rule("expr", "term", None));
    rules.push(rule("term", "term '*' factor", None));
    rules.push(rule("term", "term '/' factor", None));
    rules.push(rule("term", "factor", None));
    rules.push(rule("factor", "'(' expr ')'", None));
    rules.push(rule("factor", "NUMBER", None));
    let r = grammar("ArithmeticGrammar", GrammarType::Antlr, "expr", rules);
    assert(r.rules@.len() == arithmetic_grammar_names().len());
    r
}

pub open spec fn json_grammar_names() -> Seq<Seq<char>> {
    seq!["value"@, "value"@, "value"@, "value"@, "value"@, "value"@, "value"@, "object"@, "object"@, "members"@, "members"@, "pair"@, "array"@, "array"@, "elements"@, "elements"@]
}

/// JSON values.
fn create_json_grammar() -> (r: GrammarDefinition)
    ensures
        has_shape(r, "JsonGrammar"@, GrammarType::Antlr, "value"@, json_grammar_names()),
{
    let mut rules: Vec<GrammarRule> = Vec::new();
    rules.push(rule("value", "object", None));
    rules.push(rule("value", "array", None));
    rules.push(rule("value", "STRING", None));
    rules.push(rule("value", "NUMBER", None));
    rules.push(rule("value", "'true'", None));
    rules.push(rule("value", "'false'", None));
    rules.push(rule("value", "'null'", None));
    rules.push(rule("object", "'{' '}'", None));
    rules.push(rule("object", "'{' members '}'", None));
    rules.push(rule("members", "pair", None));
    rules.push(rule("members", "members ',' pair", None));
    rules.push(rule("pair", "STRING ':' value", None));
    rules.push(rule("array", "'[' ']'", None));
    rules.push(rule("array", "'[' elements ']'", None));
    rules.push(rule("elements", "value", None));
    rules.push(rule("elements", "elements ',' value", None));
    let r = grammar("JsonGrammar", GrammarType::Antlr, "value", rules);
    assert(r.rules@.len() == json_grammar_names().len());
    r
}

pub open spec fn llm_api_grammar_names() -> Seq<Seq<char>> {
    seq!["apiRequest"@, "requestFields"@, "requestField"@, "requestField"@, "requestField"@, "requestField"@, "requestField"@, "requestField"@, "requestField"@, "requestField"@, "messageArray"@, "message"@, "messageFields"@, "messageField"@, "messageField"@, "toolArray"@, "toolDef"@, "toolFields"@, "toolField"@, "toolField"@, "functionDef"@, "functionFields"@, "functionField"@, "functionField"@, "functionField"@, "schemaDef"@, "schemaFields"@, "schemaField"@, "schemaField"@, "propertiesDef"@, "propertyDef"@]
}

/// Requests to an LLM API.
fn create_llm_api_grammar() -> (r: GrammarDefinition)
    ensures
        has_shape(r, "LLMApiGrammar"@, GrammarType::Antlr, "apiRequest"@, llm_api_grammar_names()),
{
    let mut rules: Vec<GrammarRule> = Vec::new();
    rules.push(rule("apiRequest", "'{' requestFields '}'", None));
    rules.push(rule("requestFields", "requestField (',' requestField)*", None));
    rules.push(rule("requestField", "'model' ':' STRING", None));
    rules.push(rule("requestField", "'prompt' ':' STRING", None));
    rules.push(rule("requestField", "'messages' ':' messageArray", None));
    rules.push(rule("requestField", "'temperature' ':' NUMBER", None));
    rules.push(rule("requestField", "'max_tokens' ':' NUMBER", None));
    rules.push(rule("requestField", "'top_p' ':' NUMBER", None));
    rules.push(rule("requestField", "'stream' ':' BOOLEAN", None));
    rules.push(rule("requestField", "'tools' ':' toolArray", None));
    rules.push(rule("messageArray", "'[' (message (',' message)*)? ']'", None));
    rules.push(rule("message", "'{' messageFields '}'", None));
    rules.push(rule("messageFields", "messageField (',' messageField)*", None));
    rules.push(rule("messageField", "'role' ':' STRING", None));
    rules.push(rule("messageField", "'content' ':' STRING", None));
    rules.push(rule("toolArray", "'[' (toolDef (',' toolDef)*)? ']'", None));
    rules.push(rule("toolDef", "'{' toolFields '}'", None));
    rules.push(rule("toolFields", "toolField (',' toolField)*", None));
    rules.push(rule("toolField", "'type' ':' 'function'", None));
    rules.push(rule("toolField", "'function' ':' functionDef", None));
    rules.push(rule("functionDef", "'{' functionFields '}'", None));
    rules.push(rule("functionFields", "functionField (',' functionField)*", None));
    rules.push(rule("functionField", "'name' ':' STRING", None));
    rules.push(rule("functionField", "'description' ':' STRING", None));
    rules.push(rule("functionField", "'parameters' ':' schemaDef", None));
    rules.push(rule("schemaDef", "'{' schemaFields '}'", None));
    rules.push(rule("schemaFields", "schemaField (',' schemaField)*", None));
    rules.push(rule("schemaField", "'type' ':' STRING", None));
    rules.push(rule("schemaField", "'properties' ':' propertiesDef", None));
    rules.push(rule("propertiesDef", "'{' (propertyDef (',' propertyDef)*)? '}'", None));
    rules.push(rule("propertyDef", "STRING ':' schemaDef", None));
    let r = grammar("LLMApiGrammar", GrammarType::Antlr, "apiRequest", rules);
    assert(r.rules@.len() == llm_api_grammar_names().len());
    r
}

pub open spec fn configuration_grammar_names() -> Seq<Seq<char>> {
    seq!["configuration"@, "configItem"@, "configItem"@, "configItem"@, "agentConfig"@, "agentSettings"@, "agentSetting"@, "agentSetting"@, "agentSetting"@, "agentSetting"@, "agentSetting"@, "agentSetting"@, "balancerConfig"@, "balancerSettings"@, "balancerSetting"@, "balancerSetting"@, "balancerSetting"@, "modelConfig"@, "modelSettings"@, "modelSetting"@, "modelSetting"@, "modelSetting"@]
}

/// A configuration language for agents and balancers.
fn create_configuration_grammar() -> (r: GrammarDefinition)
    ensures
        has_shape(r, "ConfigurationGrammar"@, GrammarType::Antlr, "configuration"@, configuration_grammar_names()),
{
    let mut rules: Vec<GrammarRule> = Vec::new();
    rules.push(rule("configuration", "configItem+", None));
    rules.push(rule("configItem", "agentConfig", None));
    rules.push(rule("configItem", "balancerConfig", None));
    rules.push(rule("configItem", "modelConfig", None));
    rules.push(rule("agentConfig", "'agent' IDENTIFIER '{' agentSettings '}'", None));
    rules.push(rule("agentSettings", "agentSetting+", None));
    rules.push(rule("agentSetting", "'endpoint' '=' STRING ';'", None));
    rules.push(rule("agentSetting", "'port' '=' INTEGER ';'", None));
    rules.push(rule("agentSetting", "'max_concurrent' '=' INTEGER ';'", None));
    rules.push(rule("agentSetting", "'slots' '=' INTEGER ';'", None));
    rules.push(rule("agentSetting", "'cpu_threads' '=' INTEGER ';'", None));
    rules.push(rule("agentSetting", "'gpu_layers' '=' INTEGER ';'", None));
    rules.push(rule("balancerConfig", "'balancer' IDENTIFIER '{' balancerSettings '}'", None));
    rules.push(rule("balancerSettings", "balancerSetting+", None));
    rules.push(rule("balancerSetting", "'port' '=' INTEGER ';'", None));
    rules.push(rule("balancerSetting", "'strategy' '=' STRING ';'", None));
    rules.push(rule("balancerSetting", "'health_check' '=' BOOLEAN ';'", None));
    rules.push(rule("modelConfig", "'model' IDENTIFIER '{' modelSettings '}'", None));
    rules.push(rule("modelSettings", "modelSetting+", None));
    rules.push(rule("modelSetting", "'path' '=' STRING ';'", None));
    rules.push(rule("modelSetting", "'context_size' '=' INTEGER ';'", None));
    rules.push(rule("modelSetting", "'temperature' '=' FLOAT ';'", None));
    let r = grammar("ConfigurationGrammar", GrammarType::Antlr, "configuration", rules);
    assert(r.rules@.len() == configuration_grammar_names().len());
    r
}

pub open spec fn prompt_template_grammar_names() -> Seq<Seq<char>> {
    seq!["template"@, "templateContent"@, "plainText"@, "templateExpression"@, "templateBlock"@, "templateBlock"@, "templateBlock"@, "ifBlock"@, "forBlock"@, "setBlock"@, "expression"@, "orExpression"@, "andExpression"@, "comparisonExpression"@, "primaryExpression"@, "primaryExpression"@, "primaryExpression"@, "primaryExpression"@, "primaryExpression"@]
}

/// Prompt templates with placeholders and conditionals.
fn create_prompt_template_grammar() -> (r: GrammarDefinition)
    ensures
        has_shape(r, "PromptTemplateGrammar"@, GrammarType::Antlr, "template"@, prompt_template_grammar_names()),
{
    let mut rules: Vec<GrammarRule> = Vec::new();
    rules.push(rule("template", "templateContent", None));
    rules.push(rule("templateContent", "(plainText | templateExpression | templateBlock)*", None));
    rules.push(rule("plainText", "PLAIN_TEXT", None));
    rules.push(rule("templateExpression", "'{{' expression '}}'", None));
    rules.push(rule("templateBlock", "ifBlock", None));
    rules.push(rule("templateBlock", "forBlock", None));
    rules.push(rule("templateBlock", "setBlock", None));
    rules.push(rule("ifBlock", "'{%' 'if' expression '%}' templateContent '{%' 'endif' '%}'", None));
    rules.push(rule("forBlock", "'{%' 'for' IDENTIFIER 'in' expression '%}' templateContent '{%' 'endfor' '%}'", None));
    rules.push(rule("setBlock", "'{%' 'set' IDENTIFIER '=' expression '%}'", None));
    rules.push(rule("expression", "orExpression", None));
    rules.push(rule("orExpression", "andExpression ('or' andExpression)*", None));
    rules.push(rule("andExpression", "comparisonExpression ('and' comparisonExpression)*", None));
    rules.push(rule("comparisonExpression", "primaryExpression (('==' | '!=' | '<' | '>' | '<=' | '>=') primaryExpression)?", None));
    rules.push(rule("primaryExpression", "IDENTIFIER", None));
    rules.push(rule("primaryExpression", "STRING", None));
    rules.push(rule("primaryExpression", "NUMBER", None));
    rules.push(rule("primaryExpression", "BOOLEAN", None));
    rules.push(rule("primaryExpression", "'(' expression ')'", None));
    let r = grammar("PromptTemplateGrammar", GrammarType::Antlr, "template", rules);
    assert(r.rules@.len() == prompt_template_grammar_names().len());
    r
}

pub open spec fn resource_management_yacc_grammar_names() -> Seq<Seq<char>> {
    seq!["program"@, "statement_list"@, "resource_statement"@, "agent_statement"@, "optimization_statement"@, "resource_spec"@, "expression"@]
}

/// A YACC grammar for resource management commands.
fn create_resource_management_yacc_grammar() -> (r: GrammarDefinition)
    ensures
        has_shape(r, "ResourceManagement"@, GrammarType::Yacc, "program"@, resource_management_yacc_grammar_names()),
{
    let mut rules: Vec<GrammarRule> = Vec::new();
    rules.push(rule("program", "statement_list", None));
    rules.push(rule("statement_list", "statement | statement_list ';' statement", None));
    rules.push(rule("resource_statement", "'allocate' IDENTIFIER NUMBER", Some("{ allocate_resource($2, $3); }")));
    rules.push(rule("agent_statement", "'register' 'agent' IDENTIFIER 'with' resource_spec", Some("{ register_agent($3, $5); }")));
    rules.push(rule("optimization_statement", "'optimize' resource_list 'for' agent_list", Some("{ optimize_allocation($2, $4); }")));
    rules.push(rule("resource_spec", "'cpu' ':' INTEGER | 'memory' ':' INTEGER | 'gpu' ':' INTEGER", None));
    rules.push(rule("expression", "expression '+' expression | expression '-' expression | expression '*' expression | expression '/' expression | NUMBER | IDENTIFIER | '(' expression ')'", Some("{ $$ = evaluate_expression($1, $2, $3); }")));
    let r = grammar("ResourceManagement", GrammarType::Yacc, "program", rules);
    assert(r.rules@.len() == resource_management_yacc_grammar_names().len());
    r
}

pub open spec fn llm_query_yacc_grammar_names() -> Seq<Seq<char>> {
    seq!["query_statement"@, "select_statement"@, "inference_query"@, "embedding_query"@, "status_query"@, "inference_params"@, "inference_param"@]
}

/// A YACC grammar for queries over models and inferences.
fn create_llm_query_yacc_grammar() -> (r: GrammarDefinition)
    ensures
        has_shape(r, "LLMQueryLanguage"@, GrammarType::Yacc, "query_statement"@, llm_query_yacc_grammar_names()),
{
    let mut rules: Vec<GrammarRule> = Vec::new();
    rules.push(rule("query_statement", "select_statement | inference_query | status_query", None));
    rules.push(rule("select_statement", "'SELECT' select_list 'FROM' table_name where_clause", Some("{ execute_select($2, $4, $5); }")));
    rules.push(rule("inference_query", "'INFERENCE' STRING 'FROM' 'MODEL' STRING 'WITH' inference_params", Some("{ process_inference($2, $5, $7); }")));
    rules.push(rule("embedding_query", "'EMBEDDING' STRING 'FROM' 'MODEL' STRING", Some("{ process_embedding($2, $5); }")));
    rules.push(rule("status_query", "'SELECT' 'STATUS' 'FROM' 'AGENT' STRING", Some("{ get_agent_status($5); }")));
    rules.push(rule("inference_params", "inference_param | inference_params ',' inference_param", None));
    rules.push(rule("inference_param", "'temperature' '=' NUMBER | 'max_tokens' '=' INTEGER | 'top_p' '=' NUMBER | 'stream' '=' BOOLEAN", Some("{ set_parameter($1, $3); }")));
    let r = grammar("LLMQueryLanguage", GrammarType::Yacc, "query_statement", rules);
    assert(r.rules@.len() == llm_query_yacc_grammar_names().len());
    r
}

pub open spec fn zpp_specification_grammar_names() -> Seq<Seq<char>> {
    seq!["System"@, "State"@, "Operations"@]
}

/// A small Z++ specification of a system state.
fn create_zpp_specification_grammar() -> (r: GrammarDefinition)
    ensures
        has_shape(r, "ZPlusPlus"@, GrammarType::ZPlusPlus, "System"@, zpp_specification_grammar_names()),
{
    let mut rules: Vec<GrammarRule> = Vec::new();
    rules.push(rule("System", "state: State; operations: Operations", None));
    rules.push(rule("State", "x: ℕ; y: ℕ; z: ℕ", None));
    rules.push(rule("Operations", "Init; Add; Subtract", None));
    let r = grammar("ZPlusPlus", GrammarType::ZPlusPlus, "System", rules);
    assert(r.rules@.len() == zpp_specification_grammar_names().len());
    r
}

pub open spec fn llm_system_zpp_grammar_names() -> Seq<Seq<char>> {
    seq!["schema SystemState"@, "schema Agent"@, "schema Model"@, "schema SystemInvariant"@, "schema ProcessRequest"@, "schema CompleteRequest"@, "theorem SafetyProperty"@, "theorem LivenessProperty"@]
}

/// A Z++ specification of an LLM serving system.
fn create_llm_system_zpp_grammar() -> (r: GrammarDefinition)
    ensures
        has_shape(r, "LLMSystemSpecification"@, GrammarType::ZPlusPlus, "SystemState"@, llm_system_zpp_grammar_names()),
{
    let mut rules: Vec<GrammarRule> = Vec::new();
    rules.push(rule("schema SystemState", "agents: AgentId ⤔ Agent; models: ModelId ⤔ Model; activeRequests: ℙ SessionId; pendingRequests: seq InferenceRequest; completedResponses: seq InferenceResponse; totalTokensProcessed: ℕ; systemUptime: ℕ", None));
    rules.push(rule("schema Agent", "id: AgentId; status: Status; model: ModelId; maxConcurrent: ℕ; currentLoad: ℕ; cpuCores: ℕ; memoryMB: ℕ; gpuLayers: ℕ; contextSize: ℕ", None));
    rules.push(rule("schema Model", "id: ModelId; name: 𝔽; path: 𝔽; size: ℕ; contextLength: ℕ; vocabulary: ℕ; status: Status; loadedOn: ℙ AgentId", None));
    rules.push(rule("schema SystemInvariant", "SystemState; ∀ a: ran agents • a.currentLoad ≤ a.maxConcurrent; totalTokensProcessed ≥ 0; systemUptime ≥ 0; #activeRequests ≤ (Σ a: ran agents • a.maxConcurrent)", None));
    rules.push(rule("schema ProcessRequest", "ΔSystemState; request?: InferenceRequest; selectedAgent!: AgentId; selectedAgent! ∈ dom agents; agents(selectedAgent!).status = Active; agents(selectedAgent!).currentLoad < agents(selectedAgent!).maxConcurrent; activeRequests' = activeRequests ∪ {request?.sessionId}", Some("Process an inference request by selecting an available agent")));
    rules.push(rule("schema CompleteRequest", "ΔSystemState; sessionId?: SessionId; response?: InferenceResponse; agent?: AgentId; sessionId? ∈ activeRequests; activeRequests' = activeRequests \\ {sessionId?}; agents'(agent?).currentLoad = agents(agent?).currentLoad - 1; completedResponses' = completedResponses ^ ⟨response?⟩", Some("Complete an inference request and update system state")));
    rules.push(rule("theorem SafetyProperty", "SystemSpec ⇒ □(∀ a: ran agents • a.currentLoad ≤ a.maxConcurrent)", None));
    rules.push(rule("theorem LivenessProperty", "SystemSpec ∧ ◇(∃ a: ran agents • a.status = Active) ⇒ □◇(pendingRequests = ⟨⟩)", None));
    let r = grammar("LLMSystemSpecification", GrammarType::ZPlusPlus, "SystemState", rules);
    assert(r.rules@.len() == llm_system_zpp_grammar_names().len());
    r
}

pub open spec fn inference_workflow_zpp_grammar_names() -> Seq<Seq<char>> {
    seq!["schema InferenceWorkflowState"@, "schema WorkflowInvariant"@, "schema SubmitRequest"@, "schema ExecuteInference"@, "schema StreamingInference"@, "theorem QueueNeverOverflows"@, "theorem RequestsEventuallyProcessed"@]
}

/// A Z++ specification of an inference workflow.
fn create_inference_workflow_zpp_grammar() -> (r: GrammarDefinition)
    ensures
        has_shape(r, "InferenceWorkflowSpecification"@, GrammarType::ZPlusPlus, "InferenceWorkflowState"@, inference_workflow_zpp_grammar_names()),
{
    let mut rules: Vec<GrammarRule> = Vec::new();
    rules.push(rule("schema InferenceWorkflowState", "pendingRequests: RequestId ⤔ InferenceWorkflowRequest; activeRequests: RequestId ⤔ InferenceWorkflowRequest; completedRequests: RequestId ⤔ InferenceWorkflowResponse; failedRequests: RequestId ⤔ (InferenceWorkflowRequest × 𝔽); tokenizationCache: Prompt ⤔ TokenizationResult; responseCache: (Prompt × InferenceParameters) ⤔ InferenceWorkflowResponse; queueCapacity: ℕ; activeCapacity: ℕ; currentTime: Timestamp", None));
    rules.push(rule("schema WorkflowInvariant", "InferenceWorkflowState; #pendingRequests ≤ queueCapacity; #activeRequests ≤ activeCapacity; dom pendingRequests ∩ dom activeRequests = ∅; dom activeRequests ∩ dom completedRequests = ∅; ∀ r: ran pendingRequests • r.state = Queued; ∀ r: ran activeRequests • r.state = Processing", None));
    rules.push(rule("schema SubmitRequest", "ΔInferenceWorkflowState; newRequest?: InferenceWorkflowRequest; result!: RequestSubmissionResult; newRequest?.id ∉ (dom pendingRequests ∪ dom activeRequests ∪ dom completedRequests); newRequest?.state = Queued; #pendingRequests < queueCapacity ⇒ (pendingRequests' = pendingRequests ∪ {newRequest?.id ↦ newRequest?} ∧ result! = Accepted)", Some("Submit a new inference request to the workflow queue")));
    rules.push(rule("schema ExecuteInference", "ΔInferenceWorkflowState; request?: InferenceWorkflowRequest; response!: InferenceWorkflowResponse; request?.id ∈ dom activeRequests; response!.requestId = request?.id; response!.processingDuration > 0; activeRequests' = {request?.id} ⩤ activeRequests; completedRequests' = completedRequests ∪ {request?.id ↦ response!}", Some("Execute inference for an active request and generate response")));
    rules.push(rule("schema StreamingInference", "ΔInferenceWorkflowState; request?: InferenceWorkflowRequest; chunks!: seq StreamingChunk; request?.id ∈ dom activeRequests; ∀ i: 1..#chunks! • chunks!(i).requestId = request?.id ∧ chunks!(i).chunkId = i; chunks!(#chunks!).finished = true", Some("Execute streaming inference with real-time token generation")));
    rules.push(rule("theorem QueueNeverOverflows", "WorkflowSpec ⇒ □(#pendingRequests ≤ queueCapacity)", None));
    rules.push(rule("theorem RequestsEventuallyProcessed", "WorkflowSpec ∧ □◇(#activeRequests < activeCapacity) ⇒ □(pendingRequests ≠ ∅ ⇒ ◇(#pendingRequests < #pendingRequests))", None));
    let r = grammar("InferenceWorkflowSpecification", GrammarType::ZPlusPlus, "InferenceWorkflowState", rules);
    assert(r.rules@.len() == inference_workflow_zpp_grammar_names().len());
    r
}

/// Whether a map of grammars holds each of the built-in grammars under its name.
pub open spec fn holds_default_grammars(m: Map<Seq<char>, GrammarDefinition>) -> bool {
    &&& m.contains_key("ArithmeticGrammar"@) && has_shape(m["ArithmeticGrammar"@], "ArithmeticGrammar"@, GrammarType::Antlr, "expr"@, arithmetic_grammar_names())
    &&& m.contains_key("JsonGrammar"@) && has_shape(m["JsonGrammar"@], "JsonGrammar"@, GrammarType::Antlr, "value"@, json_grammar_names())
    &&& m.contains_key("LLMApiGrammar"@) && has_shape(m["LLMApiGrammar"@], "LLMApiGrammar"@, GrammarType::Antlr, "apiRequest"@, llm_api_grammar_names())
    &&& m.contains_key("ConfigurationGrammar"@) && has_shape(m["ConfigurationGrammar"@], "ConfigurationGrammar"@, GrammarType::Antlr, "configuration"@, configuration_grammar_names())
    &&& m.contains_key("PromptTemplateGrammar"@) && has_shape(m["PromptTemplateGrammar"@], "PromptTemplateGrammar"@, GrammarType::Antlr, "template"@, prompt_template_grammar_names())
    &&& m.contains_key("ResourceManagement"@) && has_shape(m["ResourceManagement"@], "ResourceManagement"@, GrammarType::Yacc, "program"@, resource_management_yacc_grammar_names())
    &&& m.contains_key("LLMQueryLanguage"@) && has_shape(m["LLMQueryLanguage"@], "LLMQueryLanguage"@, GrammarType::Yacc, "query_statement"@, llm_query_yacc_grammar_names())
    &&& m.contains_key("ZPlusPlus"@) && has_shape(m["ZPlusPlus"@], "ZPlusPlus"@, GrammarType::ZPlusPlus, "System"@, zpp_specification_grammar_names())
    &&& m.contains_key("LLMSystemSpecification"@) && has_shape(m["LLMSystemSpecification"@], "LLMSystemSpecification"@, GrammarType::ZPlusPlus, "SystemState"@, llm_system_zpp_grammar_names())
    &&& m.contains_key("InferenceWorkflowSpecification"@) && has_shape(m["InferenceWorkflowSpecification"@], "InferenceWorkflowSpecification"@, GrammarType::ZPlusPlus, "InferenceWorkflowState"@, inference_workflow_zpp_grammar_names())
}

impl GrammarService {
    /// Loads the built-in grammars: arithmetic, JSON, an LLM API, a
    /// configuration language, prompt templates, two YACC grammars and three
    /// Z++ specifications. Grammars already loaded under other names stay.
    pub fn load_default_grammars(&mut self) -> (r: Result<(), GrammarError>)
        requires
            old(self).wf(),
        ensures
            r is Ok,
            final(self).wf(),
            holds_default_grammars(final(self).view()),
            forall|name: Seq<char>| #[trigger] old(self).view().contains_key(name) ==> final(self).view().contains_key(name),
    {
        proof {
            reveal_strlit("ArithmeticGrammar");
            reveal_strlit("JsonGrammar");
            reveal_strlit("LLMApiGrammar");
            reveal_strlit("ConfigurationGrammar");
            reveal_strlit("PromptTemplateGrammar");
            reveal_strlit("ResourceManagement");
            reveal_strlit("LLMQueryLanguage");
            reveal_strlit("ZPlusPlus");
            reveal_strlit("LLMSystemSpecification");
            reveal_strlit("InferenceWorkflowSpecification");
        }
        let g0 = create_arithmetic_grammar();
        let ghost v0 = g0;
        let _ = self.add_grammar(g0);
        let g1 = create_json_grammar();
        let ghost v1 = g1;
        let _ = self.add_grammar(g1);
        let g2 = create_llm_api_grammar();
        let ghost v2 = g2;
        let _ = self.add_grammar(g2);
        let g3 = create_configuration_grammar();
        let ghost v3 = g3;
        let _ = self.add_grammar(g3);
        let g4 = create_prompt_template_grammar();
        let ghost v4 = g4;
        let _ = self.add_grammar(g4);
        let g5 = create_resource_management_yacc_grammar();
        let ghost v5 = g5;
        let _ = self.add_grammar(g5);
        let g6 = create_llm_query_yacc_grammar();
        let ghost v6 = g6;
        let _ = self.add_grammar(g6);
        let g7 = create_zpp_specification_grammar();
        let ghost v7 = g7;
        let _ = self.add_grammar(g7);
        let g8 = create_llm_system_zpp_grammar();
        let ghost v8 = g8;
        let _ = self.add_grammar(g8);
        let g9 = create_inference_workflow_zpp_grammar();
        let ghost v9 = g9;
        let _ = self.add_grammar(g9);
        proof {
            assert("ArithmeticGrammar"@.len() == 17);
            assert("JsonGrammar"@.len() == 11);
            assert("LLMApiGrammar"@.len() == 13);
            assert("ConfigurationGrammar"@.len() == 20);
            assert("PromptTemplateGrammar"@.len() == 21);
            assert("ResourceManagement"@.len() == 18);
            assert("LLMQueryLanguage"@.len() == 16);
            assert("ZPlusPlus"@.len() == 9);
            assert("LLMSystemSpecification"@.len() == 22);
            assert("InferenceWorkflowSpecification"@.len() == 30);
            assert(self.view()["ArithmeticGrammar"@] == v0);
            assert(self.view()["JsonGrammar"@] == v1);
            assert(self.view()["LLMApiGrammar"@] == v2);
            assert(self.view()["ConfigurationGrammar"@] == v3);
            assert(self.view()["PromptTemplateGrammar"@] == v4);
            assert(self.view()["ResourceManagement"@] == v5);
            assert(self.view()["LLMQueryLanguage"@] == v6);
            assert(self.view()["ZPlusPlus"@] == v7);
            assert(self.view()["LLMSystemSpecification"@] == v8);
            assert(self.view()["InferenceWorkflowSpecification"@] == v9);
        }
        Ok(())
    }
}

} // verus!
