use vstd::prelude::*;

use crate::grammar_file::{initial_scan, lines_of, parse_grammar_file, rules_view, scan_lines};
use crate::grammar_parser::{
    code_for, generate_with, grammar_type_from_name, grammar_type_named, is_whole_input_tree, parse_with,
    root_node_type_of, supports_language_of, GrammarDefinition, GrammarError, ParseTree,
};
use crate::text::{append_str, str_equal};

verus! {

/// Request to parse input with a loaded grammar.
#[derive(Debug)]
pub struct ParseRequest {
    pub grammar_name: String,
    pub input: String,
}

/// Outcome of a parse request.
#[derive(Debug)]
pub struct ParseResponse {
    pub success: bool,
    pub parse_tree: Option<ParseTree>,
    pub error: Option<String>,
}

/// Request to load a grammar from the text of a grammar file.
#[derive(Debug)]
pub struct LoadGrammarRequest {
    pub name: String,
    pub grammar_type: String,
    pub content: String,
}

/// Outcome of a load request.
#[derive(Debug)]
pub struct LoadGrammarResponse {
    pub success: bool,
    pub message: String,
}

/// Request to generate code from a loaded grammar.
#[derive(Debug)]
pub struct GenerateCodeRequest {
    pub grammar_name: String,
    pub target_language: String,
}

/// Outcome of a code generation request.
#[derive(Debug)]
pub struct GenerateCodeResponse {
    pub success: bool,
    pub code: Option<String>,
    pub error: Option<String>,
}

pub open spec fn names_unique(gs: Seq<GrammarDefinition>) -> bool {
    forall|i: int, j: int| 0 <= i < j < gs.len() ==> (#[trigger] gs[i]).name@ != (#[trigger] gs[j]).name@
}

pub open spec fn holds_name(gs: Seq<GrammarDefinition>, name: Seq<char>) -> bool {
    exists|i: int| 0 <= i < gs.len() && (#[trigger] gs[i]).name@ == name
}

pub open spec fn name_index(gs: Seq<GrammarDefinition>, name: Seq<char>) -> int {
    choose|i: int| 0 <= i < gs.len() && (#[trigger] gs[i]).name@ == name
}

/// The grammars that a sequence stands for, by name.
pub open spec fn grammars_view(gs: Seq<GrammarDefinition>) -> Map<Seq<char>, GrammarDefinition> {
    Map::new(|name: Seq<char>| holds_name(gs, name), |name: Seq<char>| gs[name_index(gs, name)])
}

pub proof fn lemma_name_index(gs: Seq<GrammarDefinition>, i: int)
    requires
        names_unique(gs),
        0 <= i < gs.len(),
    ensures
        holds_name(gs, gs[i].name@),
        name_index(gs, gs[i].name@) == i,
{
    let name = gs[i].name@;
    assert(holds_name(gs, name));
    let j = name_index(gs, name);
    if j != i {
        if j < i {
            assert(gs[j].name@ != gs[i].name@);
        } else {
            assert(gs[i].name@ != gs[j].name@);
        }
    }
}

pub proof fn lemma_grammars_after_replace(gs: Seq<GrammarDefinition>, i: int, g: GrammarDefinition)
    requires
        names_unique(gs),
        0 <= i < gs.len(),
        g.name@ == gs[i].name@,
    ensures
        names_unique(gs.update(i, g)),
        grammars_view(gs.update(i, g)) == grammars_view(gs).insert(g.name@, g),
{
    let s2 = gs.update(i, g);
    assert forall|a: int, b: int| 0 <= a < b < s2.len() implies (#[trigger] s2[a]).name@ != (#[trigger] s2[b]).name@ by {
        assert(gs[a].name@ != gs[b].name@);
    }
    lemma_name_index(s2, i);
    assert forall|name: Seq<char>| #[trigger] holds_name(s2, name) == (holds_name(gs, name) || name == g.name@) by {
        if holds_name(gs, name) {
            let k = name_index(gs, name);
            if k != i {
                assert(s2[k].name@ == name);
            }
        }
        if holds_name(s2, name) {
            let k = name_index(s2, name);
            assert(k == i || gs[k].name@ == name);
        }
    }
    assert forall|name: Seq<char>| #[trigger] holds_name(s2, name) && name != g.name@ implies
        grammars_view(s2)[name] == grammars_view(gs)[name] by {
        let k = name_index(gs, name);
        assert(s2[k].name@ == name);
        lemma_name_index(gs, k);
        lemma_name_index(s2, k);
    }
    assert(grammars_view(s2) =~= grammars_view(gs).insert(g.name@, g));
}

pub proof fn lemma_grammars_after_push(gs: Seq<GrammarDefinition>, g: GrammarDefinition)
    requires
        names_unique(gs),
        !holds_name(gs, g.name@),
    ensures
        names_unique(gs.push(g)),
        grammars_view(gs.push(g)) == grammars_view(gs).insert(g.name@, g),
{
    let s2 = gs.push(g);
    assert forall|a: int, b: int| 0 <= a < b < s2.len() implies (#[trigger] s2[a]).name@ != (#[trigger] s2[b]).name@ by {
        if b < gs.len() {
            assert(gs[a].name@ != gs[b].name@);
        } else {
            assert(s2[a] == gs[a]);
        }
    }
    lemma_name_index(s2, gs.len() as int);
    assert forall|name: Seq<char>| #[trigger] holds_name(s2, name) == (holds_name(gs, name) || name == g.name@) by {
        if holds_name(gs, name) {
            let k = name_index(gs, name);
            assert(s2[k].name@ == name);
        }
        if holds_name(s2, name) && name != g.name@ {
            let k = name_index(s2, name);
            assert(gs[k].name@ == name);
        }
    }
    assert forall|name: Seq<char>| #[trigger] holds_name(s2, name) && name != g.name@ implies
        grammars_view(s2)[name] == grammars_view(gs)[name] by {
        let k = name_index(gs, name);
        assert(s2[k].name@ == name);
        lemma_name_index(gs, k);
        lemma_name_index(s2, k);
    }
    assert(grammars_view(s2) =~= grammars_view(gs).insert(g.name@, g));
}

fn find_grammar(gs: &Vec<GrammarDefinition>, name: &str) -> (r: Option<usize>)
    ensures
        match r {
            Some(i) => i < gs@.len() && gs@[i as int].name@ == name@,
            None => !holds_name(gs@, name@),
        },
{
    let mut i: usize = 0;
    while i < gs.len()
        invariant
            i <= gs@.len(),
            forall|j: int| 0 <= j < i ==> (#[trigger] gs@[j]).name@ != name@,
        decreases gs@.len() - i,
    {
        if str_equal(gs[i].name.as_str(), name) {
            return Some(i);
        }
        i = i + 1;
    }
    None
}

/// Whether some string of `names` is `name`.
pub open spec fn lists_name(names: Seq<String>, name: Seq<char>) -> bool {
    exists|i: int| 0 <= i < names.len() && (#[trigger] names[i])@ == name
}

/// The loaded grammars, by name, and what can be done with them.
pub struct GrammarService {
    grammars: Vec<GrammarDefinition>,
}

impl GrammarService {
    pub closed spec fn wf(&self) -> bool {
        names_unique(self.grammars@)
    }

    /// Each loaded grammar, by name.
    pub closed spec fn view(&self) -> Map<Seq<char>, GrammarDefinition> {
        grammars_view(self.grammars@)
    }

    pub fn new() -> (r: GrammarService)
        ensures
            r.wf(),
            r.view() == Map::<Seq<char>, GrammarDefinition>::empty(),
    {
        let r = GrammarService { grammars: Vec::new() };
        assert(r.view() =~= Map::<Seq<char>, GrammarDefinition>::empty());
        r
    }

    /// Loads a grammar under its name, replacing one loaded under the same name.
    pub fn add_grammar(&mut self, grammar: GrammarDefinition) -> (r: Result<(), GrammarError>)
        requires
            old(self).wf(),
        ensures
            r is Ok,
            final(self).wf(),
            final(self).view() == old(self).view().insert(grammar.name@, grammar),
    {
        match find_grammar(&self.grammars, grammar.name.as_str()) {
            Some(i) => {
                proof {
                    lemma_grammars_after_replace(self.grammars@, i as int, grammar);
                }
                self.grammars.set(i, grammar);
            },
            None => {
                proof {
                    lemma_grammars_after_push(self.grammars@, grammar);
                }
                self.grammars.push(grammar);
            },
        }
        Ok(())
    }

    /// Parses `input` with the grammar named `grammar_name`.
    pub fn parse(&self, grammar_name: &str, input: &str) -> (r: Result<ParseTree, GrammarError>)
        requires
            self.wf(),
        ensures
            match r {
                Ok(t) => self.view().contains_key(grammar_name@) && is_whole_input_tree(
                    t,
                    root_node_type_of(self.view()[grammar_name@].grammar_type),
                    input@,
                    input.len() as nat,
                ),
                Err(e) => !self.view().contains_key(grammar_name@) && e == GrammarError::GrammarNotFound,
            },
    {
        match find_grammar(&self.grammars, grammar_name) {
            Some(i) => {
                proof {
                    lemma_name_index(self.grammars@, i as int);
                }
                parse_with(self.grammars[i].grammar_type, input)
            },
            None => Err(GrammarError::GrammarNotFound),
        }
    }

    /// Generates code in `target_language` from the grammar named `grammar_name`.
    pub fn generate_code(&self, grammar_name: &str, target_language: &str) -> (r: Result<String, GrammarError>)
        requires
            self.wf(),
        ensures
            !self.view().contains_key(grammar_name@) ==> r == Err::<String, GrammarError>(
                GrammarError::GrammarNotFound,
            ),
            self.view().contains_key(grammar_name@) ==> {
                let gt = self.view()[grammar_name@].grammar_type;
                &&& supports_language_of(gt, target_language@) <==> r is Ok
                &&& r is Ok ==> r->Ok_0@ == code_for(self.view()[grammar_name@], target_language@)
                &&& !supports_language_of(gt, target_language@) ==> r == Err::<String, GrammarError>(
                    GrammarError::UnsupportedLanguage,
                )
            },
    {
        match find_grammar(&self.grammars, grammar_name) {
            Some(i) => {
                proof {
                    lemma_name_index(self.grammars@, i as int);
                }
                generate_with(&self.grammars[i], target_language)
            },
            None => Err(GrammarError::GrammarNotFound),
        }
    }

    /// The names of the loaded grammars, each once.
    pub fn list_grammars(&self) -> (r: Result<Vec<String>, GrammarError>)
        requires
            self.wf(),
        ensures
            match r {
                Ok(names) => {
                    &&& forall|i: int| 0 <= i < names@.len() ==> self.view().contains_key(#[trigger] names@[i]@)
                    &&& forall|name: Seq<char>| #[trigger] self.view().contains_key(name) ==> lists_name(names@, name)
                    &&& forall|i: int, j: int| 0 <= i < j < names@.len() ==> (#[trigger] names@[i])@ != (#[trigger] names@[j])@
                },
                Err(_) => false,
            },
    {
        let mut names: Vec<String> = Vec::new();
        let mut i: usize = 0;
        while i < self.grammars.len()
            invariant
                i <= self.grammars@.len(),
                names@.len() == i,
                forall|j: int| 0 <= j < i ==> (#[trigger] names@[j])@ == self.grammars@[j].name@,
            decreases self.grammars@.len() - i,
        {
            names.push(self.grammars[i].name.clone());
            i = i + 1;
        }
        proof {
            assert forall|k: int| 0 <= k < names@.len() implies self.view().contains_key(#[trigger] names@[k]@) by {
                lemma_name_index(self.grammars@, k);
            }
            assert forall|name: Seq<char>| #[trigger] self.view().contains_key(name) implies lists_name(names@, name) by {
                assert(holds_name(self.grammars@, name));
                let k = name_index(self.grammars@, name);
                assert(0 <= k < names@.len());
                assert(names@[k]@ == name);
            }
            assert forall|a: int, b: int| 0 <= a < b < names@.len() implies (#[trigger] names@[a])@ != (#[trigger] names@[b])@ by {
                assert(self.grammars@[a].name@ != self.grammars@[b].name@);
            }
        }
        Ok(names)
    }
}

impl Default for GrammarService {
    fn default() -> (r: GrammarService)
        ensures
            r.wf(),
            r.view() == Map::<Seq<char>, GrammarDefinition>::empty(),
    {
        GrammarService::new()
    }
}

impl GrammarService {
    /// Answers a parse request: the tree, or why there is none.
    pub fn parse_request(&self, request: &ParseRequest) -> (r: ParseResponse)
        requires
            self.wf(),
        ensures
            r.success == self.view().contains_key(request.grammar_name@),
            r.success ==> r.error is None && r.parse_tree is Some && {
                let t = r.parse_tree->Some_0;
                &&& t.node_type@ == root_node_type_of(self.view()[request.grammar_name@].grammar_type)
                &&& t.value is Some
                &&& t.value->Some_0@ == request.input@
                &&& t.children@.len() == 0
                &&& t.span is Some && t.span->Some_0.0 == 0
            },
            !r.success ==> r.parse_tree is None && r.error is Some && r.error->Some_0@
                == GrammarError::GrammarNotFound.message_spec(),
    {
        match self.parse(request.grammar_name.as_str(), request.input.as_str()) {
            Ok(tree) => ParseResponse { success: true, parse_tree: Some(tree), error: None },
            Err(e) => ParseResponse { success: false, parse_tree: None, error: Some(e.message()) },
        }
    }

    /// Answers a code generation request: the code, or why there is none.
    pub fn generate_code_request(&self, request: &GenerateCodeRequest) -> (r: GenerateCodeResponse)
        requires
            self.wf(),
        ensures
            r.success == (self.view().contains_key(request.grammar_name@) && supports_language_of(
                self.view()[request.grammar_name@].grammar_type,
                request.target_language@,
            )),
            r.success ==> r.code is Some && r.error is None && r.code->Some_0@ == code_for(
                self.view()[request.grammar_name@],
                request.target_language@,
            ),
            !r.success ==> r.code is None && r.error is Some && r.error->Some_0@ == if self.view().contains_key(
                request.grammar_name@,
            ) {
                GrammarError::UnsupportedLanguage.message_spec()
            } else {
                GrammarError::GrammarNotFound.message_spec()
            },
    {
        match self.generate_code(request.grammar_name.as_str(), request.target_language.as_str()) {
            Ok(code) => GenerateCodeResponse { success: true, code: Some(code), error: None },
            Err(e) => GenerateCodeResponse { success: false, code: None, error: Some(e.message()) },
        }
    }

    /// Answers a load request: reads the grammar file in the dialect named
    /// by the request and loads it under the request's name. An unknown
    /// dialect, or a file without a rule, loads nothing.
    pub fn load_grammar(&mut self, request: &LoadGrammarRequest) -> (r: LoadGrammarResponse)
        requires
            old(self).wf(),
        ensures
            final(self).wf(),
            r.success == (grammar_type_named(request.grammar_type@) is Some
                && scan_lines(initial_scan(), lines_of(request.content@)).rules.len() > 0),
            r.success ==> {
                let sc = scan_lines(initial_scan(), lines_of(request.content@));
                let g = final(self).view()[request.name@];
                &&& final(self).view() == old(self).view().insert(request.name@, g)
                &&& g.name@ == request.name@
                &&& g.grammar_type == grammar_type_named(request.grammar_type@)->Some_0
                &&& g.start_rule@ == sc.start_rule
                &&& rules_view(g.rules@) == sc.rules
                &&& forall|i: int| 0 <= i < g.rules@.len() ==> (#[trigger] g.rules@[i]).action is None
                &&& g.metadata@ == Map::<String, String>::empty()
            },
            !r.success ==> final(self).view() == old(self).view(),
    {
        let grammar_type = match grammar_type_from_name(request.grammar_type.as_str()) {
            Some(t) => t,
            None => {
                let mut message = String::from_str("Unsupported grammar type: ");
                append_str(&mut message, request.grammar_type.as_str());
                return LoadGrammarResponse { success: false, message };
            },
        };
        match parse_grammar_file(request.content.as_str(), grammar_type) {
            Ok(grammar) => {
                let named = GrammarDefinition { name: request.name.clone(), ..grammar };
                let _ = self.add_grammar(named);
                let mut message = String::from_str("Grammar '");
                append_str(&mut message, request.name.as_str());
                append_str(&mut message, "' loaded successfully");
                LoadGrammarResponse { success: true, message }
            },
            Err(e) => {
                let mut message = String::from_str("Failed to parse grammar: ");
                let reason = e.message();
                append_str(&mut message, reason.as_str());
                LoadGrammarResponse { success: false, message }
            },
        }
    }
}

} // verus!
