use std::collections::HashMap;

use vstd::prelude::*;

use crate::grammar_parser::{GrammarDefinition, GrammarError, GrammarRule, GrammarType};
use crate::text::{has_prefix, starts_with, trim, trimmed_of};

verus! {

// A grammar file is read line by line. `grammar NAME;` names the grammar,
// `start RULE;` names its start rule, and any other line holding a ':' that
// is not a comment (`//` or `#`) is a rule `NAME: PRODUCTION`.

/// `k` is the position of the first `c` in `s`.
pub open spec fn is_first(s: Seq<char>, c: char, k: int) -> bool {
    &&& 0 <= k < s.len()
    &&& s[k] == c
    &&& forall|j: int| 0 <= j < k ==> s[j] != c
}

pub open spec fn first_index(s: Seq<char>, c: char) -> int {
    choose|k: int| is_first(s, c, k)
}

pub proof fn lemma_first_unique(s: Seq<char>, c: char, k: int)
    requires
        is_first(s, c, k),
    ensures
        first_index(s, c) == k,
{
    let k2 = first_index(s, c);
    assert(is_first(s, c, k2));
    if k2 < k {
        assert(s[k2] != c);
    } else if k < k2 {
        assert(s[k] != c);
    }
}

/// A line without the carriage return that ends it, if it has one.
pub open spec fn strip_cr(l: Seq<char>) -> Seq<char> {
    if l.len() > 0 && l.last() == '\r' {
        l.drop_last()
    } else {
        l
    }
}

/// The lines of a text: split at each line feed, a carriage return before
/// it dropped; the last line needs no line feed, and an empty last line is
/// no line.
pub open spec fn lines_of(s: Seq<char>) -> Seq<Seq<char>>
    decreases s.len(),
{
    if s.len() == 0 {
        Seq::empty()
    } else if exists|k: int| is_first(s, '\n', k) {
        let k = first_index(s, '\n');
        seq![strip_cr(s.take(k))] + lines_of(s.skip(k + 1))
    } else {
        seq![s]
    }
}

/// `s` without the `c`s that end it.
pub open spec fn trim_trailing(s: Seq<char>, c: char) -> Seq<char>
    decreases s.len(),
{
    if s.len() > 0 && s.last() == c {
        trim_trailing(s.drop_last(), c)
    } else {
        s
    }
}

/// What the scan of a grammar file has found so far: the grammar's name,
/// its start rule, and its rules as name and production.
pub struct GrammarScan {
    pub name: Seq<char>,
    pub start_rule: Seq<char>,
    pub rules: Seq<(Seq<char>, Seq<char>)>,
}

pub open spec fn initial_scan() -> GrammarScan {
    GrammarScan { name: "unnamed_grammar"@, start_rule: "start"@, rules: Seq::empty() }
}

/// What one line adds to the scan.
pub open spec fn scan_line(st: GrammarScan, line: Seq<char>) -> GrammarScan {
    let t = trimmed_of(line);
    if has_prefix(t, "grammar "@) {
        GrammarScan { name: trim_trailing(t.skip(8), ';'), ..st }
    } else if has_prefix(t, "start "@) {
        GrammarScan { start_rule: trim_trailing(t.skip(6), ';'), ..st }
    } else if (exists|k: int| is_first(t, ':', k)) && !has_prefix(t, "//"@) && !has_prefix(t, "#"@) {
        let k = first_index(t, ':');
        GrammarScan {
            rules: st.rules.push(
                (trimmed_of(t.take(k)), trim_trailing(trimmed_of(t.skip(k + 1)), ';')),
            ),
            ..st
        }
    } else {
        st
    }
}

pub open spec fn scan_lines(st: GrammarScan, lines: Seq<Seq<char>>) -> GrammarScan
    decreases lines.len(),
{
    if lines.len() == 0 {
        st
    } else {
        scan_lines(scan_line(st, lines[0]), lines.skip(1))
    }
}

pub open spec fn rules_view(rules: Seq<GrammarRule>) -> Seq<(Seq<char>, Seq<char>)> {
    rules.map_values(|r: GrammarRule| (r.name@, r.production@))
}

/// The position of the first `c` in `s` at or after `from`, if any.
fn find_char_from(s: &str, from: usize, c: char) -> (r: Option<usize>)
    requires
        from <= s@.len(),
    ensures
        match r {
            Some(k) => from <= k && is_first(s@.skip(from as int), c, k - from),
            None => forall|j: int| from <= j < s@.len() ==> s@[j] != c,
        },
{
    let n = s.unicode_len();
    let mut i: usize = from;
    while i < n
        invariant
            n == s@.len(),
            from <= i <= n,
            forall|j: int| from <= j < i ==> s@[j] != c,
        decreases n - i,
    {
        if s.get_char(i) == c {
            return Some(i);
        }
        i = i + 1;
    }
    None
}

/// `s` without the `c`s that end it.
fn trim_end_char(s: &str, c: char) -> (r: &str)
    ensures
        r@ == trim_trailing(s@, c),
{
    let mut end: usize = s.unicode_len();
    assert(s@.take(end as int) =~= s@);
    while end > 0 && s.get_char(end - 1) == c
        invariant
            end <= s@.len(),
            trim_trailing(s@, c) == trim_trailing(s@.take(end as int), c),
        decreases end,
    {
        proof {
            assert(s@.take(end as int).drop_last() =~= s@.take(end - 1));
        }
        end = end - 1;
    }
    s.substring_char(0, end)
}

/// The scan after one more line.
fn scan_one_line(name: &mut String, start_rule: &mut String, rules: &mut Vec<GrammarRule>, line: &str)
    requires
        forall|i: int| 0 <= i < old(rules)@.len() ==> (#[trigger] old(rules)@[i]).action is None,
    ensures
        forall|i: int| 0 <= i < final(rules)@.len() ==> (#[trigger] final(rules)@[i]).action is None,
        scan_line(
            GrammarScan { name: old(name)@, start_rule: old(start_rule)@, rules: rules_view(old(rules)@) },
            line@,
        ) == (GrammarScan { name: final(name)@, start_rule: final(start_rule)@, rules: rules_view(final(rules)@) }),
{
    let t = trim(line);
    proof {
        reveal_strlit("grammar ");
        reveal_strlit("start ");
    }
    if starts_with(t, "grammar ") {
        *name = trim_end_char(t.substring_char(8, t.unicode_len()), ';').to_owned();
        assert(t@.subrange(8, t@.len() as int) =~= t@.skip(8));
    } else if starts_with(t, "start ") {
        *start_rule = trim_end_char(t.substring_char(6, t.unicode_len()), ';').to_owned();
        assert(t@.subrange(6, t@.len() as int) =~= t@.skip(6));
    } else if !starts_with(t, "//") && !starts_with(t, "#") {
        let tl = t.unicode_len();
        assert(t@.skip(0) =~= t@);
        match find_char_from(t, 0, ':') {
            Some(k) => {
                proof {
                    lemma_first_unique(t@, ':', k as int);
                }
                let rule_name = trim(t.substring_char(0, k)).to_owned();
                let production = trim_end_char(trim(t.substring_char(k + 1, tl)), ';').to_owned();
                assert(t@.subrange(0, k as int) =~= t@.take(k as int));
                assert(t@.subrange(k + 1, t@.len() as int) =~= t@.skip(k + 1));
                let ghost before = rules@;
                rules.push(GrammarRule { name: rule_name, production, action: None });
                assert(rules_view(rules@) =~= rules_view(before).push((rule_name@, production@)));
            },
            None => {
                assert(!(exists|k: int| is_first(t@, ':', k)));
            },
        }
    }
}

/// Reads a grammar file: its name (`unnamed_grammar` by default), its start
/// rule (`start` by default) and its rules, in order. A file without a rule
/// is refused.
pub fn parse_grammar_file(content: &str, grammar_type: GrammarType) -> (r: Result<
    GrammarDefinition,
    GrammarError,
>)
    ensures
        ({
            let sc = scan_lines(initial_scan(), lines_of(content@));
            match r {
                Ok(g) => {
                    &&& sc.rules.len() > 0
                    &&& g.name@ == sc.name
                    &&& g.start_rule@ == sc.start_rule
                    &&& rules_view(g.rules@) == sc.rules
                    &&& forall|i: int| 0 <= i < g.rules@.len() ==> (#[trigger] g.rules@[i]).action is None
                    &&& g.grammar_type == grammar_type
                    &&& g.metadata@ == Map::<String, String>::empty()
                },
                Err(e) => sc.rules.len() == 0 && e == GrammarError::NoRules,
            }
        }),
{
    let mut name = String::from_str("unnamed_grammar");
    let mut start_rule = String::from_str("start");
    let mut rules: Vec<GrammarRule> = Vec::new();
    let n = content.unicode_len();
    let mut pos: usize = 0;
    proof {
        assert(content@.skip(0) =~= content@);
        assert(rules_view(rules@) =~= Seq::<(Seq<char>, Seq<char>)>::empty());
    }
    while pos < n
        invariant
            n == content@.len(),
            pos <= n,
            forall|i: int| 0 <= i < rules@.len() ==> (#[trigger] rules@[i]).action is None,
            scan_lines(initial_scan(), lines_of(content@)) == scan_lines(
                GrammarScan { name: name@, start_rule: start_rule@, rules: rules_view(rules@) },
                lines_of(content@.skip(pos as int)),
            ),
        decreases n - pos,
    {
        let ghost t = content@.skip(pos as int);
        match find_char_from(content, pos, '\n') {
            Some(k) => {
                let raw = content.substring_char(pos, k);
                let line = if k > pos && content.get_char(k - 1) == '\r' {
                    content.substring_char(pos, k - 1)
                } else {
                    raw
                };
                proof {
                    lemma_first_unique(t, '\n', k - pos);
                    assert(raw@ =~= t.take(k - pos));
                    if k > pos && content@[k - 1] == '\r' {
                        assert(line@ =~= t.take(k - pos).drop_last());
                    }
                    assert(line@ == strip_cr(t.take(k - pos)));
                    assert(t.skip(k - pos + 1) =~= content@.skip(k + 1));
                    assert(lines_of(t) == seq![line@] + lines_of(content@.skip(k + 1)));
                    assert((seq![line@] + lines_of(content@.skip(k + 1))).skip(1) =~= lines_of(content@.skip(k + 1)));
                }
                scan_one_line(&mut name, &mut start_rule, &mut rules, line);
                pos = k + 1;
            },
            None => {
                let line = content.substring_char(pos, n);
                proof {
                    assert(line@ =~= t);
                    assert(!(exists|j: int| is_first(t, '\n', j))) by {
                        if exists|j: int| is_first(t, '\n', j) {
                            let j = choose|j: int| is_first(t, '\n', j);
                            assert(content@[pos + j] == '\n');
                        }
                    }
                    assert(lines_of(t) == seq![t]);
                    assert(seq![t].skip(1) =~= Seq::<Seq<char>>::empty());
                    assert(content@.skip(n as int) =~= Seq::<char>::empty());
                }
                scan_one_line(&mut name, &mut start_rule, &mut rules, line);
                pos = n;
            },
        }
    }
    assert(content@.skip(pos as int) =~= Seq::<char>::empty());
    if rules.len() == 0 {
        Err(GrammarError::NoRules)
    } else {
        Ok(GrammarDefinition { name, grammar_type, rules, start_rule, metadata: HashMap::new() })
    }
}

} // verus!
