use vstd::prelude::*;

use crate::agent_desired_state::AgentDesiredState;
use crate::text::push_char;

verus! {

// The durable store's contents, as text: one line per assignment, made of a
// letter for the desired state (`A`, `D` or `S`) followed by the agent id,
// in which a backslash is written `\\` and a line break `\n`.

pub open spec fn state_letter(d: AgentDesiredState) -> char {
    match d {
        AgentDesiredState::Active => 'A',
        AgentDesiredState::Draining => 'D',
        AgentDesiredState::Stopped => 'S',
    }
}

pub open spec fn state_of_letter(c: char) -> Option<AgentDesiredState> {
    if c == 'A' {
        Some(AgentDesiredState::Active)
    } else if c == 'D' {
        Some(AgentDesiredState::Draining)
    } else if c == 'S' {
        Some(AgentDesiredState::Stopped)
    } else {
        None
    }
}

pub open spec fn escape_char(c: char) -> Seq<char> {
    if c == '\\' {
        seq!['\\', '\\']
    } else if c == '\n' {
        seq!['\\', 'n']
    } else {
        seq![c]
    }
}

/// An id with its backslashes and line breaks escaped.
pub open spec fn escape(s: Seq<char>) -> Seq<char>
    decreases s.len(),
{
    if s.len() == 0 {
        Seq::empty()
    } else {
        escape_char(s[0]) + escape(s.skip(1))
    }
}

/// The line of one assignment.
pub open spec fn encode_line(e: (Seq<char>, AgentDesiredState)) -> Seq<char> {
    seq![state_letter(e.1)] + escape(e.0) + seq!['\n']
}

/// The text of a sequence of assignments.
pub open spec fn encode_lines(es: Seq<(Seq<char>, AgentDesiredState)>) -> Seq<char>
    decreases es.len(),
{
    if es.len() == 0 {
        Seq::empty()
    } else {
        encode_line(es[0]) + encode_lines(es.skip(1))
    }
}

/// Reads an escaped id up to the line break that ends it: the id, and how
/// many characters it took, the line break included.
pub open spec fn unescape_line(s: Seq<char>) -> Option<(Seq<char>, int)>
    decreases s.len(),
{
    if s.len() == 0 {
        None
    } else if s[0] == '\n' {
        Some((Seq::empty(), 1))
    } else if s[0] == '\\' {
        if s.len() < 2 {
            None
        } else if s[1] == '\\' || s[1] == 'n' {
            match unescape_line(s.skip(2)) {
                Some(r) => Some((seq![if s[1] == 'n' { '\n' } else { '\\' }] + r.0, r.1 + 2)),
                None => None,
            }
        } else {
            None
        }
    } else {
        match unescape_line(s.skip(1)) {
            Some(r) => Some((seq![s[0]] + r.0, r.1 + 1)),
            None => None,
        }
    }
}

/// Reads a whole text of assignments; `None` where it is not one.
pub open spec fn decode_lines(s: Seq<char>) -> Option<Seq<(Seq<char>, AgentDesiredState)>>
    decreases s.len(),
{
    if s.len() == 0 {
        Some(Seq::empty())
    } else {
        match state_of_letter(s[0]) {
            None => None,
            Some(d) => match unescape_line(s.skip(1)) {
                None => None,
                Some(r) => if 0 < r.1 <= s.len() - 1 {
                    match decode_lines(s.skip(1 + r.1)) {
                        Some(rest) => Some(seq![(r.0, d)] + rest),
                        None => None,
                    }
                } else {
                    None
                },
            },
        }
    }
}

pub proof fn lemma_unescape_bounds(s: Seq<char>)
    ensures
        match unescape_line(s) {
            Some(r) => 0 < r.1 <= s.len(),
            None => true,
        },
    decreases s.len(),
{
    if s.len() > 0 && s[0] != '\n' {
        if s[0] == '\\' {
            if s.len() >= 2 {
                lemma_unescape_bounds(s.skip(2));
            }
        } else {
            lemma_unescape_bounds(s.skip(1));
        }
    }
}

/// An escaped id followed by a line break reads back as the id.
pub proof fn lemma_unescape_escape(id: Seq<char>, rest: Seq<char>)
    ensures
        unescape_line(escape(id) + seq!['\n'] + rest) == Some((id, escape(id).len() as int + 1)),
    decreases id.len(),
{
    let s = escape(id) + seq!['\n'] + rest;
    if id.len() == 0 {
        assert(escape(id) =~= Seq::<char>::empty());
        assert(s[0] == '\n');
        assert(id =~= Seq::<char>::empty());
    } else {
        let tail = id.skip(1);
        lemma_unescape_escape(tail, rest);
        let t = escape(tail) + seq!['\n'] + rest;
        let e = escape_char(id[0]);
        assert(escape(id) == e + escape(tail));
        assert(s =~= e + t);
        assert(s.skip(e.len() as int) =~= t);
        assert(id =~= seq![id[0]] + tail);
        if id[0] == '\\' {
            assert(s[0] == '\\' && s[1] == '\\');
        } else if id[0] == '\n' {
            assert(s[0] == '\\' && s[1] == 'n');
        } else {
            assert(s[0] == id[0]);
        }
    }
}

/// Reading the text of a sequence of assignments gives the sequence back.
pub proof fn lemma_decode_encode(es: Seq<(Seq<char>, AgentDesiredState)>)
    ensures
        decode_lines(encode_lines(es)) == Some(es),
    decreases es.len(),
{
    if es.len() == 0 {
        assert(encode_lines(es) =~= Seq::<char>::empty());
        assert(es =~= Seq::<(Seq<char>, AgentDesiredState)>::empty());
    } else {
        let e = es[0];
        let rest = es.skip(1);
        lemma_decode_encode(rest);
        let s = encode_lines(es);
        let tail = encode_lines(rest);
        assert(s == encode_line(e) + tail);
        assert(s.skip(1) =~= escape(e.0) + seq!['\n'] + tail);
        lemma_unescape_escape(e.0, tail);
        let n: int = escape(e.0).len() as int + 1;
        assert(s.skip(1 + n) =~= tail);
        assert(state_of_letter(s[0]) == Some(e.1));
        assert(es =~= seq![(e.0, e.1)] + rest);
    }
}

pub proof fn lemma_escape_push(s: Seq<char>, c: char)
    ensures
        escape(s.push(c)) == escape(s) + escape_char(c),
    decreases s.len(),
{
    if s.len() == 0 {
        assert(s.push(c).skip(1) =~= Seq::<char>::empty());
        assert(escape(Seq::<char>::empty()) =~= Seq::<char>::empty());
        assert(escape(s.push(c)) =~= escape(s) + escape_char(c));
    } else {
        lemma_escape_push(s.skip(1), c);
        assert(s.push(c).skip(1) =~= s.skip(1).push(c));
        assert(escape(s.push(c)) =~= escape(s) + escape_char(c));
    }
}

pub proof fn lemma_encode_push(es: Seq<(Seq<char>, AgentDesiredState)>, e: (Seq<char>, AgentDesiredState))
    ensures
        encode_lines(es.push(e)) == encode_lines(es) + encode_line(e),
    decreases es.len(),
{
    if es.len() == 0 {
        assert(es.push(e).skip(1) =~= Seq::<(Seq<char>, AgentDesiredState)>::empty());
        assert(encode_lines(Seq::<(Seq<char>, AgentDesiredState)>::empty()) =~= Seq::<char>::empty());
        assert(encode_lines(es.push(e)) =~= encode_lines(es) + encode_line(e));
    } else {
        lemma_encode_push(es.skip(1), e);
        assert(es.push(e).skip(1) =~= es.skip(1).push(e));
        assert(encode_lines(es.push(e)) =~= encode_lines(es) + encode_line(e));
    }
}

pub fn state_letter_of(d: AgentDesiredState) -> (r: char)
    ensures
        r == state_letter(d),
{
    match d {
        AgentDesiredState::Active => 'A',
        AgentDesiredState::Draining => 'D',
        AgentDesiredState::Stopped => 'S',
    }
}

pub fn state_from_letter(c: char) -> (r: Option<AgentDesiredState>)
    ensures
        r == state_of_letter(c),
{
    if c == 'A' {
        Some(AgentDesiredState::Active)
    } else if c == 'D' {
        Some(AgentDesiredState::Draining)
    } else if c == 'S' {
        Some(AgentDesiredState::Stopped)
    } else {
        None
    }
}

/// Appends the line of one assignment to `out`.
pub fn write_line(out: &mut Vec<char>, id: &str, d: AgentDesiredState)
    ensures
        final(out)@ == old(out)@ + encode_line((id@, d)),
{
    out.push(state_letter_of(d));
    let ghost start = out@;
    let n = id.unicode_len();
    let mut i: usize = 0;
    while i < n
        invariant
            n == id@.len(),
            i <= n,
            out@ == start + escape(id@.take(i as int)),
        decreases n - i,
    {
        let c = id.get_char(i);
        proof {
            lemma_escape_push(id@.take(i as int), c);
            assert(id@.take(i as int).push(c) =~= id@.take(i + 1));
        }
        if c == '\\' {
            out.push('\\');
            out.push('\\');
        } else if c == '\n' {
            out.push('\\');
            out.push('n');
        } else {
            out.push(c);
        }
        proof {
            assert(out@ =~= start + escape(id@.take(i + 1)));
        }
        i = i + 1;
    }
    out.push('\n');
    proof {
        assert(id@.take(n as int) =~= id@);
        assert(out@ =~= old(out)@ + encode_line((id@, d)));
    }
}

/// `r` with `p` put before its id and `k` added to its length.
pub open spec fn extend_read(p: Seq<char>, k: int, r: Option<(Seq<char>, int)>) -> Option<(Seq<char>, int)> {
    match r {
        Some(x) => Some((p + x.0, x.1 + k)),
        None => None,
    }
}

/// Reads the escaped id that starts at `start`, up to its line break.
fn read_id(s: &Vec<char>, start: usize) -> (r: Option<(String, usize)>)
    requires
        start <= s@.len(),
    ensures
        match r {
            Some(x) => unescape_line(s@.skip(start as int)) == Some((x.0@, x.1 as int)),
            None => unescape_line(s@.skip(start as int)) is None,
        },
{
    let mut id = String::new();
    let mut j: usize = start;
    while j < s.len()
        invariant
            start <= j <= s@.len(),
            unescape_line(s@.skip(start as int)) == extend_read(id@, j - start, unescape_line(s@.skip(j as int))),
        decreases s@.len() - j,
    {
        let ghost t = s@.skip(j as int);
        let c = s[j];
        if c == '\n' {
            assert(unescape_line(t) == Some((Seq::<char>::empty(), 1int)));
            assert(id@ + Seq::<char>::empty() =~= id@);
            return Some((id, j - start + 1));
        } else if c == '\\' {
            if j + 1 >= s.len() {
                assert(unescape_line(t) is None);
                return None;
            }
            let d = s[j + 1];
            if d == '\\' || d == 'n' {
                let ghost before = id@;
                let u = if d == 'n' { '\n' } else { '\\' };
                push_char(&mut id, u);
                proof {
                    assert(t.skip(2) =~= s@.skip(j + 2));
                    assert(t[1] == d);
                    let rest = unescape_line(s@.skip(j + 2));
                    assert(unescape_line(t) == extend_read(seq![u], 2, rest));
                    match rest {
                        Some(x) => {
                            assert(before + (seq![u] + x.0) =~= id@ + x.0);
                        },
                        None => {},
                    }
                }
                j = j + 2;
            } else {
                assert(unescape_line(t) is None);
                return None;
            }
        } else {
            let ghost before = id@;
            push_char(&mut id, c);
            proof {
                assert(t.skip(1) =~= s@.skip(j + 1));
                let rest = unescape_line(s@.skip(j + 1));
                assert(unescape_line(t) == extend_read(seq![c], 1, rest));
                match rest {
                    Some(x) => {
                        assert(before + (seq![c] + x.0) =~= id@ + x.0);
                    },
                    None => {},
                }
            }
            j = j + 1;
        }
    }
    assert(s@.skip(j as int).len() == 0);
    None
}

pub open spec fn pairs_view(v: Seq<(String, AgentDesiredState)>) -> Seq<(Seq<char>, AgentDesiredState)> {
    v.map_values(|p: (String, AgentDesiredState)| (p.0@, p.1))
}

/// `r` with `p` put before it.
pub open spec fn extend_decoded(
    p: Seq<(Seq<char>, AgentDesiredState)>,
    r: Option<Seq<(Seq<char>, AgentDesiredState)>>,
) -> Option<Seq<(Seq<char>, AgentDesiredState)>> {
    match r {
        Some(x) => Some(p + x),
        None => None,
    }
}

/// Reads a whole text of assignments, in order; `None` where it is not one.
pub fn decode_assignments(s: &Vec<char>) -> (r: Option<Vec<(String, AgentDesiredState)>>)
    ensures
        match r {
            Some(v) => decode_lines(s@) == Some(pairs_view(v@)),
            None => decode_lines(s@) is None,
        },
{
    let mut out: Vec<(String, AgentDesiredState)> = Vec::new();
    let mut pos: usize = 0;
    proof {
        assert(s@.skip(0) =~= s@);
        assert(pairs_view(out@) + Seq::<(Seq<char>, AgentDesiredState)>::empty() =~= pairs_view(out@));
        match decode_lines(s@) {
            Some(x) => { assert(pairs_view(out@) + x =~= x); },
            None => {},
        }
    }
    while pos < s.len()
        invariant
            pos <= s@.len(),
            decode_lines(s@) == extend_decoded(pairs_view(out@), decode_lines(s@.skip(pos as int))),
        decreases s@.len() - pos,
    {
        let ghost t = s@.skip(pos as int);
        let d = match state_from_letter(s[pos]) {
            Some(d) => d,
            None => {
                return None;
            },
        };
        proof {
            assert(t.skip(1) =~= s@.skip(pos + 1));
            lemma_unescape_bounds(t.skip(1));
        }
        match read_id(s, pos + 1) {
            None => {
                return None;
            },
            Some((id, n)) => {
                let ghost before = pairs_view(out@);
                let ghost idv = id@;
                out.push((id, d));
                proof {
                    assert(t.skip(1 + n) =~= s@.skip(pos + 1 + n));
                    assert(pairs_view(out@) =~= before + seq![(idv, d)]);
                    match decode_lines(s@.skip(pos + 1 + n)) {
                        Some(x) => {
                            assert(before + (seq![(idv, d)] + x) =~= pairs_view(out@) + x);
                        },
                        None => {},
                    }
                }
                pos = pos + 1 + n;
            },
        }
    }
    proof {
        assert(s@.skip(pos as int).len() == 0);
        assert(pairs_view(out@) + Seq::<(Seq<char>, AgentDesiredState)>::empty() =~= pairs_view(out@));
    }
    Some(out)
}

} // verus!
