//! Command palette: fuzzy search over the context-pertinent command list.

use vstd::prelude::*;
use crate::actions::{spec_is_visible, CommandPaletteState, Pane, Tool};
use crate::expression_input::str_eq;
use crate::text::string_of;
use crate::camera::StandardView;
use crate::editor::EditorState;
use crate::text::{
    ascii_alnum, is_ascii_alnum, lower_chars, lower_seq, trimmed, trimmed_lower_chars,
};

verus! {

/// Scoring state after scanning a prefix of the target: score, number of query characters
/// matched, and position of the last match.
pub struct FuzzyState {
    pub score: int,
    pub matched: nat,
    pub prev: Option<int>,
}

/// Bonus for the match of query character `qc` at target position `ti`: +1 per match, +4
/// when it directly follows the previous match, +8 at a word start, +6 more when an
/// alphanumeric query character lands on a word start.
pub open spec fn match_bonus(t: Seq<char>, ti: int, qc: char, prev: Option<int>) -> int {
    let word_start = ti == 0 || !is_ascii_alnum(t[ti - 1]);
    1 + (if prev == Some(if ti >= 1 { ti - 1 } else { 0 }) {
        4int
    } else {
        0int
    }) + (if word_start {
        8int
    } else {
        0int
    }) + (if is_ascii_alnum(qc) && word_start {
        6int
    } else {
        0int
    })
}

/// Greedy left-to-right subsequence match of `q` in the first `n` characters of `t`.
pub open spec fn fuzzy_scan(q: Seq<char>, t: Seq<char>, n: nat) -> FuzzyState
    decreases n,
{
    if n == 0 {
        FuzzyState { score: 0, matched: 0, prev: None }
    } else {
        let st = fuzzy_scan(q, t, (n - 1) as nat);
        let ti = n - 1;
        if st.matched < q.len() && t[ti] == q[st.matched as int] {
            FuzzyState {
                score: st.score + match_bonus(t, ti, q[st.matched as int], st.prev),
                matched: st.matched + 1,
                prev: Some(ti),
            }
        } else {
            st
        }
    }
}

/// Fuzzy score of `query` against `target` (ASCII case-insensitive, query trimmed): `0`
/// for a blank query, the greedy subsequence score when every query character matches,
/// otherwise no match.
pub open spec fn spec_fuzzy_score(query: Seq<char>, target: Seq<char>) -> Option<int> {
    let q = lower_seq(trimmed(query));
    let t = lower_seq(target);
    if q.len() == 0 {
        Some(0)
    } else {
        let st = fuzzy_scan(q, t, t.len());
        if st.matched == q.len() {
            Some(st.score)
        } else {
            None
        }
    }
}

proof fn lemma_scan_bounds(q: Seq<char>, t: Seq<char>, n: nat)
    requires
        n <= t.len(),
    ensures
        fuzzy_scan(q, t, n).matched <= q.len(),
        0 <= fuzzy_scan(q, t, n).score <= 19 * fuzzy_scan(q, t, n).matched,
        fuzzy_scan(q, t, n).matched <= fuzzy_scan(q, t, n).score,
        fuzzy_scan(q, t, n).prev is Some ==> fuzzy_scan(q, t, n).prev->Some_0 < n,
        fuzzy_scan(q, t, n).matched == 0 ==> fuzzy_scan(q, t, n).prev is None,
    decreases n,
{
    if n > 0 {
        lemma_scan_bounds(q, t, (n - 1) as nat);
    }
}

/// Trimmed, lower-cased queries longer than this are not scored (the score could overflow).
pub open spec fn query_fits(query: Seq<char>) -> bool {
    query.len() <= 100_000_000
}

/// Fuzzy-match `query` as a subsequence of `target`. Higher scores are better.
pub fn fuzzy_score(query: &str, target: &str) -> (r: Option<i32>)
    requires
        query_fits(query@),
    ensures
        r is Some <==> spec_fuzzy_score(query@, target@) is Some,
        r is Some ==> r->Some_0 as int == spec_fuzzy_score(query@, target@)->Some_0,
{
    let q = trimmed_lower_chars(query);
    if q.len() == 0 {
        return Some(0);
    }
    let t = lower_chars(target);
    let ghost qs = q@;
    let ghost ts = t@;
    proof {
        assert(trimmed(query@).len() <= query@.len()) by {
            lemma_trimmed_len(query@);
        }
    }
    let mut score: i32 = 0;
    let mut qi: usize = 0;
    let mut prev_match: Option<usize> = None;
    let mut ti: usize = 0;
    while ti < t.len()
        invariant
            qs == q@,
            ts == t@,
            q@.len() <= 100_000_000,
            ti <= t@.len(),
            ({
                let st = fuzzy_scan(qs, ts, ti as nat);
                &&& score as int == st.score
                &&& qi as nat == st.matched
                &&& (prev_match is Some <==> st.prev is Some)
                &&& (prev_match is Some ==> prev_match->Some_0 as int == st.prev->Some_0)
            }),
        decreases t@.len() - ti,
    {
        proof {
            lemma_scan_bounds(qs, ts, ti as nat);
            lemma_scan_bounds(qs, ts, (ti + 1) as nat);
        }
        let tc = t[ti];
        if qi < q.len() && tc == q[qi] {
            let mut gain: i32 = 1;
            let back = if ti >= 1 { ti - 1 } else { 0 };
            if prev_match == Some(back) {
                gain = gain + 4;
            }
            let word_start = ti == 0 || !ascii_alnum(t[ti - 1]);
            if word_start {
                gain = gain + 8;
            }
            if ascii_alnum(q[qi]) && word_start {
                gain = gain + 6;
            }
            score = score + gain;
            prev_match = Some(ti);
            qi = qi + 1;
        }
        ti = ti + 1;
    }
    if qi == q.len() {
        Some(score)
    } else {
        None
    }
}

proof fn lemma_trim_front_len(s: Seq<char>)
    ensures
        trim_front_len_ok(s),
    decreases s.len(),
{
    if s.len() > 0 && crate::text::is_ws(s[0]) {
        lemma_trim_front_len(s.drop_first());
    }
}

spec fn trim_front_len_ok(s: Seq<char>) -> bool {
    crate::text::trim_front(s).len() <= s.len()
}

proof fn lemma_trim_back_len(s: Seq<char>)
    ensures
        crate::text::trim_back(s).len() <= s.len(),
    decreases s.len(),
{
    if s.len() > 0 && crate::text::is_ws(s.last()) {
        lemma_trim_back_len(s.drop_last());
    }
}

proof fn lemma_trimmed_len(s: Seq<char>)
    ensures
        trimmed(s).len() <= s.len(),
{
    lemma_trim_front_len(s);
    lemma_trim_back_len(crate::text::trim_front(s));
}

} // verus!

verus! {

/// Stable command id for scripting and tests.
#[derive(Clone, Copy, Debug, PartialEq, Eq, Hash, Structural)]
pub enum PaletteCommandId {
    NewDocument,
    Open,
    Save,
    SaveAs,
    Undo,
    Clear,
    ToolSelect,
    ToolSketch,
    ToolRectangle,
    ToolLine,
    ToolPlane,
    ExitSketch,
    CommitRectangle,
    CommitLine,
    CommitPlane,
    CancelOperation,
    ViewFront,
    ViewBack,
    ViewLeft,
    ViewRight,
    ViewTop,
    ViewBottom,
    ViewHome,
    SetHomeView,
    ToggleProjection,
    ShowPaneHierarchy,
    HidePaneHierarchy,
    ShowPaneParameters,
    HidePaneParameters,
    ShowPaneContext,
    HidePaneContext,
    ShowPaneViewCube,
    HidePaneViewCube,
}

/// One invokable palette entry.
#[derive(Clone, Copy, Debug, PartialEq, Eq)]
pub struct PaletteCommand {
    pub id: PaletteCommandId,
    pub label: &'static str,
    pub search_text: &'static str,
}

impl PaletteCommand {
    pub fn new(id: PaletteCommandId, label: &'static str, search_text: &'static str) -> (r: Self)
        ensures
            r.id == id,
            r.label == label,
            r.search_text == search_text,
    {
        PaletteCommand { id, label, search_text }
    }
}

/// Strict lexicographic order of character sequences by code point.
pub open spec fn lex_lt(a: Seq<char>, b: Seq<char>) -> bool
    decreases a.len(),
{
    if a.len() == 0 {
        b.len() > 0
    } else if b.len() == 0 {
        false
    } else if a[0] != b[0] {
        a[0] < b[0]
    } else {
        lex_lt(a.drop_first(), b.drop_first())
    }
}

/// Whether `a` sorts strictly before `b` (by code point, like `str`'s order).
pub(crate) fn str_lt(a: &str, b: &str) -> (r: bool)
    ensures
        r == lex_lt(a@, b@),
{
    let n = a.unicode_len();
    let m = b.unicode_len();
    let mut i: usize = 0;
    proof {
        assert(a@.skip(0) =~= a@);
        assert(b@.skip(0) =~= b@);
    }
    while i < n && i < m
        invariant
            n == a@.len(),
            m == b@.len(),
            i <= n,
            i <= m,
            lex_lt(a@, b@) == lex_lt(a@.skip(i as int), b@.skip(i as int)),
        decreases n - i,
    {
        let ca = a.get_char(i);
        let cb = b.get_char(i);
        proof {
            assert(a@.skip(i as int)[0] == ca);
            assert(b@.skip(i as int)[0] == cb);
            assert(a@.skip(i as int).drop_first() =~= a@.skip(i + 1));
            assert(b@.skip(i as int).drop_first() =~= b@.skip(i + 1));
        }
        if ca != cb {
            return ca < cb;
        }
        i = i + 1;
    }
    proof {
        assert(a@.skip(i as int).len() == n - i);
        assert(b@.skip(i as int).len() == m - i);
    }
    i == n && i < m
}

/// Ranking order: higher score first, then label order.
pub open spec fn ranks_before(a: (PaletteCommand, i32), b: (PaletteCommand, i32)) -> bool {
    a.1 > b.1 || (a.1 == b.1 && !lex_lt(b.0.label@, a.0.label@))
}

/// Best score of a command: its label must match; the search text may score higher.
pub open spec fn spec_command_score(query: Seq<char>, cmd: PaletteCommand) -> Option<int> {
    match spec_fuzzy_score(query, cmd.label@) {
        Some(label_score) => {
            let text_score = match spec_fuzzy_score(query, cmd.search_text@) {
                Some(s) => s,
                None => 0,
            };
            Some(if label_score >= text_score { label_score } else { text_score })
        },
        None => None,
    }
}

/// The commands whose label matches, with their scores, in list order.
pub open spec fn spec_matches(query: Seq<char>, commands: Seq<PaletteCommand>) -> Seq<(PaletteCommand, int)>
    decreases commands.len(),
{
    if commands.len() == 0 {
        Seq::empty()
    } else {
        let prev = spec_matches(query, commands.drop_last());
        match spec_command_score(query, commands.last()) {
            Some(s) => prev.push((commands.last(), s)),
            None => prev,
        }
    }
}

pub open spec fn with_int_scores(r: Seq<(PaletteCommand, i32)>) -> Seq<(PaletteCommand, int)> {
    r.map_values(|p: (PaletteCommand, i32)| (p.0, p.1 as int))
}

/// Ranking order of scored matches: higher score first, then label order.
pub open spec fn ranks_before_scored(a: (PaletteCommand, int), b: (PaletteCommand, int)) -> bool {
    a.1 > b.1 || (a.1 == b.1 && !lex_lt(b.0.label@, a.0.label@))
}

/// Where `x` goes in the ranked `s`, searching from `i`: after every entry that ranks before
/// it or ties with it.
pub open spec fn insertion_point(s: Seq<(PaletteCommand, int)>, x: (PaletteCommand, int), i: int) -> int
    decreases s.len() - i,
{
    if i < 0 || i >= s.len() || !ranks_before_scored(s[i], x) {
        i
    } else {
        insertion_point(s, x, i + 1)
    }
}

/// `s` with `x` inserted after every entry that ranks before it or ties with it.
pub open spec fn inserted_ranked(s: Seq<(PaletteCommand, int)>, x: (PaletteCommand, int)) -> Seq<(PaletteCommand, int)> {
    let p = insertion_point(s, x, 0);
    s.take(p).push(x) + s.skip(p)
}

/// The ranked matches: each matching command in list order, inserted after every earlier
/// match that ranks before it or ties with it, so that matches tied in score and label keep
/// their list order.
pub open spec fn spec_ranked(query: Seq<char>, commands: Seq<PaletteCommand>) -> Seq<(PaletteCommand, int)>
    decreases commands.len(),
{
    if commands.len() == 0 {
        Seq::empty()
    } else {
        let prev = spec_ranked(query, commands.drop_last());
        match spec_command_score(query, commands.last()) {
            Some(s) => inserted_ranked(prev, (commands.last(), s)),
            None => prev,
        }
    }
}

fn command_score(query: &str, cmd: &PaletteCommand) -> (r: Option<i32>)
    requires
        query_fits(query@),
    ensures
        r is Some <==> spec_command_score(query@, *cmd) is Some,
        r is Some ==> r->Some_0 as int == spec_command_score(query@, *cmd)->Some_0,
{
    let label_score = match fuzzy_score(query, cmd.label) {
        Some(s) => s,
        None => return None,
    };
    let text_score = match fuzzy_score(query, cmd.search_text) {
        Some(s) => s,
        None => 0,
    };
    Some(if label_score >= text_score { label_score } else { text_score })
}

/// Filter and rank commands for the current query: every command whose label matches,
/// best score first, ties by label, and matches tied in both in list order.
pub fn filter_commands(query: &str, commands: &[PaletteCommand]) -> (r: Vec<(PaletteCommand, i32)>)
    requires
        query_fits(query@),
    ensures
        forall|i: int, j: int| 0 <= i < j < r@.len() ==> ranks_before(#[trigger] r@[i], #[trigger] r@[j]),
        with_int_scores(r@).to_multiset() == spec_matches(query@, commands@).to_multiset(),
        with_int_scores(r@) == spec_ranked(query@, commands@),
{
    let mut out: Vec<(PaletteCommand, i32)> = Vec::new();
    let mut i: usize = 0;
    proof {
        broadcast use vstd::seq_lib::group_seq_properties;
        assert(commands@.take(0) =~= Seq::<PaletteCommand>::empty());
        assert(with_int_scores(out@) =~= Seq::<(PaletteCommand, int)>::empty());
    }
    while i < commands.len()
        invariant
            i <= commands@.len(),
            query_fits(query@),
            forall|a: int, b: int| 0 <= a < b < out@.len() ==> ranks_before(#[trigger] out@[a], #[trigger] out@[b]),
            with_int_scores(out@).to_multiset() == spec_matches(query@, commands@.take(i as int)).to_multiset(),
            with_int_scores(out@) == spec_ranked(query@, commands@.take(i as int)),
        decreases commands@.len() - i,
    {
        proof {
            broadcast use vstd::seq_lib::group_seq_properties;
            assert(commands@.take(i + 1).drop_last() =~= commands@.take(i as int));
            assert(commands@.take(i + 1).last() == commands@[i as int]);
        }
        let cmd = commands[i];
        match command_score(query, &cmd) {
            Some(score) => {
                insert_ranked(&mut out, (cmd, score));
            },
            None => {},
        }
        i = i + 1;
    }
    proof {
        assert(commands@.take(i as int) =~= commands@);
    }
    out
}

pub(crate) proof fn lemma_lex_total(a: Seq<char>, b: Seq<char>)
    ensures
        lex_lt(a, b) || lex_lt(b, a) || a == b,
        !(lex_lt(a, b) && lex_lt(b, a)),
    decreases a.len(),
{
    if a.len() > 0 && b.len() > 0 && a[0] == b[0] {
        lemma_lex_total(a.drop_first(), b.drop_first());
        if a.drop_first() == b.drop_first() {
            assert(a =~= seq![a[0]] + a.drop_first());
            assert(b =~= seq![b[0]] + b.drop_first());
        }
    } else if a.len() == 0 && b.len() == 0 {
        assert(a =~= b);
    }
}

pub(crate) proof fn lemma_lex_trans(a: Seq<char>, b: Seq<char>, c: Seq<char>)
    requires
        !lex_lt(b, a),
        !lex_lt(c, b),
    ensures
        !lex_lt(c, a),
    decreases a.len(),
{
    lemma_lex_total(a, b);
    lemma_lex_total(b, c);
    lemma_lex_total(a, c);
    if a.len() > 0 && b.len() > 0 && c.len() > 0 {
        if a[0] == b[0] && b[0] == c[0] {
            lemma_lex_trans(a.drop_first(), b.drop_first(), c.drop_first());
        }
    }
}

proof fn lemma_ranks_total(a: (PaletteCommand, i32), b: (PaletteCommand, i32))
    ensures
        ranks_before(a, b) || ranks_before(b, a),
{
    lemma_lex_total(a.0.label@, b.0.label@);
}

proof fn lemma_ranks_trans(a: (PaletteCommand, i32), b: (PaletteCommand, i32), c: (PaletteCommand, i32))
    requires
        ranks_before(a, b),
        ranks_before(b, c),
    ensures
        ranks_before(a, c),
{
    if a.1 == b.1 && b.1 == c.1 {
        lemma_lex_trans(a.0.label@, b.0.label@, c.0.label@);
    }
}

fn ranks_before_exec(a: &(PaletteCommand, i32), b: &(PaletteCommand, i32)) -> (r: bool)
    ensures
        r == ranks_before(*a, *b),
{
    a.1 > b.1 || (a.1 == b.1 && !str_lt(b.0.label, a.0.label))
}

/// Insert `x` after every entry that ranks before it (keeps the list ranked).
fn insert_ranked(v: &mut Vec<(PaletteCommand, i32)>, x: (PaletteCommand, i32))
    requires
        forall|a: int, b: int| 0 <= a < b < old(v)@.len() ==> ranks_before(#[trigger] old(v)@[a], #[trigger] old(v)@[b]),
    ensures
        forall|a: int, b: int| 0 <= a < b < final(v)@.len() ==> ranks_before(#[trigger] final(v)@[a], #[trigger] final(v)@[b]),
        with_int_scores(final(v)@).to_multiset() == with_int_scores(old(v)@).to_multiset().insert((x.0, x.1 as int)),
        with_int_scores(final(v)@) == inserted_ranked(with_int_scores(old(v)@), (x.0, x.1 as int)),
{
    let ghost w = with_int_scores(v@);
    let ghost xm = (x.0, x.1 as int);
    let mut pos: usize = 0;
    while pos < v.len() && ranks_before_exec(&v[pos], &x)
        invariant
            pos <= v@.len(),
            w == with_int_scores(v@),
            xm == (x.0, x.1 as int),
            forall|k: int| 0 <= k < pos ==> ranks_before(#[trigger] v@[k], x),
            insertion_point(w, xm, 0) == insertion_point(w, xm, pos as int),
        decreases v@.len() - pos,
    {
        proof {
            assert(w[pos as int] == (v@[pos as int].0, v@[pos as int].1 as int));
        }
        pos = pos + 1;
    }
    proof {
        if pos < v@.len() {
            assert(w[pos as int] == (v@[pos as int].0, v@[pos as int].1 as int));
        }
        assert(insertion_point(w, xm, pos as int) == pos);
    }
    let ghost before = v@;
    v.insert(pos, x);
    proof {
        broadcast use vstd::seq_lib::group_seq_properties;
        broadcast use vstd::multiset::group_multiset_axioms;

        if pos < before.len() {
            lemma_ranks_total(before[pos as int], x);
        }
        assert forall|k: int| pos <= k < before.len() implies ranks_before(x, #[trigger] before[k]) by {
            lemma_ranks_total(before[pos as int], x);
            if k > pos {
                lemma_ranks_trans(x, before[pos as int], before[k]);
            }
        }
        assert forall|a: int, b: int| 0 <= a < b < v@.len() implies ranks_before(#[trigger] v@[a], #[trigger] v@[b]) by {
            if b < pos {
                assert(v@[a] == before[a] && v@[b] == before[b]);
            } else if b == pos {
                assert(v@[a] == before[a]);
            } else if a < pos {
                assert(v@[a] == before[a] && v@[b] == before[b - 1]);
                lemma_ranks_trans(before[a], x, before[b - 1]);
            } else if a == pos {
                assert(v@[b] == before[b - 1]);
            } else {
                assert(v@[a] == before[a - 1] && v@[b] == before[b - 1]);
            }
        }
        let m = (x.0, x.1 as int);
        assert(with_int_scores(v@) =~= with_int_scores(before).insert(pos as int, m));
        assert(with_int_scores(before).insert(pos as int, m) =~= with_int_scores(before).take(pos as int).push(m) + with_int_scores(before).skip(pos as int));
        assert(with_int_scores(before) =~= with_int_scores(before).take(pos as int) + with_int_scores(before).skip(pos as int));
    }
}

/// Best matching command for a query, if any: the first of the ranked matches (among matches
/// tied in score and label, the one listed first).
pub fn best_match(query: &str, commands: &[PaletteCommand]) -> (r: Option<PaletteCommand>)
    requires
        query_fits(query@),
    ensures
        r == (if spec_ranked(query@, commands@).len() == 0 {
            None
        } else {
            Some(spec_ranked(query@, commands@)[0].0)
        }),
        r is None <==> spec_matches(query@, commands@).len() == 0,
        r is Some ==> spec_matches(query@, commands@).to_multiset().count(
            (r->Some_0, spec_command_score(query@, r->Some_0)->Some_0),
        ) > 0,
        r is Some ==> forall|i: int|
            0 <= i < spec_matches(query@, commands@).len() ==> {
                let m = #[trigger] spec_matches(query@, commands@)[i];
                let best = spec_command_score(query@, r->Some_0)->Some_0;
                best > m.1 || (best == m.1 && !lex_lt(m.0.label@, r->Some_0.label@))
            },
{
    let matches = filter_commands(query, commands);
    proof {
        if matches@.len() > 0 {
            assert(with_int_scores(matches@)[0].0 == matches@[0].0);
        }
    }
    if matches.len() == 0 {
        proof {
            broadcast use vstd::seq_lib::group_seq_properties;
            with_int_scores(matches@).to_multiset_ensures();
            spec_matches(query@, commands@).to_multiset_ensures();
            assert(spec_matches(query@, commands@).to_multiset().len() == 0);
        }
        return None;
    }
    proof {
        broadcast use vstd::seq_lib::group_seq_properties;
        let ms = spec_matches(query@, commands@);
        let ws = with_int_scores(matches@);
        assert(ws.len() > 0);
        ws.to_multiset_ensures();
        ms.to_multiset_ensures();
        assert(ms.len() > 0);
        assert(ws.to_multiset().count(ws[0]) > 0);
        lemma_match_score(query@, commands@, ws[0]);
        assert forall|i: int| 0 <= i < ms.len() implies {
            let m = #[trigger] ms[i];
            let best = spec_command_score(query@, matches@[0].0)->Some_0;
            best > m.1 || (best == m.1 && !lex_lt(m.0.label@, matches@[0].0.label@))
        } by {
            assert(ms.to_multiset().count(ms[i]) > 0);
            assert(ws.to_multiset().count(ms[i]) > 0);
            let k = choose|k: int| 0 <= k < ws.len() && ws[k] == ms[i];
            if k > 0 {
                assert(ranks_before(matches@[0], matches@[k]));
            } else {
                lemma_lex_total(matches@[0].0.label@, matches@[0].0.label@);
            }
        }
    }
    Some(matches[0].0)
}

proof fn lemma_match_score(query: Seq<char>, commands: Seq<PaletteCommand>, m: (PaletteCommand, int))
    requires
        spec_matches(query, commands).to_multiset().count(m) > 0,
    ensures
        spec_command_score(query, m.0) == Some(m.1),
    decreases commands.len(),
{
    broadcast use vstd::seq_lib::group_seq_properties;
    broadcast use vstd::multiset::group_multiset_axioms;

    if commands.len() > 0 {
        let prev = spec_matches(query, commands.drop_last());
        match spec_command_score(query, commands.last()) {
            Some(s) => {
                if m != (commands.last(), s) {
                    assert(prev.push((commands.last(), s)).to_multiset() =~= prev.to_multiset().insert((commands.last(), s)));
                    lemma_match_score(query, commands.drop_last(), m);
                }
            },
            None => {
                lemma_match_score(query, commands.drop_last(), m);
            },
        }
    }
}


/// `idx` places the first `k` characters of `q`, in order, at increasing positions below `n`
/// of `t`.
pub open spec fn places(q: Seq<char>, t: Seq<char>, idx: Seq<int>, k: int, n: int) -> bool {
    &&& idx.len() == k
    &&& forall|a: int| 0 <= a < k ==> 0 <= #[trigger] idx[a] < n && n <= t.len() && t[idx[a]] == q[a]
    &&& forall|a: int, b: int| 0 <= a < b < k ==> #[trigger] idx[a] < #[trigger] idx[b]
}

/// `q` is a subsequence of `t`.
pub open spec fn is_subsequence(q: Seq<char>, t: Seq<char>) -> bool {
    exists|idx: Seq<int>| places(q, t, idx, q.len() as int, t.len() as int)
}

proof fn lemma_scan_witness(q: Seq<char>, t: Seq<char>, n: nat) -> (idx: Seq<int>)
    requires
        n <= t.len(),
    ensures
        places(q, t, idx, fuzzy_scan(q, t, n).matched as int, n as int),
    decreases n,
{
    if n == 0 {
        Seq::empty()
    } else {
        let prev = lemma_scan_witness(q, t, (n - 1) as nat);
        let st = fuzzy_scan(q, t, (n - 1) as nat);
        if st.matched < q.len() && t[n - 1] == q[st.matched as int] {
            let idx = prev.push(n - 1);
            assert forall|a: int, b: int| 0 <= a < b < st.matched + 1 implies #[trigger] idx[a] < #[trigger] idx[b] by {
                if b < st.matched {
                    assert(idx[a] == prev[a] && idx[b] == prev[b]);
                } else {
                    assert(idx[a] == prev[a]);
                }
            }
            assert forall|a: int| 0 <= a < st.matched + 1 implies 0 <= #[trigger] idx[a] < n && n <= t.len() && t[idx[a]] == q[a] by {
                if a < st.matched {
                    assert(idx[a] == prev[a]);
                }
            }
            idx
        } else {
            prev
        }
    }
}

proof fn lemma_scan_monotone(q: Seq<char>, t: Seq<char>, m: nat, n: nat)
    requires
        m <= n,
    ensures
        fuzzy_scan(q, t, m).matched <= fuzzy_scan(q, t, n).matched,
    decreases n,
{
    if m < n {
        lemma_scan_monotone(q, t, m, (n - 1) as nat);
    }
}

/// The greedy scan matches at least as many characters as any placement.
proof fn lemma_scan_complete(q: Seq<char>, t: Seq<char>, idx: Seq<int>, k: int, n: nat)
    requires
        places(q, t, idx, k, n as int),
        0 <= k <= q.len(),
    ensures
        fuzzy_scan(q, t, n).matched >= k,
    decreases n,
{
    if k > 0 {
        assert(0 <= idx[k - 1] < n);
        let last = idx[k - 1];
        if last < n - 1 {
            assert forall|a: int| 0 <= a < k implies #[trigger] idx[a] < n - 1 by {
                if a < k - 1 {
                    assert(idx[a] < idx[k - 1]);
                }
            }
            lemma_scan_complete(q, t, idx, k, (n - 1) as nat);
            lemma_scan_monotone(q, t, (n - 1) as nat, n);
        } else {
            let front = idx.drop_last();
            assert forall|a: int| 0 <= a < k - 1 implies 0 <= #[trigger] front[a] < n - 1 && n - 1 <= t.len()
                && t[front[a]] == q[a] by {
                assert(front[a] == idx[a]);
                assert(idx[a] < idx[k - 1]);
            }
            assert forall|a: int, b: int| 0 <= a < b < k - 1 implies #[trigger] front[a] < #[trigger] front[b] by {
                assert(front[a] == idx[a] && front[b] == idx[b]);
            }
            lemma_scan_complete(q, t, front, k - 1, (n - 1) as nat);
        }
    }
}

/// A query matches exactly when its trimmed, lower-cased characters occur, in order, in the
/// lower-cased target.
pub proof fn law_fuzzy_match_iff_subsequence(query: Seq<char>, target: Seq<char>)
    ensures
        spec_fuzzy_score(query, target) is Some <==> is_subsequence(
            lower_seq(trimmed(query)),
            lower_seq(target),
        ),
{
    let q = lower_seq(trimmed(query));
    let t = lower_seq(target);
    if q.len() == 0 {
        let e = Seq::<int>::empty();
        assert(places(q, t, e, 0, t.len() as int));
    } else {
        let st = fuzzy_scan(q, t, t.len());
        lemma_scan_bounds(q, t, t.len());
        if st.matched == q.len() {
            let idx = lemma_scan_witness(q, t, t.len());
            assert(places(q, t, idx, q.len() as int, t.len() as int));
        }
        if is_subsequence(q, t) {
            let idx = choose|idx: Seq<int>| places(q, t, idx, q.len() as int, t.len() as int);
            lemma_scan_complete(q, t, idx, q.len() as int, t.len());
        }
    }
}


proof fn lemma_scan_single(q: Seq<char>, t: Seq<char>, i: int, n: nat)
    requires
        q.len() == 1,
        0 <= i < t.len(),
        t[i] == q[0],
        forall|k: int| 0 <= k < i ==> t[k] != q[0],
        n <= t.len(),
    ensures
        n <= i ==> fuzzy_scan(q, t, n) == (FuzzyState { score: 0, matched: 0, prev: None }),
        n > i ==> fuzzy_scan(q, t, n) == (FuzzyState {
            score: match_bonus(t, i, q[0], None),
            matched: 1,
            prev: Some(i),
        }),
    decreases n,
{
    if n > 0 {
        lemma_scan_single(q, t, i, (n - 1) as nat);
    }
}

/// A one-character query scores by where its first occurrence falls: 1 inside a word, 9 at
/// the start of a word (the target's start, or after a character that is not a letter or
/// digit), and 15 at a word start when the character is a letter or digit. So a match at a
/// word start always beats a match inside a word.
pub proof fn law_fuzzy_single_character_score(query: Seq<char>, target: Seq<char>, i: int)
    requires
        lower_seq(trimmed(query)).len() == 1,
        0 <= i < target.len(),
        lower_seq(target)[i] == lower_seq(trimmed(query))[0],
        forall|k: int| 0 <= k < i ==> lower_seq(target)[k] != lower_seq(trimmed(query))[0],
    ensures
        spec_fuzzy_score(query, target) == Some(
            if i == 0 || !is_ascii_alnum(lower_seq(target)[i - 1]) {
                if is_ascii_alnum(lower_seq(trimmed(query))[0]) {
                    15int
                } else {
                    9int
                }
            } else {
                1int
            },
        ),
{
    let q = lower_seq(trimmed(query));
    let t = lower_seq(target);
    lemma_scan_single(q, t, i, t.len());
}

/// What matching `c` at position `p` of `t` is worth: 1, plus 4 when it directly follows the
/// previous match, plus 8 at the start of a word and 6 more when `c` is a letter or digit.
pub open spec fn char_worth(t: Seq<char>, p: int, c: char, follows_previous: bool) -> int {
    let at_word_start = p == 0 || !is_ascii_alnum(t[p - 1]);
    1 + (if follows_previous { 4int } else { 0int }) + (if at_word_start { 8int } else { 0int }) + (
    if at_word_start && is_ascii_alnum(c) {
        6int
    } else {
        0int
    })
}

proof fn lemma_scan_pair(q: Seq<char>, t: Seq<char>, i: int, j: int, n: nat)
    requires
        q.len() == 2,
        0 <= i < j < t.len(),
        t[i] == q[0],
        forall|k: int| 0 <= k < i ==> t[k] != q[0],
        t[j] == q[1],
        forall|k: int| i < k < j ==> t[k] != q[1],
        n <= t.len(),
    ensures
        n <= i ==> fuzzy_scan(q, t, n) == (FuzzyState { score: 0, matched: 0, prev: None }),
        i < n <= j ==> fuzzy_scan(q, t, n) == (FuzzyState {
            score: char_worth(t, i, q[0], false),
            matched: 1,
            prev: Some(i),
        }),
        n > j ==> fuzzy_scan(q, t, n) == (FuzzyState {
            score: char_worth(t, i, q[0], false) + char_worth(t, j, q[1], j == i + 1),
            matched: 2,
            prev: Some(j),
        }),
    decreases n,
{
    if n > 0 {
        lemma_scan_pair(q, t, i, j, (n - 1) as nat);
    }
}

/// A two-character query scores the worth of its first character at that character's first
/// occurrence plus the worth of its second character at the second's first occurrence after
/// it (with the bonus for following directly): so word-start matches outrank matches inside
/// words, and adjacent matches outrank scattered ones.
pub proof fn law_fuzzy_two_character_score(query: Seq<char>, target: Seq<char>, i: int, j: int)
    requires
        lower_seq(trimmed(query)).len() == 2,
        0 <= i < j < target.len(),
        lower_seq(target)[i] == lower_seq(trimmed(query))[0],
        forall|k: int| 0 <= k < i ==> lower_seq(target)[k] != lower_seq(trimmed(query))[0],
        lower_seq(target)[j] == lower_seq(trimmed(query))[1],
        forall|k: int| i < k < j ==> lower_seq(target)[k] != lower_seq(trimmed(query))[1],
    ensures
        spec_fuzzy_score(query, target) == Some(
            char_worth(lower_seq(target), i, lower_seq(trimmed(query))[0], false) + char_worth(
                lower_seq(target),
                j,
                lower_seq(trimmed(query))[1],
                j == i + 1,
            ),
        ),
{
    let q = lower_seq(trimmed(query));
    let t = lower_seq(target);
    lemma_scan_pair(q, t, i, j, t.len());
}

/// A blank query (after trimming) matches every target with score 0; any other match scores
/// at least one point per query character.
pub proof fn law_fuzzy_score_bounds(query: Seq<char>, target: Seq<char>)
    ensures
        lower_seq(trimmed(query)).len() == 0 ==> spec_fuzzy_score(query, target) == Some(0int),
        spec_fuzzy_score(query, target) matches Some(sc) ==> sc >= lower_seq(trimmed(query)).len(),
{
    let q = lower_seq(trimmed(query));
    let t = lower_seq(target);
    lemma_scan_bounds(q, t, t.len());
}

/// The palette entry of `id`: its label and the words it is found by.
pub open spec fn spec_palette_command(id: PaletteCommandId) -> PaletteCommand {
    match id {
        PaletteCommandId::NewDocument => PaletteCommand { id, label: "New Document", search_text: "new document file create" },
        PaletteCommandId::Open => PaletteCommand { id, label: "Open…", search_text: "open file document load" },
        PaletteCommandId::Save => PaletteCommand { id, label: "Save", search_text: "save file document write" },
        PaletteCommandId::SaveAs => PaletteCommand { id, label: "Save As…", search_text: "save as file document export" },
        PaletteCommandId::Undo => PaletteCommand { id, label: "Undo", search_text: "undo revert last" },
        PaletteCommandId::Clear => PaletteCommand { id, label: "Clear Document", search_text: "clear document delete all" },
        PaletteCommandId::ToolSelect => PaletteCommand { id, label: "Select Tool", search_text: "select tool navigation mode" },
        PaletteCommandId::ToolSketch => PaletteCommand { id, label: "Sketch Tool", search_text: "sketch tool edit face" },
        PaletteCommandId::ToolRectangle => PaletteCommand { id, label: "Rectangle Tool", search_text: "rectangle tool rect draw" },
        PaletteCommandId::ToolLine => PaletteCommand { id, label: "Line Tool", search_text: "line tool draw segment" },
        PaletteCommandId::ToolPlane => PaletteCommand { id, label: "Construction Plane Tool", search_text: "construction plane tool datum" },
        PaletteCommandId::CancelOperation => PaletteCommand { id, label: "Cancel Operation", search_text: "cancel escape abort operation" },
        PaletteCommandId::ViewFront => PaletteCommand { id, label: "View Front", search_text: "view front standard camera" },
        PaletteCommandId::ViewBack => PaletteCommand { id, label: "View Back", search_text: "view back standard camera" },
        PaletteCommandId::ViewLeft => PaletteCommand { id, label: "View Left", search_text: "view left standard camera" },
        PaletteCommandId::ViewRight => PaletteCommand { id, label: "View Right", search_text: "view right standard camera" },
        PaletteCommandId::ViewTop => PaletteCommand { id, label: "View Top", search_text: "view top standard camera" },
        PaletteCommandId::ViewBottom => PaletteCommand { id, label: "View Bottom", search_text: "view bottom standard camera" },
        PaletteCommandId::ViewHome => PaletteCommand { id, label: "View Home", search_text: "view home camera reset" },
        PaletteCommandId::SetHomeView => PaletteCommand { id, label: "Set Home View", search_text: "set home view camera bookmark" },
        PaletteCommandId::ToggleProjection => PaletteCommand { id, label: "Toggle Projection Mode", search_text: "toggle projection orthographic natural perspective camera" },
        PaletteCommandId::ExitSketch => PaletteCommand { id, label: "Exit Sketch", search_text: "exit sketch leave edit mode" },
        PaletteCommandId::CommitRectangle => PaletteCommand { id, label: "Commit Rectangle", search_text: "commit rectangle enter finish" },
        PaletteCommandId::CommitLine => PaletteCommand { id, label: "Commit Line", search_text: "commit line enter finish" },
        PaletteCommandId::CommitPlane => PaletteCommand { id, label: "Commit Construction Plane", search_text: "commit plane construction enter finish" },
        PaletteCommandId::ShowPaneHierarchy => PaletteCommand { id, label: "Show Tree Pane", search_text: "show tree pane hierarchy dag browser" },
        PaletteCommandId::HidePaneHierarchy => PaletteCommand { id, label: "Hide Tree Pane", search_text: "hide tree pane hierarchy dag browser" },
        PaletteCommandId::ShowPaneParameters => PaletteCommand { id, label: "Show Parameters Pane", search_text: "show parameters pane params variables" },
        PaletteCommandId::HidePaneParameters => PaletteCommand { id, label: "Hide Parameters Pane", search_text: "hide parameters pane params variables" },
        PaletteCommandId::ShowPaneContext => PaletteCommand { id, label: "Show Context Pane", search_text: "show context pane properties selection" },
        PaletteCommandId::HidePaneContext => PaletteCommand { id, label: "Hide Context Pane", search_text: "hide context pane properties selection" },
        PaletteCommandId::ShowPaneViewCube => PaletteCommand { id, label: "Show Orientation Cube Pane", search_text: "show orientation cube pane view hud" },
        PaletteCommandId::HidePaneViewCube => PaletteCommand { id, label: "Hide Orientation Cube Pane", search_text: "hide orientation cube pane view hud" },
    }
}

/// The palette entry of `id`.
pub fn palette_command(id: PaletteCommandId) -> (r: PaletteCommand)
    ensures
        r == spec_palette_command(id),
{
    match id {
        PaletteCommandId::NewDocument => PaletteCommand::new(id, "New Document", "new document file create"),
        PaletteCommandId::Open => PaletteCommand::new(id, "Open…", "open file document load"),
        PaletteCommandId::Save => PaletteCommand::new(id, "Save", "save file document write"),
        PaletteCommandId::SaveAs => PaletteCommand::new(id, "Save As…", "save as file document export"),
        PaletteCommandId::Undo => PaletteCommand::new(id, "Undo", "undo revert last"),
        PaletteCommandId::Clear => PaletteCommand::new(id, "Clear Document", "clear document delete all"),
        PaletteCommandId::ToolSelect => PaletteCommand::new(id, "Select Tool", "select tool navigation mode"),
        PaletteCommandId::ToolSketch => PaletteCommand::new(id, "Sketch Tool", "sketch tool edit face"),
        PaletteCommandId::ToolRectangle => PaletteCommand::new(id, "Rectangle Tool", "rectangle tool rect draw"),
        PaletteCommandId::ToolLine => PaletteCommand::new(id, "Line Tool", "line tool draw segment"),
        PaletteCommandId::ToolPlane => PaletteCommand::new(id, "Construction Plane Tool", "construction plane tool datum"),
        PaletteCommandId::CancelOperation => PaletteCommand::new(id, "Cancel Operation", "cancel escape abort operation"),
        PaletteCommandId::ViewFront => PaletteCommand::new(id, "View Front", "view front standard camera"),
        PaletteCommandId::ViewBack => PaletteCommand::new(id, "View Back", "view back standard camera"),
        PaletteCommandId::ViewLeft => PaletteCommand::new(id, "View Left", "view left standard camera"),
        PaletteCommandId::ViewRight => PaletteCommand::new(id, "View Right", "view right standard camera"),
        PaletteCommandId::ViewTop => PaletteCommand::new(id, "View Top", "view top standard camera"),
        PaletteCommandId::ViewBottom => PaletteCommand::new(id, "View Bottom", "view bottom standard camera"),
        PaletteCommandId::ViewHome => PaletteCommand::new(id, "View Home", "view home camera reset"),
        PaletteCommandId::SetHomeView => PaletteCommand::new(id, "Set Home View", "set home view camera bookmark"),
        PaletteCommandId::ToggleProjection => PaletteCommand::new(id, "Toggle Projection Mode", "toggle projection orthographic natural perspective camera"),
        PaletteCommandId::ExitSketch => PaletteCommand::new(id, "Exit Sketch", "exit sketch leave edit mode"),
        PaletteCommandId::CommitRectangle => PaletteCommand::new(id, "Commit Rectangle", "commit rectangle enter finish"),
        PaletteCommandId::CommitLine => PaletteCommand::new(id, "Commit Line", "commit line enter finish"),
        PaletteCommandId::CommitPlane => PaletteCommand::new(id, "Commit Construction Plane", "commit plane construction enter finish"),
        PaletteCommandId::ShowPaneHierarchy => PaletteCommand::new(id, "Show Tree Pane", "show tree pane hierarchy dag browser"),
        PaletteCommandId::HidePaneHierarchy => PaletteCommand::new(id, "Hide Tree Pane", "hide tree pane hierarchy dag browser"),
        PaletteCommandId::ShowPaneParameters => PaletteCommand::new(id, "Show Parameters Pane", "show parameters pane params variables"),
        PaletteCommandId::HidePaneParameters => PaletteCommand::new(id, "Hide Parameters Pane", "hide parameters pane params variables"),
        PaletteCommandId::ShowPaneContext => PaletteCommand::new(id, "Show Context Pane", "show context pane properties selection"),
        PaletteCommandId::HidePaneContext => PaletteCommand::new(id, "Hide Context Pane", "hide context pane properties selection"),
        PaletteCommandId::ShowPaneViewCube => PaletteCommand::new(id, "Show Orientation Cube Pane", "show orientation cube pane view hud"),
        PaletteCommandId::HidePaneViewCube => PaletteCommand::new(id, "Hide Orientation Cube Pane", "hide orientation cube pane view hud"),
    }
}

/// Commands offered in every state, in palette order.
pub open spec fn spec_base_command_ids() -> Seq<PaletteCommandId> {
    seq![
        PaletteCommandId::NewDocument,
        PaletteCommandId::Open,
        PaletteCommandId::Save,
        PaletteCommandId::SaveAs,
        PaletteCommandId::Undo,
        PaletteCommandId::Clear,
        PaletteCommandId::ToolSelect,
        PaletteCommandId::ToolSketch,
        PaletteCommandId::ToolRectangle,
        PaletteCommandId::ToolLine,
        PaletteCommandId::ToolPlane,
        PaletteCommandId::CancelOperation,
        PaletteCommandId::ViewFront,
        PaletteCommandId::ViewBack,
        PaletteCommandId::ViewLeft,
        PaletteCommandId::ViewRight,
        PaletteCommandId::ViewTop,
        PaletteCommandId::ViewBottom,
        PaletteCommandId::ViewHome,
        PaletteCommandId::SetHomeView,
        PaletteCommandId::ToggleProjection,
    ]
}

fn base_command_ids() -> (r: Vec<PaletteCommandId>)
    ensures
        r@ == spec_base_command_ids(),
{
    let r = vec![
        PaletteCommandId::NewDocument,
        PaletteCommandId::Open,
        PaletteCommandId::Save,
        PaletteCommandId::SaveAs,
        PaletteCommandId::Undo,
        PaletteCommandId::Clear,
        PaletteCommandId::ToolSelect,
        PaletteCommandId::ToolSketch,
        PaletteCommandId::ToolRectangle,
        PaletteCommandId::ToolLine,
        PaletteCommandId::ToolPlane,
        PaletteCommandId::CancelOperation,
        PaletteCommandId::ViewFront,
        PaletteCommandId::ViewBack,
        PaletteCommandId::ViewLeft,
        PaletteCommandId::ViewRight,
        PaletteCommandId::ViewTop,
        PaletteCommandId::ViewBottom,
        PaletteCommandId::ViewHome,
        PaletteCommandId::SetHomeView,
        PaletteCommandId::ToggleProjection,
    ];
    proof {
        assert(r@ =~= spec_base_command_ids());
    }
    r
}

/// `[id]` when `offered`, nothing otherwise.
pub open spec fn offered_if(offered: bool, id: PaletteCommandId) -> Seq<PaletteCommandId> {
    if offered {
        seq![id]
    } else {
        Seq::empty()
    }
}

/// Hide a visible pane, show a hidden one.
pub open spec fn pane_command_id(pane: Pane, visible: bool) -> PaletteCommandId {
    match pane {
        Pane::Hierarchy => if visible { PaletteCommandId::HidePaneHierarchy } else { PaletteCommandId::ShowPaneHierarchy },
        Pane::Parameters => if visible { PaletteCommandId::HidePaneParameters } else { PaletteCommandId::ShowPaneParameters },
        Pane::Context => if visible { PaletteCommandId::HidePaneContext } else { PaletteCommandId::ShowPaneContext },
        Pane::ViewCube => if visible { PaletteCommandId::HidePaneViewCube } else { PaletteCommandId::ShowPaneViewCube },
    }
}

/// The ids of the commands offered in `state`, in palette order: the base commands, exiting
/// an open sketch, committing the drawing or plane in progress, then one show-or-hide
/// command per pane.
pub open spec fn spec_command_ids_for_state(state: EditorState) -> Seq<PaletteCommandId> {
    spec_base_command_ids()
        + offered_if(state.sketch_session is Some, PaletteCommandId::ExitSketch)
        + offered_if(state.creating_rect is Some, PaletteCommandId::CommitRectangle)
        + offered_if(state.creating_line is Some, PaletteCommandId::CommitLine)
        + offered_if(state.creating_plane, PaletteCommandId::CommitPlane)
        + seq![
        pane_command_id(Pane::Hierarchy, spec_is_visible(state.panes, Pane::Hierarchy)),
        pane_command_id(Pane::Parameters, spec_is_visible(state.panes, Pane::Parameters)),
        pane_command_id(Pane::Context, spec_is_visible(state.panes, Pane::Context)),
        pane_command_id(Pane::ViewCube, spec_is_visible(state.panes, Pane::ViewCube)),
    ]
}

fn pane_command(pane: Pane, visible: bool) -> (r: PaletteCommand)
    ensures
        r == spec_palette_command(pane_command_id(pane, visible)),
{
    let id = match pane {
        Pane::Hierarchy => if visible { PaletteCommandId::HidePaneHierarchy } else { PaletteCommandId::ShowPaneHierarchy },
        Pane::Parameters => if visible { PaletteCommandId::HidePaneParameters } else { PaletteCommandId::ShowPaneParameters },
        Pane::Context => if visible { PaletteCommandId::HidePaneContext } else { PaletteCommandId::ShowPaneContext },
        Pane::ViewCube => if visible { PaletteCommandId::HidePaneViewCube } else { PaletteCommandId::ShowPaneViewCube },
    };
    palette_command(id)
}

/// Commands available in the editor state `state`.
pub fn commands_for_state(state: &EditorState) -> (r: Vec<PaletteCommand>)
    ensures
        r@ == spec_command_ids_for_state(*state).map_values(|id: PaletteCommandId| spec_palette_command(id)),
{
    let base = base_command_ids();
    let mut out: Vec<PaletteCommand> = Vec::new();
    let mut i: usize = 0;
    while i < base.len()
        invariant
            base@ == spec_base_command_ids(),
            i <= base@.len(),
            out@ == base@.subrange(0, i as int).map_values(|id: PaletteCommandId| spec_palette_command(id)),
        decreases base@.len() - i,
    {
        out.push(palette_command(base[i]));
        proof {
            assert(base@.subrange(0, i + 1) =~= base@.subrange(0, i as int).push(base@[i as int]));
            assert(out@ =~= base@.subrange(0, i + 1).map_values(|id: PaletteCommandId| spec_palette_command(id)));
        }
        i = i + 1;
    }
    proof {
        assert(base@.subrange(0, base@.len() as int) =~= base@);
    }
    let ghost ids = spec_base_command_ids();
    if state.sketch_session.is_some() {
        out.push(palette_command(PaletteCommandId::ExitSketch));
    }
    proof {
        ids = ids + offered_if(state.sketch_session is Some, PaletteCommandId::ExitSketch);
        assert(out@ =~= ids.map_values(|id: PaletteCommandId| spec_palette_command(id)));
    }
    if state.creating_rect.is_some() {
        out.push(palette_command(PaletteCommandId::CommitRectangle));
    }
    proof {
        ids = ids + offered_if(state.creating_rect is Some, PaletteCommandId::CommitRectangle);
        assert(out@ =~= ids.map_values(|id: PaletteCommandId| spec_palette_command(id)));
    }
    if state.creating_line.is_some() {
        out.push(palette_command(PaletteCommandId::CommitLine));
    }
    proof {
        ids = ids + offered_if(state.creating_line is Some, PaletteCommandId::CommitLine);
        assert(out@ =~= ids.map_values(|id: PaletteCommandId| spec_palette_command(id)));
    }
    if state.creating_plane {
        out.push(palette_command(PaletteCommandId::CommitPlane));
    }
    proof {
        ids = ids + offered_if(state.creating_plane, PaletteCommandId::CommitPlane);
        assert(out@ =~= ids.map_values(|id: PaletteCommandId| spec_palette_command(id)));
    }
    out.push(pane_command(Pane::Hierarchy, state.panes.is_visible(Pane::Hierarchy)));
    out.push(pane_command(Pane::Parameters, state.panes.is_visible(Pane::Parameters)));
    out.push(pane_command(Pane::Context, state.panes.is_visible(Pane::Context)));
    out.push(pane_command(Pane::ViewCube, state.panes.is_visible(Pane::ViewCube)));
    proof {
        assert(out@ =~= spec_command_ids_for_state(*state).map_values(|id: PaletteCommandId| spec_palette_command(id)));
    }
    out
}


/// The editor actions a palette entry dispatches.
#[derive(Clone, Copy, Debug, PartialEq, Eq, Structural)]
pub enum PaletteAction {
    NewDocument,
    UndoLast,
    Clear,
    SetTool(Tool),
    ExitSketch,
    CommitRectangle,
    CommitLine,
    CommitConstructionPlane,
    CancelOperation,
    SetStandardView(StandardView),
    ViewHome,
    SetHomeView,
    ToggleProjectionMode,
    SetPaneVisible { pane: Pane, visible: bool },
}

/// What happens when a palette entry is chosen: an editor action, or a file dialog.
#[derive(Clone, Copy, Debug, PartialEq, Eq, Structural)]
pub enum PaletteOutcome {
    Action(PaletteAction),
    OpenFile,
    SaveFile,
    SaveFileAs,
}

/// The outcome of the entry with id `id`.
pub open spec fn spec_outcome(id: PaletteCommandId) -> PaletteOutcome {
    match id {
            PaletteCommandId::NewDocument => PaletteOutcome::Action(PaletteAction::NewDocument),
            PaletteCommandId::Open => PaletteOutcome::OpenFile,
            PaletteCommandId::Save => PaletteOutcome::SaveFile,
            PaletteCommandId::SaveAs => PaletteOutcome::SaveFileAs,
            PaletteCommandId::Undo => PaletteOutcome::Action(PaletteAction::UndoLast),
            PaletteCommandId::Clear => PaletteOutcome::Action(PaletteAction::Clear),
            PaletteCommandId::ToolSelect => PaletteOutcome::Action(PaletteAction::SetTool(Tool::Select)),
            PaletteCommandId::ToolSketch => PaletteOutcome::Action(PaletteAction::SetTool(Tool::Sketch)),
            PaletteCommandId::ToolRectangle => PaletteOutcome::Action(PaletteAction::SetTool(Tool::Rectangle)),
            PaletteCommandId::ToolLine => PaletteOutcome::Action(PaletteAction::SetTool(Tool::Line)),
            PaletteCommandId::ToolPlane => PaletteOutcome::Action(PaletteAction::SetTool(Tool::ConstructionPlane)),
            PaletteCommandId::ExitSketch => PaletteOutcome::Action(PaletteAction::ExitSketch),
            PaletteCommandId::CommitRectangle => PaletteOutcome::Action(PaletteAction::CommitRectangle),
            PaletteCommandId::CommitLine => PaletteOutcome::Action(PaletteAction::CommitLine),
            PaletteCommandId::CommitPlane => PaletteOutcome::Action(PaletteAction::CommitConstructionPlane),
            PaletteCommandId::CancelOperation => PaletteOutcome::Action(PaletteAction::CancelOperation),
            PaletteCommandId::ViewFront => PaletteOutcome::Action(PaletteAction::SetStandardView(StandardView::Front)),
            PaletteCommandId::ViewBack => PaletteOutcome::Action(PaletteAction::SetStandardView(StandardView::Back)),
            PaletteCommandId::ViewLeft => PaletteOutcome::Action(PaletteAction::SetStandardView(StandardView::Left)),
            PaletteCommandId::ViewRight => PaletteOutcome::Action(PaletteAction::SetStandardView(StandardView::Right)),
            PaletteCommandId::ViewTop => PaletteOutcome::Action(PaletteAction::SetStandardView(StandardView::Top)),
            PaletteCommandId::ViewBottom => PaletteOutcome::Action(PaletteAction::SetStandardView(StandardView::Bottom)),
            PaletteCommandId::ViewHome => PaletteOutcome::Action(PaletteAction::ViewHome),
            PaletteCommandId::SetHomeView => PaletteOutcome::Action(PaletteAction::SetHomeView),
            PaletteCommandId::ToggleProjection => PaletteOutcome::Action(PaletteAction::ToggleProjectionMode),
            PaletteCommandId::ShowPaneHierarchy => PaletteOutcome::Action(PaletteAction::SetPaneVisible { pane: Pane::Hierarchy, visible: true }),
            PaletteCommandId::HidePaneHierarchy => PaletteOutcome::Action(PaletteAction::SetPaneVisible { pane: Pane::Hierarchy, visible: false }),
            PaletteCommandId::ShowPaneParameters => PaletteOutcome::Action(PaletteAction::SetPaneVisible { pane: Pane::Parameters, visible: true }),
            PaletteCommandId::HidePaneParameters => PaletteOutcome::Action(PaletteAction::SetPaneVisible { pane: Pane::Parameters, visible: false }),
            PaletteCommandId::ShowPaneContext => PaletteOutcome::Action(PaletteAction::SetPaneVisible { pane: Pane::Context, visible: true }),
            PaletteCommandId::HidePaneContext => PaletteOutcome::Action(PaletteAction::SetPaneVisible { pane: Pane::Context, visible: false }),
            PaletteCommandId::ShowPaneViewCube => PaletteOutcome::Action(PaletteAction::SetPaneVisible { pane: Pane::ViewCube, visible: true }),
            PaletteCommandId::HidePaneViewCube => PaletteOutcome::Action(PaletteAction::SetPaneVisible { pane: Pane::ViewCube, visible: false }),
    }
}

impl PaletteCommand {
    /// What choosing this entry does.
    pub fn outcome(self) -> (r: PaletteOutcome)
        ensures
            r == spec_outcome(self.id),
    {
        match self.id {
            PaletteCommandId::NewDocument => PaletteOutcome::Action(PaletteAction::NewDocument),
            PaletteCommandId::Open => PaletteOutcome::OpenFile,
            PaletteCommandId::Save => PaletteOutcome::SaveFile,
            PaletteCommandId::SaveAs => PaletteOutcome::SaveFileAs,
            PaletteCommandId::Undo => PaletteOutcome::Action(PaletteAction::UndoLast),
            PaletteCommandId::Clear => PaletteOutcome::Action(PaletteAction::Clear),
            PaletteCommandId::ToolSelect => PaletteOutcome::Action(PaletteAction::SetTool(Tool::Select)),
            PaletteCommandId::ToolSketch => PaletteOutcome::Action(PaletteAction::SetTool(Tool::Sketch)),
            PaletteCommandId::ToolRectangle => PaletteOutcome::Action(PaletteAction::SetTool(Tool::Rectangle)),
            PaletteCommandId::ToolLine => PaletteOutcome::Action(PaletteAction::SetTool(Tool::Line)),
            PaletteCommandId::ToolPlane => PaletteOutcome::Action(PaletteAction::SetTool(Tool::ConstructionPlane)),
            PaletteCommandId::ExitSketch => PaletteOutcome::Action(PaletteAction::ExitSketch),
            PaletteCommandId::CommitRectangle => PaletteOutcome::Action(PaletteAction::CommitRectangle),
            PaletteCommandId::CommitLine => PaletteOutcome::Action(PaletteAction::CommitLine),
            PaletteCommandId::CommitPlane => PaletteOutcome::Action(PaletteAction::CommitConstructionPlane),
            PaletteCommandId::CancelOperation => PaletteOutcome::Action(PaletteAction::CancelOperation),
            PaletteCommandId::ViewFront => PaletteOutcome::Action(PaletteAction::SetStandardView(StandardView::Front)),
            PaletteCommandId::ViewBack => PaletteOutcome::Action(PaletteAction::SetStandardView(StandardView::Back)),
            PaletteCommandId::ViewLeft => PaletteOutcome::Action(PaletteAction::SetStandardView(StandardView::Left)),
            PaletteCommandId::ViewRight => PaletteOutcome::Action(PaletteAction::SetStandardView(StandardView::Right)),
            PaletteCommandId::ViewTop => PaletteOutcome::Action(PaletteAction::SetStandardView(StandardView::Top)),
            PaletteCommandId::ViewBottom => PaletteOutcome::Action(PaletteAction::SetStandardView(StandardView::Bottom)),
            PaletteCommandId::ViewHome => PaletteOutcome::Action(PaletteAction::ViewHome),
            PaletteCommandId::SetHomeView => PaletteOutcome::Action(PaletteAction::SetHomeView),
            PaletteCommandId::ToggleProjection => PaletteOutcome::Action(PaletteAction::ToggleProjectionMode),
            PaletteCommandId::ShowPaneHierarchy => PaletteOutcome::Action(PaletteAction::SetPaneVisible { pane: Pane::Hierarchy, visible: true }),
            PaletteCommandId::HidePaneHierarchy => PaletteOutcome::Action(PaletteAction::SetPaneVisible { pane: Pane::Hierarchy, visible: false }),
            PaletteCommandId::ShowPaneParameters => PaletteOutcome::Action(PaletteAction::SetPaneVisible { pane: Pane::Parameters, visible: true }),
            PaletteCommandId::HidePaneParameters => PaletteOutcome::Action(PaletteAction::SetPaneVisible { pane: Pane::Parameters, visible: false }),
            PaletteCommandId::ShowPaneContext => PaletteOutcome::Action(PaletteAction::SetPaneVisible { pane: Pane::Context, visible: true }),
            PaletteCommandId::HidePaneContext => PaletteOutcome::Action(PaletteAction::SetPaneVisible { pane: Pane::Context, visible: false }),
            PaletteCommandId::ShowPaneViewCube => PaletteOutcome::Action(PaletteAction::SetPaneVisible { pane: Pane::ViewCube, visible: true }),
            PaletteCommandId::HidePaneViewCube => PaletteOutcome::Action(PaletteAction::SetPaneVisible { pane: Pane::ViewCube, visible: false }),
        }
    }
}


/// The palette never offers to show a pane that is shown or to hide one that is hidden: every
/// pane command offered in a state flips that pane's visibility.
pub proof fn law_offered_pane_commands_flip_visibility(state: EditorState, i: int)
    requires
        0 <= i < spec_command_ids_for_state(state).len(),
    ensures
        spec_outcome(spec_command_ids_for_state(state)[i]) matches PaletteOutcome::Action(
            PaletteAction::SetPaneVisible { pane, visible },
        ) ==> visible == !spec_is_visible(state.panes, pane),
{
    let ids = spec_command_ids_for_state(state);
    let base = spec_base_command_ids();
    let head = base + offered_if(state.sketch_session is Some, PaletteCommandId::ExitSketch)
        + offered_if(state.creating_rect is Some, PaletteCommandId::CommitRectangle)
        + offered_if(state.creating_line is Some, PaletteCommandId::CommitLine)
        + offered_if(state.creating_plane, PaletteCommandId::CommitPlane);
    let panes = seq![
        pane_command_id(Pane::Hierarchy, spec_is_visible(state.panes, Pane::Hierarchy)),
        pane_command_id(Pane::Parameters, spec_is_visible(state.panes, Pane::Parameters)),
        pane_command_id(Pane::Context, spec_is_visible(state.panes, Pane::Context)),
        pane_command_id(Pane::ViewCube, spec_is_visible(state.panes, Pane::ViewCube)),
    ];
    assert(ids == head + panes);
    if i < head.len() {
        assert(ids[i] == head[i]);
        let a = base + offered_if(state.sketch_session is Some, PaletteCommandId::ExitSketch);
        let b = a + offered_if(state.creating_rect is Some, PaletteCommandId::CommitRectangle);
        let c = b + offered_if(state.creating_line is Some, PaletteCommandId::CommitLine);
        assert(head == c + offered_if(state.creating_plane, PaletteCommandId::CommitPlane));
        assert(forall|k: int| 0 <= k < base.len() ==> !(#[trigger] spec_outcome(base[k]) matches PaletteOutcome::Action(
            PaletteAction::SetPaneVisible { .. },
        )));
        assert(forall|k: int| 0 <= k < a.len() ==> !(#[trigger] spec_outcome(a[k]) matches PaletteOutcome::Action(
            PaletteAction::SetPaneVisible { .. },
        ))) by {
            assert forall|k: int| 0 <= k < a.len() implies !(#[trigger] spec_outcome(a[k]) matches PaletteOutcome::Action(
                PaletteAction::SetPaneVisible { .. },
            )) by {
                if k < base.len() {
                    assert(a[k] == base[k]);
                }
            }
        }
        assert(forall|k: int| 0 <= k < b.len() ==> !(#[trigger] spec_outcome(b[k]) matches PaletteOutcome::Action(
            PaletteAction::SetPaneVisible { .. },
        ))) by {
            assert forall|k: int| 0 <= k < b.len() implies !(#[trigger] spec_outcome(b[k]) matches PaletteOutcome::Action(
                PaletteAction::SetPaneVisible { .. },
            )) by {
                if k < a.len() {
                    assert(b[k] == a[k]);
                }
            }
        }
        assert(forall|k: int| 0 <= k < c.len() ==> !(#[trigger] spec_outcome(c[k]) matches PaletteOutcome::Action(
            PaletteAction::SetPaneVisible { .. },
        ))) by {
            assert forall|k: int| 0 <= k < c.len() implies !(#[trigger] spec_outcome(c[k]) matches PaletteOutcome::Action(
                PaletteAction::SetPaneVisible { .. },
            )) by {
                if k < b.len() {
                    assert(c[k] == b[k]);
                }
            }
        }
        if i < c.len() {
            assert(head[i] == c[i]);
        }
    } else {
        assert(ids[i] == panes[i - head.len()]);
    }
}


proof fn lemma_contains_concat(a: Seq<PaletteCommandId>, b: Seq<PaletteCommandId>, x: PaletteCommandId)
    ensures
        (a + b).contains(x) <==> (a.contains(x) || b.contains(x)),
{
    if (a + b).contains(x) {
        let k = choose|k: int| 0 <= k < (a + b).len() && (a + b)[k] == x;
        if k < a.len() {
            assert(a[k] == x);
        } else {
            assert(b[k - a.len()] == x);
        }
    }
    if a.contains(x) {
        let k = choose|k: int| 0 <= k < a.len() && a[k] == x;
        assert((a + b)[k] == x);
    }
    if b.contains(x) {
        let k = choose|k: int| 0 <= k < b.len() && b[k] == x;
        assert((a + b)[a.len() + k] == x);
    }
}

/// Whether `id` is offered only in some editor states: exiting a sketch, committing a
/// drawing or plane, or showing or hiding a pane.
pub open spec fn state_dependent(id: PaletteCommandId) -> bool {
    match id {
        PaletteCommandId::ExitSketch | PaletteCommandId::CommitRectangle | PaletteCommandId::CommitLine
        | PaletteCommandId::CommitPlane | PaletteCommandId::ShowPaneHierarchy
        | PaletteCommandId::HidePaneHierarchy | PaletteCommandId::ShowPaneParameters
        | PaletteCommandId::HidePaneParameters | PaletteCommandId::ShowPaneContext
        | PaletteCommandId::HidePaneContext | PaletteCommandId::ShowPaneViewCube
        | PaletteCommandId::HidePaneViewCube => true,
        _ => false,
    }
}

/// The palette offers exiting the sketch exactly while a sketch is open, committing a
/// rectangle, line or plane exactly while one is in progress, and for every pane exactly one
/// of showing and hiding it: hiding when it is visible, showing when it is hidden.
pub proof fn law_offered_commands_follow_state(state: EditorState, pane: Pane)
    ensures
        spec_command_ids_for_state(state).contains(PaletteCommandId::ExitSketch) <==> state.sketch_session is Some,
        spec_command_ids_for_state(state).contains(PaletteCommandId::CommitRectangle) <==> state.creating_rect is Some,
        spec_command_ids_for_state(state).contains(PaletteCommandId::CommitLine) <==> state.creating_line is Some,
        spec_command_ids_for_state(state).contains(PaletteCommandId::CommitPlane) <==> state.creating_plane,
        spec_command_ids_for_state(state).contains(pane_command_id(pane, spec_is_visible(state.panes, pane))),
        !spec_command_ids_for_state(state).contains(pane_command_id(pane, !spec_is_visible(state.panes, pane))),
{
    let base = spec_base_command_ids();
    let o1 = offered_if(state.sketch_session is Some, PaletteCommandId::ExitSketch);
    let o2 = offered_if(state.creating_rect is Some, PaletteCommandId::CommitRectangle);
    let o3 = offered_if(state.creating_line is Some, PaletteCommandId::CommitLine);
    let o4 = offered_if(state.creating_plane, PaletteCommandId::CommitPlane);
    let panes = seq![
        pane_command_id(Pane::Hierarchy, spec_is_visible(state.panes, Pane::Hierarchy)),
        pane_command_id(Pane::Parameters, spec_is_visible(state.panes, Pane::Parameters)),
        pane_command_id(Pane::Context, spec_is_visible(state.panes, Pane::Context)),
        pane_command_id(Pane::ViewCube, spec_is_visible(state.panes, Pane::ViewCube)),
    ];
    let ids = spec_command_ids_for_state(state);
    assert(ids == base + o1 + o2 + o3 + o4 + panes);
    assert forall|k: int| 0 <= k < base.len() implies !state_dependent(#[trigger] base[k]) by {
        assert(base[0] == PaletteCommandId::NewDocument);
    }
    let x1 = PaletteCommandId::ExitSketch;
    let x2 = PaletteCommandId::CommitRectangle;
    let x3 = PaletteCommandId::CommitLine;
    let x4 = PaletteCommandId::CommitPlane;
    let on = pane_command_id(pane, spec_is_visible(state.panes, pane));
    let off = pane_command_id(pane, !spec_is_visible(state.panes, pane));
    let xs = seq![x1, x2, x3, x4, on, off];
    assert forall|j: int| 0 <= j < xs.len() implies {
        let x = #[trigger] xs[j];
        &&& ids.contains(x) <==> (base.contains(x) || o1.contains(x) || o2.contains(x) || o3.contains(x)
            || o4.contains(x) || panes.contains(x))
        &&& !base.contains(x)
    } by {
        let x = xs[j];
        lemma_contains_concat(base, o1, x);
        lemma_contains_concat(base + o1, o2, x);
        lemma_contains_concat(base + o1 + o2, o3, x);
        lemma_contains_concat(base + o1 + o2 + o3, o4, x);
        lemma_contains_concat(base + o1 + o2 + o3 + o4, panes, x);
        assert(state_dependent(x));
        if base.contains(x) {
            let k = choose|k: int| 0 <= k < base.len() && base[k] == x;
            assert(!state_dependent(base[k]));
        }
    }
    assert(xs[0] == x1 && xs[1] == x2 && xs[2] == x3 && xs[3] == x4 && xs[4] == on && xs[5] == off);
    assert(o1.contains(x1) <==> state.sketch_session is Some) by {
        if state.sketch_session is Some {
            assert(o1[0] == x1);
        }
    }
    assert(o2.contains(x2) <==> state.creating_rect is Some) by {
        if state.creating_rect is Some {
            assert(o2[0] == x2);
        }
    }
    assert(o3.contains(x3) <==> state.creating_line is Some) by {
        if state.creating_line is Some {
            assert(o3[0] == x3);
        }
    }
    assert(o4.contains(x4) <==> state.creating_plane) by {
        if state.creating_plane {
            assert(o4[0] == x4);
        }
    }
    match pane {
        Pane::Hierarchy => {
            assert(panes[0] == on);
        },
        Pane::Parameters => {
            assert(panes[1] == on);
        },
        Pane::Context => {
            assert(panes[2] == on);
        },
        Pane::ViewCube => {
            assert(panes[3] == on);
        },
    }
    if panes.contains(off) {
        let k = choose|k: int| 0 <= k < panes.len() && panes[k] == off;
        assert(0 <= k < 4);
    }
}

/// The keys pressed this frame that the palette reacts to.
#[derive(Clone, Copy, Debug, PartialEq, Eq, Structural)]
pub struct PaletteKeys {
    pub enter: bool,
    pub escape: bool,
    pub up: bool,
    pub down: bool,
}

/// The highlighted row after this frame's keys, among `count` matches: reset to the top when
/// the query changed, moved by Down then Up, kept on the list.
pub open spec fn palette_highlight(selected: usize, query_changed: bool, count: nat, keys: PaletteKeys) -> int {
    let s0: int = if query_changed { 0 } else { selected as int };
    let s1: int = if count > 0 && keys.down { if s0 + 1 < count - 1 { s0 + 1 } else { count - 1 } } else { s0 };
    let s2: int = if count > 0 && keys.up { if s1 > 0 { s1 - 1 } else { 0 } } else { s1 };
    let s3: int = if count == 0 { 0 } else { s2 };
    if s3 >= count { if count > 0 { count - 1 } else { 0 } } else { s3 }
}

/// One frame of the palette: Escape closes it; otherwise the highlight follows the keys (and
/// a clicked row), and Enter chooses the highlighted match. `matches` are the filtered
/// commands shown.
pub fn palette_step(
    state: &mut CommandPaletteState,
    matches: &[(PaletteCommand, i32)],
    keys: PaletteKeys,
    clicked: Option<usize>,
) -> (r: Option<PaletteOutcome>)
    ensures
        keys.escape ==> {
            &&& r is None
            &&& !final(state).open
            &&& final(state).query@ == Seq::<char>::empty()
            &&& final(state).selected == 0
        },
        !keys.escape ==> {
            let changed = old(state).query@ != old(state).prior_query@;
            let h = palette_highlight(old(state).selected, changed, matches@.len(), keys);
            let shown = match clicked {
                Some(i) => if i < matches@.len() { i as int } else { h },
                None => h,
            };
            &&& final(state).selected == shown
            &&& final(state).open == old(state).open
            &&& final(state).query == old(state).query
            &&& final(state).request_focus == old(state).request_focus
            &&& final(state).prior_query@ == old(state).query@
            &&& r == (if keys.enter && shown < matches@.len() {
                Some(spec_outcome(matches@[shown].0.id))
            } else {
                None
            })
        },
{
    if !str_eq(state.query.as_str(), state.prior_query.as_str()) {
        state.selected = 0;
        state.prior_query = string_of(state.query.as_str());
    }
    if keys.escape {
        state.close_palette();
        return None;
    }
    let n = matches.len();
    if n > 0 {
        if keys.down {
            state.selected = if state.selected < n - 1 { state.selected + 1 } else { n - 1 };
        }
        if keys.up {
            state.selected = if state.selected > 0 { state.selected - 1 } else { 0 };
        }
    } else {
        state.selected = 0;
    }
    if state.selected >= n {
        state.selected = if n > 0 { n - 1 } else { 0 };
    }
    match clicked {
        Some(i) => {
            if i < n {
                state.selected = i;
            }
        },
        None => {},
    }
    if keys.enter && state.selected < n {
        Some(matches[state.selected].0.outcome())
    } else {
        None
    }
}

} // verus!
