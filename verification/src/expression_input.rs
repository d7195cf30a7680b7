//! Length expression fields: the identifier under the cursor, parameter autocomplete and the
//! live validation messages (unknown variables, circular parameter definitions).

use vstd::prelude::*;
use crate::model::Document;
use crate::command_palette::{fuzzy_score, lemma_lex_total, lemma_lex_trans, lex_lt, query_fits, spec_fuzzy_score, str_lt};
use crate::text::{is_ascii_alnum, ascii_alnum, is_ws, whitespace, push_char, push_str, string_of, trimmed, trimmed_string};
use crate::cascade::{count_false, lemma_count_false_mono};

verus! {

/// A character that can continue an identifier.
pub open spec fn is_identifier_part(c: char) -> bool {
    is_ascii_alnum(c) || c == '_'
}

/// A character that can begin an identifier.
pub open spec fn is_identifier_start(c: char) -> bool {
    ('a' <= c && c <= 'z') || ('A' <= c && c <= 'Z') || c == '_'
}

fn identifier_part(c: char) -> (r: bool)
    ensures
        r == is_identifier_part(c),
{
    ascii_alnum(c) || c == '_'
}

fn identifier_start(c: char) -> (r: bool)
    ensures
        r == is_identifier_start(c),
{
    ('a' <= c && c <= 'z') || ('A' <= c && c <= 'Z') || c == '_'
}

/// First position of the run of identifier characters that ends at `i`.
pub open spec fn run_start(s: Seq<char>, i: int) -> int
    decreases i,
{
    if 0 < i <= s.len() && is_identifier_part(s[i - 1]) {
        run_start(s, i - 1)
    } else {
        i
    }
}

/// Position just past the run of identifier characters that starts at `i`.
pub open spec fn run_end(s: Seq<char>, i: int) -> int
    decreases s.len() - i,
{
    if 0 <= i < s.len() && is_identifier_part(s[i]) {
        run_end(s, i + 1)
    } else {
        i
    }
}

/// The last non-whitespace character before position `i`.
pub open spec fn prev_nonspace(s: Seq<char>, i: int) -> Option<char>
    decreases i,
{
    if i <= 0 || i > s.len() {
        None
    } else if is_ws(s[i - 1]) {
        prev_nonspace(s, i - 1)
    } else {
        Some(s[i - 1])
    }
}

/// A word at `i` follows a number (`10mm`, `2.5 in`): it is a unit, not a name.
pub open spec fn follows_number(s: Seq<char>, i: int) -> bool {
    match prev_nonspace(s, i) {
        Some(c) => ('0' <= c && c <= '9') || c == '.',
        None => false,
    }
}

/// Character range `[start, end)` of the identifier touching the cursor.
pub open spec fn spec_identifier_token_at_cursor(s: Seq<char>, cursor: int) -> Option<(int, int)> {
    if s.len() == 0 {
        None
    } else {
        let c = if cursor < s.len() {
            cursor
        } else {
            s.len() as int
        };
        let a = run_start(s, c);
        let b = run_end(s, c);
        if a == b || !is_identifier_start(s[a]) || follows_number(s, a) {
            None
        } else {
            Some((a, b))
        }
    }
}

pub proof fn lemma_run_start_bounds(s: Seq<char>, i: int)
    requires
        0 <= i <= s.len(),
    ensures
        0 <= run_start(s, i) <= i,
        forall|k: int| run_start(s, i) <= k < i ==> is_identifier_part(#[trigger] s[k]),
    decreases i,
{
    if 0 < i && is_identifier_part(s[i - 1]) {
        lemma_run_start_bounds(s, i - 1);
    }
}

pub proof fn lemma_run_end_bounds(s: Seq<char>, i: int)
    requires
        0 <= i <= s.len(),
    ensures
        i <= run_end(s, i) <= s.len(),
        forall|k: int| i <= k < run_end(s, i) ==> is_identifier_part(#[trigger] s[k]),
    decreases s.len() - i,
{
    if i < s.len() && is_identifier_part(s[i]) {
        lemma_run_end_bounds(s, i + 1);
    }
}

/// Whether the word at `i` follows a number.
fn word_follows_number(chars: &Vec<char>, i: usize) -> (r: bool)
    requires
        i <= chars@.len(),
    ensures
        r == follows_number(chars@, i as int),
{
    let mut k: usize = i;
    while k > 0 && whitespace(chars[k - 1])
        invariant
            k <= i <= chars@.len(),
            prev_nonspace(chars@, k as int) == prev_nonspace(chars@, i as int),
        decreases k,
    {
        k = k - 1;
    }
    if k == 0 {
        false
    } else {
        let c = chars[k - 1];
        ('0' <= c && c <= '9') || c == '.'
    }
}

fn chars_of(text: &str) -> (r: Vec<char>)
    ensures
        r@ == text@,
{
    let n = text.unicode_len();
    let mut out: Vec<char> = Vec::new();
    let mut i: usize = 0;
    while i < n
        invariant
            n == text@.len(),
            i <= n,
            out@ == text@.take(i as int),
        decreases n - i,
    {
        out.push(text.get_char(i));
        proof {
            assert(text@.take(i + 1) =~= text@.take(i as int).push(text@[i as int]));
        }
        i = i + 1;
    }
    proof {
        assert(text@.take(n as int) =~= text@);
    }
    out
}

/// Character range `[start, end)` of the identifier token touching `cursor_char_index`.
/// A word that follows a number (a unit suffix such as `mm`) is no identifier.
pub fn identifier_token_at_cursor(text: &str, cursor_char_index: usize) -> (r: Option<(usize, usize)>)
    ensures
        match spec_identifier_token_at_cursor(text@, cursor_char_index as int) {
            Some((a, b)) => r == Some((a as usize, b as usize)),
            None => r is None,
        },
        r matches Some((a, b)) ==> {
            &&& a < b <= text@.len()
            &&& a <= cursor_char_index && (cursor_char_index <= b || b == text@.len())
            &&& is_identifier_start(text@[a as int])
            &&& forall|k: int| a <= k < b ==> is_identifier_part(#[trigger] text@[k])
        },
{
    let chars = chars_of(text);
    if chars.len() == 0 {
        return None;
    }
    let cursor = if cursor_char_index < chars.len() {
        cursor_char_index
    } else {
        chars.len()
    };
    let mut start = cursor;
    while start > 0 && identifier_part(chars[start - 1])
        invariant
            start <= cursor <= chars@.len(),
            run_start(chars@, start as int) == run_start(chars@, cursor as int),
        decreases start,
    {
        start = start - 1;
    }
    let mut end = cursor;
    while end < chars.len() && identifier_part(chars[end])
        invariant
            cursor <= end <= chars@.len(),
            run_end(chars@, end as int) == run_end(chars@, cursor as int),
        decreases chars@.len() - end,
    {
        end = end + 1;
    }
    if start == end {
        return None;
    }
    if !identifier_start(chars[start]) {
        return None;
    }
    if start > 0 && word_follows_number(&chars, start) {
        return None;
    }
    proof {
        lemma_run_start_bounds(chars@, cursor as int);
        lemma_run_end_bounds(chars@, cursor as int);
    }
    Some((start, end))
}


/// The variable names an expression refers to, in order of appearance: each word that
/// begins like an identifier and does not follow a number (`10mm`, `2.5 in` are quantities).
pub open spec fn variable_refs_from(s: Seq<char>, i: int) -> Seq<Seq<char>>
    decreases s.len() - i,
{
    if i < 0 || i >= s.len() {
        Seq::empty()
    } else if is_identifier_part(s[i]) {
        let e = run_end(s, i);
        proof {
            lemma_run_end_bounds(s, i + 1);
        }
        let rest = variable_refs_from(s, e);
        if is_identifier_start(s[i]) && !follows_number(s, i) {
            seq![s.subrange(i, e)] + rest
        } else {
            rest
        }
    } else {
        variable_refs_from(s, i + 1)
    }
}

pub open spec fn variable_refs(s: Seq<char>) -> Seq<Seq<char>> {
    variable_refs_from(s, 0)
}

pub open spec fn string_views(v: Seq<String>) -> Seq<Seq<char>> {
    v.map_values(|x: String| x@)
}

/// The characters `chars[a..b]` as a string.
fn string_from_range(chars: &Vec<char>, a: usize, b: usize) -> (r: String)
    requires
        a <= b <= chars@.len(),
    ensures
        r@ == chars@.subrange(a as int, b as int),
{
    let mut out = String::new();
    let mut k: usize = a;
    while k < b
        invariant
            a <= k <= b <= chars@.len(),
            out@ == chars@.subrange(a as int, k as int),
        decreases b - k,
    {
        push_char(&mut out, chars[k]);
        proof {
            assert(chars@.subrange(a as int, k + 1) =~= chars@.subrange(a as int, k as int).push(chars@[k as int]));
        }
        k = k + 1;
    }
    out
}

/// The variable names `text` refers to, in order of appearance.
pub fn expression_variables(text: &str) -> (r: Vec<String>)
    ensures
        string_views(r@) == variable_refs(text@),
{
    let chars = chars_of(text);
    let mut out: Vec<String> = Vec::new();
    let mut i: usize = 0;
    proof {
        assert(string_views(out@) + variable_refs_from(chars@, 0) =~= variable_refs_from(chars@, 0));
    }
    while i < chars.len()
        invariant
            chars@ == text@,
            i <= chars@.len(),
            string_views(out@) + variable_refs_from(chars@, i as int) == variable_refs_from(chars@, 0),
        decreases chars@.len() - i,
    {
        let ghost before = out@;
        if identifier_part(chars[i]) {
            let mut e = i + 1;
            while e < chars.len() && identifier_part(chars[e])
                invariant
                    i < e <= chars@.len(),
                    run_end(chars@, e as int) == run_end(chars@, i as int),
                decreases chars@.len() - e,
            {
                e = e + 1;
            }
            proof {
                lemma_run_end_bounds(chars@, i + 1);
            }
            if identifier_start(chars[i]) && !word_follows_number(&chars, i) {
                let word = string_from_range(&chars, i, e);
                out.push(word);
                proof {
                    assert(string_views(out@) =~= string_views(before).push(word@));
                    assert(string_views(out@) + variable_refs_from(chars@, e as int) =~= string_views(before)
                        + (seq![chars@.subrange(i as int, e as int)] + variable_refs_from(chars@, e as int)));
                }
            }
            i = e;
        } else {
            i = i + 1;
        }
    }
    proof {
        assert(string_views(out@) + variable_refs_from(chars@, i as int) =~= string_views(out@));
    }
    out
}

/// Each name of `refs` that `known` lacks, once, in order of first appearance.
pub open spec fn unknown_names(refs: Seq<Seq<char>>, known: Set<Seq<char>>) -> Seq<Seq<char>>
    decreases refs.len(),
{
    if refs.len() == 0 {
        Seq::empty()
    } else {
        let prev = unknown_names(refs.drop_last(), known);
        let x = refs.last();
        if known.contains(x) || prev.contains(x) {
            prev
        } else {
            prev.push(x)
        }
    }
}


/// Context for validating a parameter definition expression (cycle detection).
#[derive(Clone, Debug, PartialEq, Eq)]
pub struct ParameterExpressionContext {
    pub param_name: String,
    pub existing_index: Option<usize>,
}

/// Names an expression may use: every live parameter.
pub open spec fn live_parameter_names(doc: Document) -> Set<Seq<char>> {
    Set::new(
        |n: Seq<char>|
            exists|j: int|
                0 <= j < doc.parameters@.len() && !doc.parameters@[j].deleted
                    && #[trigger] doc.parameters@[j].name@ == n,
    )
}

/// Names a parameter definition may use: the parameter being defined and every other live
/// parameter (the one stored at `existing_index` is the one being redefined).
pub open spec fn definition_known_names(doc: Document, ctx: ParameterExpressionContext) -> Set<
    Seq<char>,
> {
    Set::new(
        |n: Seq<char>|
            n == ctx.param_name@ || exists|j: int|
                0 <= j < doc.parameters@.len() && !doc.parameters@[j].deleted && ctx.existing_index
                    != Some(j as usize) && #[trigger] doc.parameters@[j].name@ == n,
    )
}

pub open spec fn known_names(doc: Document, ctx: Option<ParameterExpressionContext>) -> Set<Seq<char>> {
    match ctx {
        Some(c) => definition_known_names(doc, c),
        None => live_parameter_names(doc),
    }
}

fn is_known_name(doc: &Document, ctx: Option<&ParameterExpressionContext>, name: &String) -> (r: bool)
    ensures
        r == known_names(*doc, match ctx {
            Some(c) => Some(*c),
            None => None,
        }).contains(name@),
{
    let ghost cx = match ctx {
        Some(c) => Some(*c),
        None => None::<ParameterExpressionContext>,
    };
    if let Some(c) = ctx {
        if c.param_name == *name {
            return true;
        }
    }
    let mut j: usize = 0;
    while j < doc.parameters.len()
        invariant
            j <= doc.parameters@.len(),
            cx == match ctx {
                Some(c) => Some(*c),
                None => None,
            },
            cx matches Some(c) ==> c.param_name@ != name@,
            forall|k: int|
                0 <= k < j ==> !(!doc.parameters@[k].deleted && (cx matches Some(c)
                    ==> c.existing_index != Some(k as usize)) && #[trigger] doc.parameters@[k].name@
                    == name@),
        decreases doc.parameters@.len() - j,
    {
        let p = &doc.parameters[j];
        let excluded = match ctx {
            Some(c) => c.existing_index == Some(j),
            None => false,
        };
        if !p.deleted && !excluded && p.name == *name {
            return true;
        }
        j = j + 1;
    }
    false
}

fn contains_string(v: &Vec<String>, x: &String) -> (r: bool)
    ensures
        r == string_views(v@).contains(x@),
{
    let mut k: usize = 0;
    while k < v.len()
        invariant
            k <= v@.len(),
            forall|m: int| 0 <= m < k ==> v@[m]@ != x@,
        decreases v@.len() - k,
    {
        if v[k] == *x {
            proof {
                assert(string_views(v@)[k as int] == x@);
            }
            return true;
        }
        k = k + 1;
    }
    proof {
        if string_views(v@).contains(x@) {
            let m = choose|m: int| 0 <= m < string_views(v@).len() && string_views(v@)[m] == x@;
            assert(v@[m]@ == x@);
        }
    }
    false
}

/// The names `text` uses that are not known in this context, once each, in order.
pub fn unknown_variables(text: &str, doc: &Document, ctx: Option<&ParameterExpressionContext>) -> (r: Vec<String>)
    ensures
        string_views(r@) == unknown_names(variable_refs(text@), known_names(*doc, match ctx {
            Some(c) => Some(*c),
            None => None,
        })),
{
    let ghost known = known_names(*doc, match ctx {
        Some(c) => Some(*c),
        None => None,
    });
    let refs = expression_variables(text);
    let ghost rs = string_views(refs@);
    let mut out: Vec<String> = Vec::new();
    let mut i: usize = 0;
    while i < refs.len()
        invariant
            i <= refs@.len(),
            rs == string_views(refs@),
            rs == variable_refs(text@),
            known == known_names(*doc, match ctx {
                Some(c) => Some(*c),
                None => None,
            }),
            string_views(out@) == unknown_names(rs.take(i as int), known),
        decreases refs@.len() - i,
    {
        proof {
            assert(rs.take(i + 1).drop_last() =~= rs.take(i as int));
            assert(rs.take(i + 1).last() == refs@[i as int]@);
        }
        let name = &refs[i];
        if !is_known_name(doc, ctx, name) && !contains_string(&out, name) {
            let ghost before = out@;
            out.push(name.clone());
            proof {
                assert(string_views(out@) =~= string_views(before).push(name@));
            }
        }
        i = i + 1;
    }
    proof {
        assert(rs.take(i as int) =~= rs);
    }
    out
}

/// The message shown for a name no parameter defines.
pub open spec fn unknown_variable_message(name: Seq<char>) -> Seq<char> {
    "Unknown variable: "@ + name
}

pub fn format_unknown_variable_error(name: &String) -> (r: String)
    ensures
        r@ == unknown_variable_message(name@),
{
    let mut s = string_of("Unknown variable: ");
    push_str(&mut s, name.as_str());
    s
}


// Dependency graph of a parameter definition. Node `doc.parameters.len()` is the definition
// being edited (named `ctx.param_name`, with the expression being typed); node `j` below it is
// stored parameter `j`, when it is live and not the one being redefined.

pub open spec fn edited_node(doc: Document) -> int {
    doc.parameters@.len() as int
}

pub open spec fn dep_node(doc: Document, ctx: ParameterExpressionContext, v: int) -> bool {
    v == edited_node(doc) || (0 <= v < doc.parameters@.len() && !doc.parameters@[v].deleted
        && ctx.existing_index != Some(v as usize))
}

pub open spec fn node_expression(doc: Document, expr: Seq<char>, v: int) -> Seq<char> {
    if v == edited_node(doc) {
        expr
    } else {
        doc.parameters@[v].expression@
    }
}

pub open spec fn node_name(doc: Document, ctx: ParameterExpressionContext, v: int) -> Seq<char> {
    if v == edited_node(doc) {
        ctx.param_name@
    } else {
        doc.parameters@[v].name@
    }
}

/// The first stored node from `j` on that is named `name`.
pub open spec fn resolve_from(doc: Document, ctx: ParameterExpressionContext, name: Seq<char>, j: int) -> Option<int>
    decreases doc.parameters@.len() - j,
{
    if j < 0 || j >= doc.parameters@.len() {
        None
    } else if dep_node(doc, ctx, j) && doc.parameters@[j].name@ == name {
        Some(j)
    } else {
        resolve_from(doc, ctx, name, j + 1)
    }
}

/// The node a name refers to: the definition being edited first, then the first live
/// parameter of that name.
pub open spec fn resolve_name(doc: Document, ctx: ParameterExpressionContext, name: Seq<char>) -> Option<int> {
    if name == ctx.param_name@ {
        Some(edited_node(doc))
    } else {
        resolve_from(doc, ctx, name, 0)
    }
}

/// Node `a`'s expression names node `b`.
pub open spec fn depends_on(doc: Document, ctx: ParameterExpressionContext, expr: Seq<char>, a: int, b: int) -> bool {
    dep_node(doc, ctx, a) && exists|k: int|
        0 <= k < variable_refs(node_expression(doc, expr, a)).len() && resolve_name(
            doc,
            ctx,
            #[trigger] variable_refs(node_expression(doc, expr, a))[k],
        ) == Some(b)
}

/// `p` leads from the edited definition back to itself through dependencies.
pub open spec fn is_dependency_cycle(doc: Document, ctx: ParameterExpressionContext, expr: Seq<char>, p: Seq<int>) -> bool {
    &&& p.len() >= 2
    &&& p[0] == edited_node(doc)
    &&& p.last() == edited_node(doc)
    &&& forall|i: int| 0 <= i < p.len() - 1 ==> depends_on(doc, ctx, expr, #[trigger] p[i], p[i + 1])
}

pub open spec fn has_dependency_cycle(doc: Document, ctx: ParameterExpressionContext, expr: Seq<char>) -> bool {
    exists|p: Seq<int>| is_dependency_cycle(doc, ctx, expr, p)
}

fn resolve_exec(doc: &Document, ctx: &ParameterExpressionContext, name: &String) -> (r: Option<usize>)
    ensures
        match resolve_name(*doc, *ctx, name@) {
            Some(v) => r == Some(v as usize),
            None => r is None,
        },
{
    if ctx.param_name == *name {
        return Some(doc.parameters.len());
    }
    let mut j: usize = 0;
    while j < doc.parameters.len()
        invariant
            j <= doc.parameters@.len(),
            ctx.param_name@ != name@,
            resolve_from(*doc, *ctx, name@, j as int) == resolve_from(*doc, *ctx, name@, 0),
        decreases doc.parameters@.len() - j,
    {
        let p = &doc.parameters[j];
        if !p.deleted && ctx.existing_index != Some(j) && p.name == *name {
            return Some(j);
        }
        j = j + 1;
    }
    None
}

pub open spec fn lists_node(s: Seq<usize>, b: int) -> bool {
    exists|k: int| 0 <= k < s.len() && s[k] as int == b
}

/// One of the first `i` names resolves to node `b`.
pub open spec fn some_name_resolves(doc: Document, ctx: ParameterExpressionContext, rs: Seq<Seq<char>>, i: int, b: int) -> bool {
    exists|k: int| 0 <= k < i && resolve_name(doc, ctx, #[trigger] rs[k]) == Some(b)
}

/// The nodes `v`'s expression names, in order of mention.
fn node_dependencies(doc: &Document, ctx: &ParameterExpressionContext, expr: &String, v: usize) -> (r: Vec<usize>)
    requires
        dep_node(*doc, *ctx, v as int),
    ensures
        forall|b: int| #[trigger] lists_node(r@, b) <==> depends_on(*doc, *ctx, expr@, v as int, b),
        forall|k: int| 0 <= k < r@.len() ==> dep_node(*doc, *ctx, #[trigger] r@[k] as int),
{
    let refs = if v == doc.parameters.len() {
        expression_variables(expr.as_str())
    } else {
        expression_variables(doc.parameters[v].expression.as_str())
    };
    let ghost rs = variable_refs(node_expression(*doc, expr@, v as int));
    assert(string_views(refs@) == rs);
    let n_params = doc.parameters.len();
    let mut out: Vec<usize> = Vec::new();
    let mut i: usize = 0;
    while i < refs.len()
        invariant
            n_params == doc.parameters@.len(),
            i <= refs@.len(),
            string_views(refs@) == rs,
            rs == variable_refs(node_expression(*doc, expr@, v as int)),
            dep_node(*doc, *ctx, v as int),
            forall|b: int| #[trigger] lists_node(out@, b) <==> some_name_resolves(*doc, *ctx, rs, i as int, b),
            forall|k: int| 0 <= k < out@.len() ==> dep_node(*doc, *ctx, #[trigger] out@[k] as int),
        decreases refs@.len() - i,
    {
        proof {
            assert(rs[i as int] == refs@[i as int]@);
            lemma_resolve_is_node(*doc, *ctx, rs[i as int]);
        }
        let ghost before = out@;
        match resolve_exec(doc, ctx, &refs[i]) {
            Some(b) => {
                proof {
                    let rv = resolve_name(*doc, *ctx, rs[i as int]);
                    assert(rv is Some);
                    assert(dep_node(*doc, *ctx, rv->Some_0));
                    assert(rv->Some_0 <= n_params);
                    assert(rv->Some_0 == b as int);
                }
                out.push(b);
                proof {
                    assert forall|c: int| #[trigger] lists_node(out@, c) <==> some_name_resolves(*doc, *ctx, rs, i + 1, c) by {
                        if lists_node(out@, c) {
                            let k = choose|k: int| 0 <= k < out@.len() && out@[k] as int == c;
                            if k < before.len() {
                                assert(before[k] as int == c);
                                assert(lists_node(before, c));
                                let m = choose|m: int| 0 <= m < i && resolve_name(*doc, *ctx, #[trigger] rs[m]) == Some(c);
                                assert(0 <= m < i + 1);
                            } else {
                                assert(resolve_name(*doc, *ctx, rs[i as int]) == Some(c));
                            }
                        }
                        if some_name_resolves(*doc, *ctx, rs, i + 1, c) {
                            let k = choose|k: int| 0 <= k < i + 1 && resolve_name(*doc, *ctx, #[trigger] rs[k]) == Some(c);
                            if k < i {
                                assert(some_name_resolves(*doc, *ctx, rs, i as int, c));
                                assert(lists_node(before, c));
                                let m = choose|m: int| 0 <= m < before.len() && before[m] as int == c;
                                assert(out@[m] as int == c);
                            } else {
                                assert(out@[before.len() as int] as int == c);
                            }
                        }
                    }
                }
            },
            None => {
                proof {
                    assert forall|c: int| #[trigger] lists_node(out@, c) <==> some_name_resolves(*doc, *ctx, rs, i + 1, c) by {
                        if some_name_resolves(*doc, *ctx, rs, i + 1, c) {
                            let k = choose|k: int| 0 <= k < i + 1 && resolve_name(*doc, *ctx, #[trigger] rs[k]) == Some(c);
                            assert(k < i);
                            assert(some_name_resolves(*doc, *ctx, rs, i as int, c));
                        }
                        if lists_node(out@, c) {
                            assert(some_name_resolves(*doc, *ctx, rs, i as int, c));
                            let m = choose|m: int| 0 <= m < i && resolve_name(*doc, *ctx, #[trigger] rs[m]) == Some(c);
                            assert(0 <= m < i + 1);
                        }
                    }
                }
            },
        }
        i = i + 1;
    }
    proof {
        assert forall|b: int| #[trigger] lists_node(out@, b) <==> depends_on(*doc, *ctx, expr@, v as int, b) by {
            if some_name_resolves(*doc, *ctx, rs, i as int, b) {
                let k = choose|k: int| 0 <= k < i && resolve_name(*doc, *ctx, #[trigger] rs[k]) == Some(b);
                assert(0 <= k < variable_refs(node_expression(*doc, expr@, v as int)).len());
            }
            if depends_on(*doc, *ctx, expr@, v as int, b) {
                let k = choose|k: int|
                    0 <= k < variable_refs(node_expression(*doc, expr@, v as int)).len() && resolve_name(
                        *doc,
                        *ctx,
                        #[trigger] variable_refs(node_expression(*doc, expr@, v as int))[k],
                    ) == Some(b);
                assert(some_name_resolves(*doc, *ctx, rs, i as int, b));
            }
        }
    }
    out
}

proof fn lemma_resolve_from_is_node(doc: Document, ctx: ParameterExpressionContext, name: Seq<char>, j: int)
    ensures
        resolve_from(doc, ctx, name, j) matches Some(v) ==> dep_node(doc, ctx, v) && v < doc.parameters@.len(),
    decreases doc.parameters@.len() - j,
{
    if 0 <= j < doc.parameters@.len() {
        lemma_resolve_from_is_node(doc, ctx, name, j + 1);
    }
}

proof fn lemma_resolve_is_node(doc: Document, ctx: ParameterExpressionContext, name: Seq<char>)
    ensures
        resolve_name(doc, ctx, name) matches Some(v) ==> dep_node(doc, ctx, v),
{
    lemma_resolve_from_is_node(doc, ctx, name, 0);
}


pub open spec fn ints(p: Seq<usize>) -> Seq<int> {
    p.map_values(|x: usize| x as int)
}

/// `p` leads from the edited definition through dependencies.
pub open spec fn is_dependency_chain(doc: Document, ctx: ParameterExpressionContext, expr: Seq<char>, p: Seq<int>) -> bool {
    &&& p.len() >= 1
    &&& p[0] == edited_node(doc)
    &&& forall|i: int| 0 <= i < p.len() - 1 ==> depends_on(doc, ctx, expr, #[trigger] p[i], p[i + 1])
}

spec fn visited(doc: Document, seen: Seq<bool>, v: int) -> bool {
    v == edited_node(doc) || (0 <= v < seen.len() && seen[v])
}

/// Every dependency of `v` is visited, and none is the edited definition.
spec fn expanded(doc: Document, ctx: ParameterExpressionContext, expr: Seq<char>, seen: Seq<bool>, v: int) -> bool {
    forall|c: int| #[trigger] depends_on(doc, ctx, expr, v, c) ==> c != edited_node(doc) && visited(doc, seen, c)
}

spec fn pending(stack: Seq<Vec<usize>>, v: int) -> bool {
    exists|k: int| 0 <= k < stack.len() && stack[k]@.len() > 0 && #[trigger] stack[k]@.last() as int == v
}

fn copy_push(p: &Vec<usize>, x: usize) -> (r: Vec<usize>)
    ensures
        r@ == p@.push(x),
{
    let mut out: Vec<usize> = Vec::new();
    let mut k: usize = 0;
    while k < p.len()
        invariant
            k <= p@.len(),
            out@ == p@.take(k as int),
        decreases p@.len() - k,
    {
        out.push(p[k]);
        proof {
            assert(p@.take(k + 1) =~= p@.take(k as int).push(p@[k as int]));
        }
        k = k + 1;
    }
    proof {
        assert(p@.take(k as int) =~= p@);
    }
    out.push(x);
    out
}

proof fn lemma_chain_extend(doc: Document, ctx: ParameterExpressionContext, expr: Seq<char>, p: Seq<usize>, x: usize)
    requires
        is_dependency_chain(doc, ctx, expr, ints(p)),
        depends_on(doc, ctx, expr, ints(p).last(), x as int),
    ensures
        is_dependency_chain(doc, ctx, expr, ints(p.push(x))),
        ints(p.push(x)) == ints(p).push(x as int),
{
    assert(ints(p.push(x)) =~= ints(p).push(x as int));
    let q = ints(p.push(x));
    assert forall|i: int| 0 <= i < q.len() - 1 implies depends_on(doc, ctx, expr, #[trigger] q[i], q[i + 1]) by {
        if i < ints(p).len() - 1 {
            assert(q[i] == ints(p)[i] && q[i + 1] == ints(p)[i + 1]);
        }
    }
}

/// No dependency cycle exists once every visited node is expanded.
proof fn lemma_no_cycle(doc: Document, ctx: ParameterExpressionContext, expr: Seq<char>, seen: Seq<bool>)
    requires
        forall|v: int| visited(doc, seen, v) ==> expanded(doc, ctx, expr, seen, v),
    ensures
        !has_dependency_cycle(doc, ctx, expr),
{
    if has_dependency_cycle(doc, ctx, expr) {
        let p = choose|p: Seq<int>| is_dependency_cycle(doc, ctx, expr, p);
        lemma_cycle_prefix_visited(doc, ctx, expr, seen, p, p.len() - 2);
        assert(depends_on(doc, ctx, expr, p[p.len() - 2], p[p.len() - 1]));
        assert(expanded(doc, ctx, expr, seen, p[p.len() - 2]));
    }
}

proof fn lemma_cycle_prefix_visited(doc: Document, ctx: ParameterExpressionContext, expr: Seq<char>, seen: Seq<bool>, p: Seq<int>, i: int)
    requires
        forall|v: int| visited(doc, seen, v) ==> expanded(doc, ctx, expr, seen, v),
        is_dependency_cycle(doc, ctx, expr, p),
        0 <= i <= p.len() - 2,
    ensures
        visited(doc, seen, p[i]),
    decreases i,
{
    if i > 0 {
        lemma_cycle_prefix_visited(doc, ctx, expr, seen, p, i - 1);
        assert(depends_on(doc, ctx, expr, p[i - 1], p[i]));
        assert(expanded(doc, ctx, expr, seen, p[i - 1]));
    }
}

/// A chain of dependencies from the edited definition back to itself, if there is one.
pub fn dependency_cycle(doc: &Document, ctx: &ParameterExpressionContext, expr: &String) -> (r: Option<Vec<usize>>)
    ensures
        match r {
            Some(p) => is_dependency_cycle(*doc, *ctx, expr@, ints(p@)),
            None => !has_dependency_cycle(*doc, *ctx, expr@),
        },
{
    let ghost d = *doc;
    let ghost cx = *ctx;
    let ghost ex = expr@;
    let e = doc.parameters.len();
    let mut seen = crate::construction::falses(e);
    let mut stack: Vec<Vec<usize>> = Vec::new();
    let mut start: Vec<usize> = Vec::new();
    start.push(e);
    stack.push(start);
    proof {
        assert(ints(stack@[0]@) =~= seq![e as int]);
        assert forall|v: int| visited(d, seen@, v) implies pending(stack@, v) || expanded(d, cx, ex, seen@, v) by {
            assert(v == e);
            assert(stack@[0]@.last() as int == v);
        }
    }
    while stack.len() > 0
        invariant
            d == *doc,
            cx == *ctx,
            ex == expr@,
            e == d.parameters@.len(),
            seen@.len() == e,
            forall|k: int|
                0 <= k < stack@.len() ==> is_dependency_chain(d, cx, ex, ints(#[trigger] stack@[k]@)),
            forall|k: int|
                0 <= k < stack@.len() ==> visited(d, seen@, ints(#[trigger] stack@[k]@).last()) && dep_node(
                    d,
                    cx,
                    ints(stack@[k]@).last(),
                ),
            forall|v: int|
                visited(d, seen@, v) ==> pending(stack@, v) || expanded(d, cx, ex, seen@, v),
        decreases 2 * count_false(seen@) + stack@.len(),
    {
        let ghost stack0 = stack@;
        let p = stack.pop().unwrap();
        proof {
            assert(stack0[stack0.len() - 1] == p);
            assert(is_dependency_chain(d, cx, ex, ints(p@)));
            assert(ints(p@).len() == p@.len());
        }
        let v = p[p.len() - 1];
        proof {
            assert(ints(p@).last() == v as int);
            assert forall|u: int| visited(d, seen@, u) implies u == v || pending(stack@, u) || expanded(
                d,
                cx,
                ex,
                seen@,
                u,
            ) by {
                if pending(stack0, u) && u != v {
                    let k = choose|k: int|
                        0 <= k < stack0.len() && stack0[k]@.len() > 0 && #[trigger] stack0[k]@.last() as int == u;
                    assert(k < stack0.len() - 1);
                    assert(stack@[k] == stack0[k]);
                }
            }
        }
        let deps = node_dependencies(doc, ctx, expr, v);
        let ghost seen1 = seen@;
        let ghost len1 = stack@.len();
        let mut j: usize = 0;
        while j < deps.len()
            invariant
                d == *doc,
                cx == *ctx,
                ex == expr@,
                e == d.parameters@.len(),
                seen@.len() == e,
                j <= deps@.len(),
                is_dependency_chain(d, cx, ex, ints(p@)),
                p@.len() > 0,
                ints(p@).last() == v as int,
                forall|b: int| #[trigger] lists_node(deps@, b) <==> depends_on(d, cx, ex, v as int, b),
                forall|k: int| 0 <= k < deps@.len() ==> dep_node(d, cx, #[trigger] deps@[k] as int),
                forall|m: int|
                    0 <= m < j ==> deps@[m] != e && visited(d, seen@, #[trigger] deps@[m] as int),
                forall|k: int|
                    0 <= k < stack@.len() ==> is_dependency_chain(d, cx, ex, ints(#[trigger] stack@[k]@)),
                forall|k: int|
                    0 <= k < stack@.len() ==> visited(d, seen@, ints(#[trigger] stack@[k]@).last())
                        && dep_node(d, cx, ints(stack@[k]@).last()),
                forall|u: int|
                    visited(d, seen@, u) ==> u == v || pending(stack@, u) || expanded(d, cx, ex, seen@, u),
                forall|i: int| 0 <= i < e && seen1[i] ==> #[trigger] seen@[i],
                2 * count_false(seen@) + stack@.len() <= 2 * count_false(seen1) + len1,
                len1 + 1 == stack0.len(),
            decreases deps@.len() - j,
        {
            let c = deps[j];
            proof {
                assert(lists_node(deps@, c as int));
                assert(depends_on(d, cx, ex, v as int, c as int));
            }
            if c == e {
                let cyc = copy_push(&p, e);
                proof {
                    lemma_chain_extend(d, cx, ex, p@, e);
                }
                return Some(cyc);
            }
            if !seen[c] {
                let ghost seen_before = seen@;
                let ghost stack_before = stack@;
                seen.set(c, true);
                let q = copy_push(&p, c);
                proof {
                    lemma_chain_extend(d, cx, ex, p@, c);
                    lemma_count_false_mono(seen_before, seen@);
                    assert(!seen_before[c as int] && seen@[c as int]);
                }
                stack.push(q);
                proof {
                    assert(stack@[stack@.len() - 1] == q);
                    assert(ints(q@).last() == c as int);
                    assert forall|k: int|
                        0 <= k < stack@.len() implies is_dependency_chain(d, cx, ex, ints(#[trigger] stack@[k]@))
                            && visited(d, seen@, ints(stack@[k]@).last()) && dep_node(d, cx, ints(stack@[k]@).last()) by {
                        if k < stack_before.len() {
                            assert(stack@[k] == stack_before[k]);
                        }
                    }
                    assert forall|u: int| visited(d, seen@, u) implies u == v || pending(stack@, u) || expanded(
                        d,
                        cx,
                        ex,
                        seen@,
                        u,
                    ) by {
                        if u == c as int {
                            assert(stack@[stack@.len() - 1]@.last() as int == u);
                        } else {
                            assert(visited(d, seen_before, u));
                            if pending(stack_before, u) {
                                let k = choose|k: int|
                                    0 <= k < stack_before.len() && stack_before[k]@.len() > 0
                                        && #[trigger] stack_before[k]@.last() as int == u;
                                assert(stack@[k] == stack_before[k]);
                            } else if u != v {
                                assert forall|w: int| #[trigger] depends_on(d, cx, ex, u, w) implies w != edited_node(d)
                                    && visited(d, seen@, w) by {
                                    assert(expanded(d, cx, ex, seen_before, u));
                                }
                            }
                        }
                    }
                    assert forall|m: int| 0 <= m < j + 1 implies deps@[m] != e && visited(d, seen@, #[trigger] deps@[m] as int) by {
                        if m < j {
                            assert(visited(d, seen_before, deps@[m] as int));
                        }
                    }
                }
            } else {
                proof {
                    assert(visited(d, seen@, c as int));
                }
            }
            j = j + 1;
        }
        proof {
            assert(expanded(d, cx, ex, seen@, v as int)) by {
                assert forall|c: int| #[trigger] depends_on(d, cx, ex, v as int, c) implies c != edited_node(d) && visited(d, seen@, c) by {
                    assert(lists_node(deps@, c));
                    let m = choose|m: int| 0 <= m < deps@.len() && deps@[m] as int == c;
                    assert(visited(d, seen@, deps@[m] as int));
                }
            }
            lemma_count_false_mono(seen1, seen@);
        }
    }
    proof {
        assert forall|v: int| visited(d, seen@, v) implies expanded(d, cx, ex, seen@, v) by {
            if pending(stack@, v) {
                let k = choose|k: int| 0 <= k < stack@.len() && stack@[k]@.len() > 0 && #[trigger] stack@[k]@.last() as int == v;
            }
        }
        lemma_no_cycle(d, cx, ex, seen@);
    }
    None
}


/// `names` separated by arrows: `A → B → A`.
pub open spec fn joined_with_arrows(names: Seq<Seq<char>>) -> Seq<char>
    decreases names.len(),
{
    if names.len() == 0 {
        Seq::empty()
    } else if names.len() == 1 {
        names[0]
    } else {
        joined_with_arrows(names.drop_last()) + " \u{2192} "@ + names.last()
    }
}

/// The warning shown for a circular parameter definition along `p`.
pub open spec fn cycle_message(doc: Document, ctx: ParameterExpressionContext, p: Seq<int>) -> Seq<char> {
    "Circular dependency: "@ + joined_with_arrows(p.map_values(|v: int| node_name(doc, ctx, v)))
}

fn format_cycle(doc: &Document, ctx: &ParameterExpressionContext, path: &Vec<usize>) -> (r: String)
    requires
        forall|k: int| 0 <= k < path@.len() ==> dep_node(*doc, *ctx, #[trigger] path@[k] as int),
    ensures
        r@ == cycle_message(*doc, *ctx, ints(path@)),
{
    let ghost names = ints(path@).map_values(|v: int| node_name(*doc, *ctx, v));
    let mut s = string_of("Circular dependency: ");
    let mut k: usize = 0;
    while k < path.len()
        invariant
            k <= path@.len(),
            names == ints(path@).map_values(|v: int| node_name(*doc, *ctx, v)),
            forall|m: int| 0 <= m < path@.len() ==> dep_node(*doc, *ctx, #[trigger] path@[m] as int),
            s@ == "Circular dependency: "@ + joined_with_arrows(names.take(k as int)),
        decreases path@.len() - k,
    {
        let v = path[k];
        if k > 0 {
            push_str(&mut s, " \u{2192} ");
        }
        let name = if v == doc.parameters.len() {
            &ctx.param_name
        } else {
            &doc.parameters[v].name
        };
        push_str(&mut s, name.as_str());
        proof {
            assert(dep_node(*doc, *ctx, path@[k as int] as int));
            assert(names[k as int] == name@);
            assert(names.take(k + 1).drop_last() =~= names.take(k as int));
            if k == 0 {
                assert(names.take(1) =~= seq![names[0]]);
                assert(joined_with_arrows(names.take(0)) =~= Seq::<char>::empty());
            }
        }
        k = k + 1;
    }
    proof {
        assert(names.take(k as int) =~= names);
    }
    s
}

pub open spec fn context_value(ctx: Option<&ParameterExpressionContext>) -> Option<ParameterExpressionContext> {
    match ctx {
        Some(c) => Some(*c),
        None => None,
    }
}

pub open spec fn unknown_messages(text: Seq<char>, doc: Document, ctx: Option<ParameterExpressionContext>) -> Seq<Seq<char>> {
    unknown_names(variable_refs(text), known_names(doc, ctx)).map_values(
        |n: Seq<char>| unknown_variable_message(n),
    )
}

/// Live validation errors for a length expression field: one message per unknown name, in
/// order, and for a parameter definition a warning when it depends on itself.
pub fn length_expression_field_errors(
    text: &str,
    doc: &Document,
    parameter_context: Option<&ParameterExpressionContext>,
) -> (r: Vec<String>)
    ensures
        trimmed(text@).len() == 0 ==> r@.len() == 0,
        trimmed(text@).len() > 0 ==> match context_value(parameter_context) {
            None => string_views(r@) == unknown_messages(trimmed(text@), *doc, None),
            Some(c) => if has_dependency_cycle(*doc, c, trimmed(text@)) {
                exists|p: Seq<int>|
                    is_dependency_cycle(*doc, c, trimmed(text@), p) && string_views(r@)
                        == unknown_messages(trimmed(text@), *doc, Some(c)).push(
                        cycle_message(*doc, c, p),
                    )
            } else {
                string_views(r@) == unknown_messages(trimmed(text@), *doc, Some(c))
            },
        },
{
    let t = trimmed_string(text);
    let mut errors: Vec<String> = Vec::new();
    if t.as_str().unicode_len() == 0 {
        return errors;
    }
    let unknown = unknown_variables(t.as_str(), doc, parameter_context);
    let ghost msgs = unknown_messages(t@, *doc, context_value(parameter_context));
    let mut i: usize = 0;
    while i < unknown.len()
        invariant
            i <= unknown@.len(),
            msgs == unknown_messages(t@, *doc, context_value(parameter_context)),
            string_views(unknown@) == unknown_names(variable_refs(t@), known_names(*doc, context_value(parameter_context))),
            string_views(errors@) == msgs.take(i as int),
        decreases unknown@.len() - i,
    {
        let ghost before = errors@;
        let msg = format_unknown_variable_error(&unknown[i]);
        let ghost mv = msg@;
        errors.push(msg);
        proof {
            assert(string_views(unknown@)[i as int] == unknown@[i as int]@);
            assert(msgs.len() == string_views(unknown@).len());
            assert(msgs[i as int] == unknown_variable_message(unknown@[i as int]@));
            assert(string_views(errors@) =~= string_views(before).push(mv));
            assert(msgs.take(i + 1) =~= msgs.take(i as int).push(msgs[i as int]));
            assert(string_views(errors@) =~= msgs.take(i + 1));
        }
        i = i + 1;
    }
    proof {
        assert(msgs.take(i as int) =~= msgs);
    }
    if let Some(ctx) = parameter_context {
        if let Some(path) = dependency_cycle(doc, ctx, &t) {
            proof {
                assert forall|k: int| 0 <= k < path@.len() implies dep_node(*doc, *ctx, #[trigger] path@[k] as int) by {
                    if k < path@.len() - 1 {
                        assert(depends_on(*doc, *ctx, t@, ints(path@)[k], ints(path@)[k + 1]));
                    } else {
                        assert(ints(path@)[k] == edited_node(*doc));
                    }
                }
            }
            let ghost before = errors@;
            let warning = format_cycle(doc, ctx, &path);
            errors.push(warning);
            proof {
                assert(string_views(errors@) =~= string_views(before).push(warning@));
            }
        }
    }
    errors
}


/// Most suggestions offered at once.
pub const AUTOCOMPLETE_MAX: usize = 8;

/// A parameter suggested while typing an expression: its name, its defining expression and
/// how well it matched.
#[derive(Clone, Debug, PartialEq, Eq)]
pub struct AutocompleteMatch {
    pub name: String,
    pub value: String,
    pub score: i32,
}

pub open spec fn match_view(m: AutocompleteMatch) -> (Seq<char>, Seq<char>, int) {
    (m.name@, m.value@, m.score as int)
}

pub open spec fn match_views(v: Seq<AutocompleteMatch>) -> Seq<(Seq<char>, Seq<char>, int)> {
    v.map_values(|m: AutocompleteMatch| match_view(m))
}

/// Better score first, then name order.
pub open spec fn suggestion_before(a: (Seq<char>, Seq<char>, int), b: (Seq<char>, Seq<char>, int)) -> bool {
    a.2 > b.2 || (a.2 == b.2 && !lex_lt(b.0, a.0))
}

pub open spec fn suggestions_ranked(v: Seq<(Seq<char>, Seq<char>, int)>) -> bool {
    forall|a: int, b: int| 0 <= a < b < v.len() ==> suggestion_before(#[trigger] v[a], #[trigger] v[b])
}

pub open spec fn name_excluded(exclude: Seq<&str>, name: Seq<char>) -> bool {
    exists|k: int| 0 <= k < exclude.len() && #[trigger] exclude[k]@ == name
}

/// Every live, not excluded parameter among the first `j` whose name matches the query, in
/// document order, with its score.
pub open spec fn suggestion_candidates(doc: Document, query: Seq<char>, exclude: Seq<&str>, j: int) -> Seq<
    (Seq<char>, Seq<char>, int),
>
    decreases j,
{
    if j <= 0 || j > doc.parameters@.len() {
        Seq::empty()
    } else {
        let prev = suggestion_candidates(doc, query, exclude, j - 1);
        let p = doc.parameters@[j - 1];
        if p.deleted || name_excluded(exclude, p.name@) {
            prev
        } else {
            match spec_fuzzy_score(query, p.name@) {
                Some(sc) => prev.push((p.name@, p.expression@, sc)),
                None => prev,
            }
        }
    }
}

fn name_in(exclude: &[&str], name: &String) -> (r: bool)
    ensures
        r == name_excluded(exclude@, name@),
{
    let mut k: usize = 0;
    while k < exclude.len()
        invariant
            k <= exclude@.len(),
            forall|m: int| 0 <= m < k ==> exclude@[m]@ != name@,
        decreases exclude@.len() - k,
    {
        if str_eq(exclude[k], name.as_str()) {
            return true;
        }
        k = k + 1;
    }
    false
}

pub(crate) fn str_eq(a: &str, b: &str) -> (r: bool)
    ensures
        r == (a@ == b@),
{
    let n = a.unicode_len();
    if n != b.unicode_len() {
        return false;
    }
    let mut i: usize = 0;
    while i < n
        invariant
            n == a@.len() == b@.len(),
            i <= n,
            forall|k: int| 0 <= k < i ==> a@[k] == b@[k],
        decreases n - i,
    {
        if a.get_char(i) != b.get_char(i) {
            return false;
        }
        i = i + 1;
    }
    proof {
        assert(a@ =~= b@);
    }
    true
}

proof fn lemma_suggestion_total(a: (Seq<char>, Seq<char>, int), b: (Seq<char>, Seq<char>, int))
    ensures
        suggestion_before(a, b) || suggestion_before(b, a),
{
    lemma_lex_total(a.0, b.0);
}

proof fn lemma_suggestion_trans(a: (Seq<char>, Seq<char>, int), b: (Seq<char>, Seq<char>, int), c: (Seq<char>, Seq<char>, int))
    requires
        suggestion_before(a, b),
        suggestion_before(b, c),
    ensures
        suggestion_before(a, c),
{
    if a.2 == b.2 && b.2 == c.2 {
        lemma_lex_trans(a.0, b.0, c.0);
    }
}

/// Insert `x` after every entry that ranks before it (keeps the list ranked).
fn insert_suggestion(v: &mut Vec<AutocompleteMatch>, x: AutocompleteMatch)
    requires
        suggestions_ranked(match_views(old(v)@)),
    ensures
        suggestions_ranked(match_views(final(v)@)),
        match_views(final(v)@).to_multiset() == match_views(old(v)@).to_multiset().insert(match_view(x)),
{
    let ghost before = v@;
    let ghost mx = match_view(x);
    let mut pos: usize = 0;
    while pos < v.len() && (v[pos].score > x.score || (v[pos].score == x.score && !str_lt(
        x.name.as_str(),
        v[pos].name.as_str(),
    )))
        invariant
            v@ == before,
            mx == match_view(x),
            pos <= v@.len(),
            forall|k: int| 0 <= k < pos ==> suggestion_before(#[trigger] match_views(v@)[k], mx),
        decreases v@.len() - pos,
    {
        proof {
            assert(match_views(v@)[pos as int] == match_view(v@[pos as int]));
        }
        pos = pos + 1;
    }
    v.insert(pos, x);
    proof {
        broadcast use vstd::seq_lib::group_seq_properties;
        broadcast use vstd::multiset::group_multiset_axioms;

        let mb = match_views(before);
        let mv = match_views(v@);
        assert(mv =~= mb.insert(pos as int, mx));
        if pos < before.len() {
            assert(mb[pos as int] == match_view(before[pos as int]));
            lemma_suggestion_total(mb[pos as int], mx);
        }
        assert forall|k: int| pos <= k < mb.len() implies suggestion_before(mx, #[trigger] mb[k]) by {
            lemma_suggestion_total(mb[pos as int], mx);
            if k > pos {
                lemma_suggestion_trans(mx, mb[pos as int], mb[k]);
            }
        }
        assert forall|a: int, b: int| 0 <= a < b < mv.len() implies suggestion_before(#[trigger] mv[a], #[trigger] mv[b]) by {
            if b < pos {
                assert(mv[a] == mb[a] && mv[b] == mb[b]);
            } else if b == pos {
                assert(mv[a] == mb[a]);
            } else if a < pos {
                assert(mv[a] == mb[a] && mv[b] == mb[b - 1]);
                lemma_suggestion_trans(mb[a], mx, mb[b - 1]);
            } else if a == pos {
                assert(mv[b] == mb[b - 1]);
            } else {
                assert(mv[a] == mb[a - 1] && mv[b] == mb[b - 1]);
            }
        }
        assert(mb.insert(pos as int, mx) =~= mb.take(pos as int).push(mx) + mb.skip(pos as int));
        assert(mb =~= mb.take(pos as int) + mb.skip(pos as int));
    }
}

/// Parameters whose names fuzzy-match `query` (live ones not in `exclude_names`), best score
/// first and then by name, at most [`AUTOCOMPLETE_MAX`] of them; none for an empty query.
pub fn parameter_autocomplete_candidates(doc: &Document, query: &str, exclude_names: &[&str]) -> (r: Vec<AutocompleteMatch>)
    requires
        query_fits(query@),
    ensures
        query@.len() == 0 ==> r@.len() == 0,
        query@.len() > 0 ==> exists|all: Seq<(Seq<char>, Seq<char>, int)>|
            #![trigger all.to_multiset()]
            all.to_multiset() == suggestion_candidates(*doc, query@, exclude_names@, doc.parameters@.len() as int).to_multiset()
                && suggestions_ranked(all) && match_views(r@) == all.take(
                if all.len() < AUTOCOMPLETE_MAX {
                    all.len() as int
                } else {
                    AUTOCOMPLETE_MAX as int
                },
            ),
{
    let mut matches: Vec<AutocompleteMatch> = Vec::new();
    if query.unicode_len() == 0 {
        return matches;
    }
    let mut j: usize = 0;
    proof {
        assert(match_views(matches@) =~= Seq::<(Seq<char>, Seq<char>, int)>::empty());
    }
    while j < doc.parameters.len()
        invariant
            j <= doc.parameters@.len(),
            query_fits(query@),
            suggestions_ranked(match_views(matches@)),
            match_views(matches@).to_multiset() == suggestion_candidates(*doc, query@, exclude_names@, j as int).to_multiset(),
        decreases doc.parameters@.len() - j,
    {
        let param = &doc.parameters[j];
        let ghost prev = suggestion_candidates(*doc, query@, exclude_names@, j as int);
        proof {
            assert(doc.parameters@[j as int] == *param);
        }
        if !param.deleted && !name_in(exclude_names, &param.name) {
            match fuzzy_score(query, param.name.as_str()) {
                Some(score) => {
                    let m = AutocompleteMatch {
                        name: param.name.clone(),
                        value: param.expression.clone(),
                        score,
                    };
                    proof {
                        assert(match_view(m) == (param.name@, param.expression@, score as int));
                    }
                    insert_suggestion(&mut matches, m);
                    proof {
                        broadcast use vstd::seq_lib::group_seq_properties;
                        assert(suggestion_candidates(*doc, query@, exclude_names@, j + 1) == prev.push(
                            (param.name@, param.expression@, score as int),
                        ));
                    }
                },
                None => {},
            }
        }
        j = j + 1;
    }
    let ghost all = match_views(matches@);
    matches.truncate(AUTOCOMPLETE_MAX);
    proof {
        assert(match_views(matches@) =~= all.take(
            if all.len() < AUTOCOMPLETE_MAX {
                all.len() as int
            } else {
                AUTOCOMPLETE_MAX as int
            },
        ));
    }
    matches
}


/// `s` from position `i` on with every reference to the name `old_name` replaced by `new_name`; words
/// that follow a number (units) and other names are kept as they are.
pub open spec fn renamed_from(s: Seq<char>, i: int, old_name: Seq<char>, new_name: Seq<char>) -> Seq<char>
    decreases s.len() - i,
{
    if i < 0 || i >= s.len() {
        Seq::empty()
    } else if is_identifier_part(s[i]) {
        let e = run_end(s, i);
        proof {
            lemma_run_end_bounds(s, i + 1);
        }
        let word = s.subrange(i, e);
        let rest = renamed_from(s, e, old_name, new_name);
        if is_identifier_start(s[i]) && !follows_number(s, i) && word == old_name {
            new_name + rest
        } else {
            word + rest
        }
    } else {
        seq![s[i]] + renamed_from(s, i + 1, old_name, new_name)
    }
}

/// `expression` with every reference to parameter `old_name` renamed to `new_name`.
pub fn substitute_parameter_name(expression: &str, old_name: &str, new_name: &str) -> (r: String)
    ensures
        r@ == renamed_from(expression@, 0, old_name@, new_name@),
{
    let chars = chars_of(expression);
    let old_s = string_of(old_name);
    let mut out = String::new();
    let mut i: usize = 0;
    proof {
        assert(out@ + renamed_from(chars@, 0, old_name@, new_name@) =~= renamed_from(chars@, 0, old_name@, new_name@));
    }
    while i < chars.len()
        invariant
            chars@ == expression@,
            old_s@ == old_name@,
            i <= chars@.len(),
            out@ + renamed_from(chars@, i as int, old_name@, new_name@) == renamed_from(chars@, 0, old_name@, new_name@),
        decreases chars@.len() - i,
    {
        let ghost before = out@;
        if identifier_part(chars[i]) {
            let mut e = i + 1;
            while e < chars.len() && identifier_part(chars[e])
                invariant
                    i < e <= chars@.len(),
                    run_end(chars@, e as int) == run_end(chars@, i as int),
                decreases chars@.len() - e,
            {
                e = e + 1;
            }
            proof {
                lemma_run_end_bounds(chars@, i + 1);
            }
            let word = string_from_range(&chars, i, e);
            if identifier_start(chars[i]) && !word_follows_number(&chars, i) && word == old_s {
                push_str(&mut out, new_name);
                proof {
                    assert(out@ + renamed_from(chars@, e as int, old_name@, new_name@) =~= before + (new_name@
                        + renamed_from(chars@, e as int, old_name@, new_name@)));
                }
            } else {
                push_str(&mut out, word.as_str());
                proof {
                    assert(out@ + renamed_from(chars@, e as int, old_name@, new_name@) =~= before + (word@
                        + renamed_from(chars@, e as int, old_name@, new_name@)));
                }
            }
            i = e;
        } else {
            push_char(&mut out, chars[i]);
            proof {
                assert(out@ + renamed_from(chars@, i + 1, old_name@, new_name@) =~= before + (seq![chars@[i as int]]
                    + renamed_from(chars@, i + 1, old_name@, new_name@)));
            }
            i = i + 1;
        }
    }
    proof {
        assert(out@ + renamed_from(chars@, i as int, old_name@, new_name@) =~= out@);
    }
    out
}


proof fn lemma_rename_keeps_suffix(s: Seq<char>, i: int, old_name: Seq<char>, new_name: Seq<char>)
    requires
        0 <= i <= s.len(),
        old_name == new_name || !variable_refs_from(s, i).contains(old_name),
    ensures
        renamed_from(s, i, old_name, new_name) == s.subrange(i, s.len() as int),
    decreases s.len() - i,
{
    if i < s.len() {
        if is_identifier_part(s[i]) {
            let e = run_end(s, i);
            lemma_run_end_bounds(s, i + 1);
            let word = s.subrange(i, e);
            if is_identifier_start(s[i]) && !follows_number(s, i) {
                assert(variable_refs_from(s, i) == seq![word] + variable_refs_from(s, e));
                assert((seq![word] + variable_refs_from(s, e))[0] == word);
                if !variable_refs_from(s, e).contains(old_name) {
                } else {
                    let k = choose|k: int| 0 <= k < variable_refs_from(s, e).len() && variable_refs_from(s, e)[k] == old_name;
                    assert((seq![word] + variable_refs_from(s, e))[k + 1] == old_name);
                }
            }
            lemma_rename_keeps_suffix(s, e, old_name, new_name);
            assert(word + s.subrange(e, s.len() as int) =~= s.subrange(i, s.len() as int));
        } else {
            lemma_rename_keeps_suffix(s, i + 1, old_name, new_name);
            assert(seq![s[i]] + s.subrange(i + 1, s.len() as int) =~= s.subrange(i, s.len() as int));
        }
    } else {
        assert(s.subrange(i, s.len() as int) =~= Seq::<char>::empty());
    }
}

/// Renaming a parameter that an expression does not mention leaves the expression as it was,
/// and so does renaming a name to itself.
pub proof fn law_rename_without_reference_keeps_expression(s: Seq<char>, old_name: Seq<char>, new_name: Seq<char>)
    requires
        old_name == new_name || !variable_refs(s).contains(old_name),
    ensures
        renamed_from(s, 0, old_name, new_name) == s,
{
    lemma_rename_keeps_suffix(s, 0, old_name, new_name);
    assert(s.subrange(0, s.len() as int) =~= s);
}


proof fn lemma_prev_nonspace_prefix(a: Seq<char>, b: Seq<char>, i: int)
    requires
        0 <= i <= a.len(),
    ensures
        prev_nonspace(a + b, i) == prev_nonspace(a, i),
    decreases i,
{
    if i > 0 {
        assert((a + b)[i - 1] == a[i - 1]);
        lemma_prev_nonspace_prefix(a, b, i - 1);
    }
}

proof fn lemma_prev_nonspace_shift(a: Seq<char>, b: Seq<char>, k: int)
    requires
        1 <= k <= b.len(),
        !is_ws(b[0]),
    ensures
        prev_nonspace(a + b, a.len() + k) == prev_nonspace(b, k),
    decreases k,
{
    assert((a + b)[a.len() + k - 1] == b[k - 1]);
    if k > 1 {
        lemma_prev_nonspace_shift(a, b, k - 1);
    }
}

proof fn lemma_run_end_prefix(a: Seq<char>, b: Seq<char>, i: int)
    requires
        0 <= i <= a.len(),
        b.len() > 0,
        !is_identifier_part(b[0]),
    ensures
        run_end(a + b, i) == run_end(a, i),
    decreases a.len() - i,
{
    if i < a.len() {
        assert((a + b)[i] == a[i]);
        lemma_run_end_prefix(a, b, i + 1);
    } else {
        assert((a + b)[i] == b[0]);
    }
}

proof fn lemma_run_end_shift(a: Seq<char>, b: Seq<char>, k: int)
    requires
        0 <= k <= b.len(),
    ensures
        run_end(a + b, a.len() + k) == a.len() + run_end(b, k),
    decreases b.len() - k,
{
    if k < b.len() {
        assert((a + b)[a.len() + k] == b[k]);
        lemma_run_end_shift(a, b, k + 1);
    }
}

proof fn lemma_renamed_shift(a: Seq<char>, b: Seq<char>, k: int, old_name: Seq<char>, new_name: Seq<char>)
    requires
        0 <= k <= b.len(),
        b.len() > 0,
        !is_identifier_part(b[0]),
        !is_ws(b[0]),
    ensures
        renamed_from(a + b, a.len() + k, old_name, new_name) == renamed_from(b, k, old_name, new_name),
    decreases b.len() - k,
{
    let s = a + b;
    let i = a.len() + k;
    if k < b.len() {
        assert(s[i] == b[k]);
        if is_identifier_part(b[k]) {
            assert(k >= 1);
            lemma_run_end_shift(a, b, k);
            lemma_run_end_bounds(b, k);
            lemma_run_end_bounds(b, k + 1);
            let e = run_end(b, k);
            lemma_prev_nonspace_shift(a, b, k);
            assert(s.subrange(i, a.len() + e) =~= b.subrange(k, e));
            lemma_renamed_shift(a, b, e, old_name, new_name);
        } else {
            lemma_renamed_shift(a, b, k + 1, old_name, new_name);
        }
    }
}

proof fn lemma_renamed_prefix(a: Seq<char>, b: Seq<char>, i: int, old_name: Seq<char>, new_name: Seq<char>)
    requires
        0 <= i <= a.len(),
        b.len() > 0,
        !is_identifier_part(b[0]),
    ensures
        renamed_from(a + b, i, old_name, new_name) == renamed_from(a, i, old_name, new_name) + renamed_from(
            a + b,
            a.len() as int,
            old_name,
            new_name,
        ),
    decreases a.len() - i,
{
    let s = a + b;
    if i < a.len() {
        assert(s[i] == a[i]);
        if is_identifier_part(a[i]) {
            lemma_run_end_prefix(a, b, i);
            lemma_run_end_bounds(a, i);
            lemma_run_end_bounds(a, i + 1);
            let e = run_end(a, i);
            lemma_prev_nonspace_prefix(a, b, i);
            assert(s.subrange(i, e) =~= a.subrange(i, e));
            lemma_renamed_prefix(a, b, e, old_name, new_name);
            let w = if is_identifier_start(a[i]) && !follows_number(a, i) && a.subrange(i, e) == old_name {
                new_name
            } else {
                a.subrange(i, e)
            };
            assert(w + (renamed_from(a, e, old_name, new_name) + renamed_from(s, a.len() as int, old_name, new_name))
                =~= (w + renamed_from(a, e, old_name, new_name)) + renamed_from(s, a.len() as int, old_name, new_name));
        } else {
            lemma_renamed_prefix(a, b, i + 1, old_name, new_name);
            assert(seq![a[i]] + (renamed_from(a, i + 1, old_name, new_name) + renamed_from(s, a.len() as int, old_name, new_name))
                =~= (seq![a[i]] + renamed_from(a, i + 1, old_name, new_name)) + renamed_from(s, a.len() as int, old_name, new_name));
        }
    } else {
        assert(renamed_from(a, i, old_name, new_name) =~= Seq::<char>::empty());
        assert(Seq::<char>::empty() + renamed_from(s, i, old_name, new_name) =~= renamed_from(s, i, old_name, new_name));
    }
}

/// Renaming goes through an expression piece by piece: cut before an operator or other
/// character that is neither part of a name nor a space, renaming the whole is renaming each
/// piece and joining the results. So every reference is renamed, not only the first.
pub proof fn law_rename_piecewise(a: Seq<char>, b: Seq<char>, old_name: Seq<char>, new_name: Seq<char>)
    requires
        b.len() > 0,
        !is_identifier_part(b[0]),
        !is_ws(b[0]),
    ensures
        renamed_from(a + b, 0, old_name, new_name) == renamed_from(a, 0, old_name, new_name) + renamed_from(
            b,
            0,
            old_name,
            new_name,
        ),
{
    lemma_renamed_prefix(a, b, 0, old_name, new_name);
    lemma_renamed_shift(a, b, 0, old_name, new_name);
}

proof fn lemma_run_end_whole(s: Seq<char>, i: int)
    requires
        0 <= i <= s.len(),
        forall|k: int| 0 <= k < s.len() ==> is_identifier_part(#[trigger] s[k]),
    ensures
        run_end(s, i) == s.len(),
    decreases s.len() - i,
{
    if i < s.len() {
        lemma_run_end_whole(s, i + 1);
    }
}

/// An expression that is just a reference to the renamed name becomes the new name.
pub proof fn law_rename_whole_reference(old_name: Seq<char>, new_name: Seq<char>)
    requires
        old_name.len() > 0,
        is_identifier_start(old_name[0]),
        forall|k: int| 0 <= k < old_name.len() ==> is_identifier_part(#[trigger] old_name[k]),
    ensures
        renamed_from(old_name, 0, old_name, new_name) == new_name,
{
    lemma_run_end_whole(old_name, 0);
    assert(old_name.subrange(0, old_name.len() as int) =~= old_name);
    assert(renamed_from(old_name, old_name.len() as int, old_name, new_name) =~= Seq::<char>::empty());
    assert(new_name + Seq::<char>::empty() =~= new_name);
}

/// `text` with its characters `a..b` replaced by `name`.
pub open spec fn completed_text(text: Seq<char>, a: int, b: int, name: Seq<char>) -> Seq<char> {
    text.subrange(0, a) + name + text.subrange(b, text.len() as int)
}

/// Replace the characters `token.0..token.1` of `text` by `name`; returns the cursor position
/// just after the inserted name.
pub fn apply_parameter_completion(text: &mut String, token: (usize, usize), name: &str) -> (cursor: usize)
    requires
        token.0 <= token.1 <= old(text)@.len(),
    ensures
        final(text)@ == completed_text(old(text)@, token.0 as int, token.1 as int, name@),
        cursor == token.0 + name@.len(),
{
    let chars = chars_of(text.as_str());
    let mut out = string_from_range(&chars, 0, token.0);
    push_str(&mut out, name);
    let cursor = out.as_str().unicode_len();
    let tail = string_from_range(&chars, token.1, chars.len());
    push_str(&mut out, tail.as_str());
    *text = out;
    cursor
}

/// The keys pressed this frame that the completion list reacts to.
#[derive(Clone, Copy, Debug, PartialEq, Eq, Structural)]
pub struct AutocompleteKeys {
    pub up: bool,
    pub down: bool,
    pub space: bool,
    pub tab: bool,
    pub enter: bool,
}

/// A key the completion list takes for itself, so the text field does not see it.
#[derive(Clone, Copy, Debug, PartialEq, Eq, Structural)]
pub enum CompletionKey {
    ArrowUp,
    ArrowDown,
    Space,
    Tab,
}

/// The completion list of one expression field: the highlighted candidate and the query it
/// was highlighted for.
#[derive(Clone, Debug)]
pub struct AutocompleteUiState {
    pub highlight: usize,
    pub last_query: String,
}

impl Default for AutocompleteUiState {
    fn default() -> (r: AutocompleteUiState)
        ensures
            r.highlight == 0,
            r.last_query@ == Seq::<char>::empty(),
    {
        AutocompleteUiState { highlight: 0, last_query: String::new() }
    }
}

/// The highlight shown for `query` among `count` candidates: reset to the top when the query
/// changed, kept on the list otherwise.
pub open spec fn shown_highlight(highlight: usize, last_query: Seq<char>, query: Seq<char>, count: nat) -> int {
    let h = if last_query == query {
        highlight as int
    } else {
        0
    };
    if h < count - 1 {
        h
    } else {
        count - 1
    }
}

/// One frame of key handling with highlight `h` among `count` candidates: the new highlight,
/// the candidate accepted, and the key taken from the text field. Up and Down move the
/// highlight; Space and Tab accept and are taken; Enter accepts and is left to the field, so
/// that it still commits the completed expression.
pub open spec fn spec_key_step(h: int, count: nat, keys: AutocompleteKeys) -> (int, Option<int>, Option<CompletionKey>) {
    if keys.up {
        (if h > 0 { h - 1 } else { 0 }, None, Some(CompletionKey::ArrowUp))
    } else if keys.down {
        (if h + 1 < count - 1 { h + 1 } else { count - 1 }, None, Some(CompletionKey::ArrowDown))
    } else if keys.space || keys.tab {
        (h, Some(h), Some(if keys.space { CompletionKey::Space } else { CompletionKey::Tab }))
    } else if keys.enter {
        (h, Some(h), None)
    } else {
        (h, None, None)
    }
}

/// Update the completion list of a field showing `count` (at least one) candidates for
/// `query` on this frame's keys; returns the accepted candidate's position and the key to take
/// from the text field.
pub fn autocomplete_key_step(
    state: &mut AutocompleteUiState,
    query: &str,
    count: usize,
    keys: AutocompleteKeys,
) -> (r: (Option<usize>, Option<CompletionKey>))
    requires
        count > 0,
    ensures
        ({
            let h = shown_highlight(old(state).highlight, old(state).last_query@, query@, count as nat);
            let step = spec_key_step(h, count as nat, keys);
            &&& final(state).highlight == step.0
            &&& final(state).last_query@ == query@
            &&& r.0 == (match step.1 {
                Some(k) => Some(k as usize),
                None => None,
            })
            &&& r.1 == step.2
        }),
{
    if !str_eq(state.last_query.as_str(), query) {
        state.highlight = 0;
        state.last_query = string_of(query);
    }
    if state.highlight > count - 1 {
        state.highlight = count - 1;
    }
    let h = state.highlight;
    if keys.up {
        state.highlight = if h > 0 { h - 1 } else { 0 };
        (None, Some(CompletionKey::ArrowUp))
    } else if keys.down {
        state.highlight = if h + 1 < count - 1 { h + 1 } else { count - 1 };
        (None, Some(CompletionKey::ArrowDown))
    } else if keys.space || keys.tab {
        (Some(h), Some(if keys.space { CompletionKey::Space } else { CompletionKey::Tab }))
    } else if keys.enter {
        (Some(h), None)
    } else {
        (None, None)
    }
}

/// What one frame of completion key handling did to a field.
#[derive(Clone, Copy, Debug, PartialEq, Eq, Structural)]
pub struct AutocompleteOutcome {
    /// A candidate was inserted into the text.
    pub changed: bool,
    /// The key to take from the text field, if any.
    pub consume: Option<CompletionKey>,
    /// The cursor position after an inserted candidate.
    pub cursor: Option<usize>,
}

/// Nothing happened.
pub open spec fn no_completion() -> AutocompleteOutcome {
    AutocompleteOutcome { changed: false, consume: None, cursor: None }
}

/// Handle the completion keys of an expression field holding `text` with the cursor at
/// character `cursor`: when the cursor is on an identifier that names live parameters, move
/// the highlight or insert the highlighted parameter name in place of the identifier.
pub fn expression_autocomplete_handle_keys(
    doc: &Document,
    text: &mut String,
    cursor: usize,
    exclude_names: &[&str],
    state: &mut AutocompleteUiState,
    keys: AutocompleteKeys,
) -> (r: AutocompleteOutcome)
    requires
        query_fits(old(text)@),
    ensures
        match spec_identifier_token_at_cursor(old(text)@, cursor as int) {
            None => {
                &&& r == no_completion()
                &&& final(text)@ == old(text)@
                &&& *final(state) == *old(state)
            },
            Some((a, b)) => {
                let q = old(text)@.subrange(a, b);
                let eligible = suggestion_candidates(*doc, q, exclude_names@, doc.parameters@.len() as int);
                let count = if eligible.len() < AUTOCOMPLETE_MAX { eligible.len() } else { AUTOCOMPLETE_MAX as nat };
                let h = shown_highlight(old(state).highlight, old(state).last_query@, q, count);
                let step = spec_key_step(h, count, keys);
                if eligible.len() == 0 {
                    &&& r == no_completion()
                    &&& final(text)@ == old(text)@
                    &&& *final(state) == *old(state)
                } else {
                    &&& final(state).highlight == step.0
                    &&& final(state).last_query@ == q
                    &&& r.consume == step.2
                    &&& r.changed == step.1 is Some
                    &&& match step.1 {
                        None => final(text)@ == old(text)@ && r.cursor is None,
                        Some(k) => exists|all: Seq<(Seq<char>, Seq<char>, int)>|
                            #![trigger all.to_multiset()]
                            all.to_multiset() == eligible.to_multiset() && suggestions_ranked(all)
                                && final(text)@ == completed_text(old(text)@, a, b, all[k].0)
                                && r.cursor == Some((a + all[k].0.len()) as usize),
                    }
                }
            },
        },
{
    let token = match identifier_token_at_cursor(text.as_str(), cursor) {
        Some(t) => t,
        None => {
            return AutocompleteOutcome { changed: false, consume: None, cursor: None };
        },
    };
    proof {
        let t = text@;
        if t.len() > 0 {
            let c = if cursor < t.len() { cursor as int } else { t.len() as int };
            lemma_run_start_bounds(t, c);
            lemma_run_end_bounds(t, c);
        }
        let (a, b) = spec_identifier_token_at_cursor(t, cursor as int)->Some_0;
        assert(a == token.0 as int && b == token.1 as int);
    }
    let chars = chars_of(text.as_str());
    let query = string_from_range(&chars, token.0, token.1);
    let candidates = parameter_autocomplete_candidates(doc, query.as_str(), exclude_names);
    let ghost eligible = suggestion_candidates(*doc, query@, exclude_names@, doc.parameters@.len() as int);
    proof {
        let all = choose|all: Seq<(Seq<char>, Seq<char>, int)>|
            #![trigger all.to_multiset()]
            all.to_multiset() == eligible.to_multiset() && suggestions_ranked(all) && match_views(candidates@) == all.take(
                if all.len() < AUTOCOMPLETE_MAX {
                    all.len() as int
                } else {
                    AUTOCOMPLETE_MAX as int
                },
            );
        all.to_multiset_ensures();
        eligible.to_multiset_ensures();
        assert(all.len() == eligible.len());
        assert(match_views(candidates@).len() == candidates@.len());
        assert(candidates@.len() == (if eligible.len() < AUTOCOMPLETE_MAX { eligible.len() } else { AUTOCOMPLETE_MAX as nat }));
        assert(query@ == text@.subrange(token.0 as int, token.1 as int));
    }
    if candidates.len() == 0 {
        return AutocompleteOutcome { changed: false, consume: None, cursor: None };
    }
    let (accept, consume) = autocomplete_key_step(state, query.as_str(), candidates.len(), keys);
    match accept {
        None => AutocompleteOutcome { changed: false, consume, cursor: None },
        Some(k) => {
            proof {
                assert(match_views(candidates@)[k as int] == match_view(candidates@[k as int]));
            }
            let name = candidates[k].name.clone();
            let new_cursor = apply_parameter_completion(text, token, name.as_str());
            AutocompleteOutcome { changed: true, consume, cursor: Some(new_cursor) }
        },
    }
}

} // verus!
