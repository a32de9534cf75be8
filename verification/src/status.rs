//! Status lines that report placeholders the active environment does not define.
use vstd::prelude::*;

use crate::env::{
    Environment, env_lookup, lemma_lex_lt_asymmetric, lemma_lex_lt_total, lemma_lex_lt_transitive,
    lex_less, lex_lt, lemma_lex_lt_irreflexive,
};
use crate::model::{DraftView, RequestDraft};
use crate::text::{
    chars_of, find_from, find_sub_from, join, join_chars, lemma_find_from, push_chars, push_str,
    slice_range, string_of, trim, trimmed, views,
};

verus! {

pub open spec fn open_braces() -> Seq<char> {
    seq!['{', '{']
}

pub open spec fn close_braces() -> Seq<char> {
    seq!['}', '}']
}

/// The trimmed, non-empty names between `{{` and the next `}}`, scanning from `start`.
pub open spec fn placeholders_from(s: Seq<char>, start: int) -> Seq<Seq<char>>
    decreases s.len() + 1 - start,
{
    if start < 0 {
        Seq::empty()
    } else {
        let open = find_from(s, open_braces(), start);
        if open < 0 {
            Seq::empty()
        } else {
            let close = find_from(s, close_braces(), open + 2);
            if close < 0 {
                Seq::empty()
            } else {
                proof {
                    lemma_find_from(s, open_braces(), start);
                    lemma_find_from(s, close_braces(), open + 2);
                }
                let name = trim(s.subrange(open + 2, close));
                (if name.len() > 0 {
                    seq![name]
                } else {
                    Seq::empty()
                }) + placeholders_from(s, close + 2)
            }
        }
    }
}

/// The placeholder names in a text, in order of appearance.
pub open spec fn placeholders(s: Seq<char>) -> Seq<Seq<char>> {
    placeholders_from(s, 0)
}

/// The placeholder names of a text, in order of appearance.
pub fn collect_placeholders(input: &str) -> (names: Vec<Vec<char>>)
    ensures
        views(names@) == placeholders(input@),
{
    let v = chars_of(input);
    let open: [char; 2] = ['{', '{'];
    let close: [char; 2] = ['}', '}'];
    assert(open@ =~= open_braces());
    assert(close@ =~= close_braces());
    let mut names: Vec<Vec<char>> = Vec::new();
    let mut search_start: usize = 0;
    loop
        invariant
            search_start <= v@.len() + 2,
            v@ == input@,
            open@ == open_braces(),
            close@ == close_braces(),
            placeholders(input@) == views(names@) + placeholders_from(input@, search_start as int),
        decreases v@.len() + 2 - search_start,
    {
        if search_start > v.len() {
            assert(find_from(v@, open_braces(), search_start as int) == -1);
            assert(views(names@) + Seq::<Seq<char>>::empty() =~= views(names@));
            return names;
        }
        proof {
            lemma_find_from(v@, open_braces(), search_start as int);
        }
        match find_sub_from(&v, &open, search_start) {
            None => {
                assert(views(names@) + Seq::<Seq<char>>::empty() =~= views(names@));
                return names;
            },
            Some(o) => {
                proof {
                    lemma_find_from(v@, close_braces(), o + 2);
                }
                match find_sub_from(&v, &close, o + 2) {
                    None => {
                        assert(views(names@) + Seq::<Seq<char>>::empty() =~= views(names@));
                        return names;
                    },
                    Some(c) => {
                        let inner = slice_range(&v, o + 2, c);
                        let name = trimmed(&inner);
                        let ghost before = views(names@);
                        if name.len() > 0 {
                            names.push(name);
                            assert(views(names@) =~= before + seq![trim(v@.subrange(o + 2, c as int))]);
                        } else {
                            assert(views(names@) =~= before + Seq::<Seq<char>>::empty());
                        }
                        search_start = c + 2;
                    },
                }
            },
        }
    }
}

/// Strictly increasing names.
pub open spec fn strictly_sorted(s: Seq<Seq<char>>) -> bool {
    forall|i: int, j: int| 0 <= i < j < s.len() ==> lex_lt(#[trigger] s[i], #[trigger] s[j])
}

/// The placeholders of a draft's URL, headers and body and of extra inputs.
pub open spec fn draft_placeholders(d: DraftView, extra: Seq<Seq<char>>) -> Set<Seq<char>> {
    placeholders(d.url).to_set() + placeholders(d.headers).to_set() + placeholders(d.body).to_set()
        + Set::new(|n: Seq<char>| exists|i: int| 0 <= i < extra.len() && placeholders(extra[i]).contains(n))
}

/// A placeholder is missing when there is no environment or it does not define it.
pub open spec fn is_missing(n: Seq<char>, env: Option<Seq<(Seq<char>, Seq<char>)>>) -> bool {
    match env {
        None => true,
        Some(vars) => env_lookup(vars, n) is None,
    }
}

/// Inserts `name` into a strictly sorted list unless it is already there.
pub(crate) fn insert_sorted_unique(names: &mut Vec<Vec<char>>, name: Vec<char>)
    requires
        strictly_sorted(views(old(names)@)),
    ensures
        strictly_sorted(views(final(names)@)),
        views(final(names)@).to_set() == views(old(names)@).to_set().insert(name@),
{
    let ghost old_v = views(names@);
    let mut p: usize = 0;
    while p < names.len() && lex_less(&names[p], &name)
        invariant
            p <= names@.len(),
            views(names@) == old_v,
            forall|j: int| 0 <= j < p ==> lex_lt(#[trigger] old_v[j], name@),
        decreases names.len() - p,
    {
        p = p + 1;
    }
    if p < names.len() && crate::text::seq_eq(&names[p], &name) {
        assert(old_v.to_set().insert(name@) =~= old_v.to_set()) by {
            assert(old_v[p as int] == name@);
        }
        return;
    }
    let ghost nv = name@;
    if p < names.len() {
        proof {
            lemma_lex_lt_total(old_v[p as int], nv);
        }
    }
    names.insert(p, name);
    proof {
        let nw = views(names@);
        assert(nw =~= old_v.insert(p as int, nv));
        assert forall|i: int, j: int| 0 <= i < j < nw.len() implies lex_lt(
            #[trigger] nw[i],
            #[trigger] nw[j],
        ) by {
            if j < p {
            } else if j == p {
            } else if i == p {
                if j - 1 > p {
                    lemma_lex_lt_transitive(nv, old_v[p as int], old_v[j - 1]);
                }
            } else if i < p {
                lemma_lex_lt_transitive(old_v[i], nv, old_v[p as int]);
                if j - 1 > p {
                    lemma_lex_lt_transitive(old_v[i], old_v[p as int], old_v[j - 1]);
                }
            } else {
            }
        }
        assert(nw.to_set() =~= old_v.to_set().insert(nv)) by {
            assert forall|x: Seq<char>| nw.to_set().contains(x) <==> old_v.to_set().insert(nv).contains(x) by {
                if nw.to_set().contains(x) {
                    let k = choose|k: int| 0 <= k < nw.len() && nw[k] == x;
                    if k < p {
                        assert(old_v[k] == x);
                    } else if k > p {
                        assert(old_v[k - 1] == x);
                    }
                }
                if old_v.to_set().contains(x) {
                    let k = choose|k: int| 0 <= k < old_v.len() && old_v[k] == x;
                    if k < p {
                        assert(nw[k] == x);
                    } else {
                        assert(nw[k + 1] == x);
                    }
                }
                if x == nv {
                    assert(nw[p as int] == x);
                }
            }
        }
    }
}

} // verus!

verus! {

/// The variables of an optional environment.
pub open spec fn env_vars_of(env: Option<&Environment>) -> Option<Seq<(Seq<char>, Seq<char>)>> {
    match env {
        Some(e) => Some(e.vars@),
        None => None,
    }
}

/// Placeholders of a text that an environment does not define.
pub open spec fn missing_in(text: Seq<char>, env: Option<Seq<(Seq<char>, Seq<char>)>>) -> Set<Seq<char>> {
    placeholders(text).to_set().filter(|n: Seq<char>| is_missing(n, env))
}

fn missing_name(name: &Vec<char>, env: Option<&Environment>) -> (r: bool)
    ensures
        r == is_missing(name@, env_vars_of(env)),
{
    match env {
        None => true,
        Some(e) => {
            let s = string_of(name);
            !e.vars.contains_key(s.as_str())
        },
    }
}

/// Adds the missing placeholders of `text` to a sorted list of names.
fn add_missing(names: &mut Vec<Vec<char>>, text: &str, env: Option<&Environment>)
    requires
        strictly_sorted(views(old(names)@)),
    ensures
        strictly_sorted(views(final(names)@)),
        views(final(names)@).to_set() == views(old(names)@).to_set() + missing_in(
            text@,
            env_vars_of(env),
        ),
{
    let found = collect_placeholders(text);
    let ghost ph = views(found@);
    let ghost ev = env_vars_of(env);
    let mut i: usize = 0;
    while i < found.len()
        invariant
            i <= found@.len(),
            ph == views(found@),
            ph == placeholders(text@),
            ev == env_vars_of(env),
            strictly_sorted(views(names@)),
            views(names@).to_set() == views(old(names)@).to_set() + ph.take(i as int).to_set().filter(
                |n: Seq<char>| is_missing(n, ev),
            ),
        decreases found.len() - i,
    {
        let ghost before = views(names@).to_set();
        let n = slice_range(&found[i], 0, found[i].len());
        assert(n@ == ph[i as int]);
        if missing_name(&n, env) {
            insert_sorted_unique(names, n);
        }
        assert(ph.take(i + 1) =~= ph.take(i as int).push(ph[i as int]));
        proof {
            ph.take(i as int).lemma_push_to_set_commute(ph[i as int]);
        }
        assert(ph.take(i + 1).to_set().filter(|m: Seq<char>| is_missing(m, ev)) =~= ph.take(
            i as int,
        ).to_set().filter(|m: Seq<char>| is_missing(m, ev)) + (if is_missing(ph[i as int], ev) {
            set![ph[i as int]]
        } else {
            Set::empty()
        }));
        assert(views(names@).to_set() =~= views(old(names)@).to_set() + ph.take(i + 1).to_set().filter(
            |m: Seq<char>| is_missing(m, ev),
        ));
        i = i + 1;
    }
    assert(ph.take(ph.len() as int) =~= ph);
}

/// The placeholders of a draft (and of extra inputs) that the environment does not
/// define, without repeats, in ascending order.
pub open spec fn missing_vars_spec(
    d: DraftView,
    env: Option<Seq<(Seq<char>, Seq<char>)>>,
    extra: Seq<Seq<char>>,
) -> Set<Seq<char>> {
    draft_placeholders(d, extra).filter(|n: Seq<char>| is_missing(n, env))
}

pub open spec fn string_views(v: Seq<String>) -> Seq<Seq<char>> {
    v.map_values(|s: String| s@)
}

pub fn missing_env_vars(
    draft: &RequestDraft,
    env: Option<&Environment>,
    extra_inputs: &[String],
) -> (names: Vec<String>)
    ensures
        strictly_sorted(string_views(names@)),
        string_views(names@).to_set() == missing_vars_spec(
            draft@,
            env_vars_of(env),
            string_views(extra_inputs@),
        ),
{
    let ghost ev = env_vars_of(env);
    let mut names: Vec<Vec<char>> = Vec::new();
    add_missing(&mut names, draft.url.as_str(), env);
    add_missing(&mut names, draft.headers.as_str(), env);
    add_missing(&mut names, draft.body.as_str(), env);
    let ghost base = views(names@).to_set();
    let ghost extra = string_views(extra_inputs@);
    let mut i: usize = 0;
    while i < extra_inputs.len()
        invariant
            i <= extra_inputs@.len(),
            extra == string_views(extra_inputs@),
            ev == env_vars_of(env),
            strictly_sorted(views(names@)),
            views(names@).to_set() == base + Set::new(
                |n: Seq<char>|
                    exists|k: int| 0 <= k < i && placeholders(extra[k]).contains(n) && is_missing(n, ev),
            ),
        decreases extra_inputs.len() - i,
    {
        let ghost prev = views(names@).to_set();
        add_missing(&mut names, extra_inputs[i].as_str(), env);
        proof {
            assert(extra[i as int] == extra_inputs@[i as int]@);
            let s_old = Set::new(
                |n: Seq<char>|
                    exists|k: int| 0 <= k < i && placeholders(extra[k]).contains(n) && is_missing(n, ev),
            );
            let s_new = Set::new(
                |n: Seq<char>|
                    exists|k: int| 0 <= k < i + 1 && placeholders(extra[k]).contains(n) && is_missing(n, ev),
            );
            assert(prev == base + s_old);
            assert forall|n: Seq<char>| #[trigger] views(names@).to_set().contains(n) <==> (base + s_new).contains(n) by {
                if missing_in(extra[i as int], ev).contains(n) {
                    assert(placeholders(extra[i as int]).contains(n));
                    assert(s_new.contains(n));
                }
                if s_new.contains(n) {
                    let k = choose|k: int| 0 <= k < i + 1 && placeholders(extra[k]).contains(n) && is_missing(n, ev);
                    if k < i {
                        assert(s_old.contains(n));
                    } else {
                        assert(missing_in(extra[i as int], ev).contains(n));
                    }
                }
                if s_old.contains(n) {
                    let k = choose|k: int| 0 <= k < i && placeholders(extra[k]).contains(n) && is_missing(n, ev);
                    assert(s_new.contains(n));
                }
            }
            assert(views(names@).to_set() =~= base + s_new);
        }
        i = i + 1;
    }
    let mut out: Vec<String> = Vec::new();
    let mut j: usize = 0;
    while j < names.len()
        invariant
            j <= names@.len(),
            out@.len() == j,
            string_views(out@) == views(names@).take(j as int),
        decreases names.len() - j,
    {
        out.push(string_of(&names[j]));
        j = j + 1;
        assert(string_views(out@) =~= views(names@).take(j as int));
    }
    assert(views(names@).take(names@.len() as int) =~= views(names@));
    proof {
        let d = draft@;
        assert(string_views(out@).to_set() =~= missing_vars_spec(d, ev, extra)) by {
            assert forall|n: Seq<char>| string_views(out@).to_set().contains(n) <==> missing_vars_spec(d, ev, extra).contains(n) by {
                if placeholders(d.url).to_set().contains(n) && is_missing(n, ev) {
                    assert(missing_in(d.url, ev).contains(n));
                }
                if placeholders(d.headers).to_set().contains(n) && is_missing(n, ev) {
                    assert(missing_in(d.headers, ev).contains(n));
                }
                if placeholders(d.body).to_set().contains(n) && is_missing(n, ev) {
                    assert(missing_in(d.body, ev).contains(n));
                }
            }
        }
    }
    out
}

/// The status line: `base`, followed by the missing variables when there are any.
pub open spec fn status_line_spec(base: Seq<char>, env_name: Option<Seq<char>>, missing: Seq<Seq<char>>) -> Seq<char> {
    if missing.len() == 0 {
        base
    } else {
        base + " - Missing variables in "@ + (match env_name {
            Some(n) => n,
            None => "environment"@,
        }) + ": "@ + join(missing, ", "@)
    }
}

/// The status line for `base`, naming the variables of the draft that the environment
/// does not define.
pub fn status_with_missing(
    base: &str,
    draft: &RequestDraft,
    env: Option<&Environment>,
    extra_inputs: &[String],
) -> (line: String)
    ensures
        exists|missing: Seq<Seq<char>>|
            {
                &&& strictly_sorted(missing)
                &&& missing.to_set() == missing_vars_spec(
                    draft@,
                    env_vars_of(env),
                    string_views(extra_inputs@),
                )
                &&& line@ == status_line_spec(
                    base@,
                    match env {
                        Some(e) => Some(e.name@),
                        None => None,
                    },
                    missing,
                )
            },
{
    let missing = missing_env_vars(draft, env, extra_inputs);
    let ghost mv = string_views(missing@);
    if missing.len() == 0 {
        let line = String::from_str(base);
        assert(line@ == status_line_spec(
            base@,
            match env {
                Some(e) => Some(e.name@),
                None => None,
            },
            mv,
        ));
        return line;
    }
    let mut line = String::from_str(base);
    push_str(&mut line, " - Missing variables in ");
    match env {
        Some(e) => push_str(&mut line, e.name.as_str()),
        None => push_str(&mut line, "environment"),
    }
    push_str(&mut line, ": ");
    let mut parts: Vec<Vec<char>> = Vec::new();
    let mut i: usize = 0;
    while i < missing.len()
        invariant
            i <= missing@.len(),
            mv == string_views(missing@),
            parts@.len() == i,
            views(parts@) == mv.take(i as int),
        decreases missing.len() - i,
    {
        parts.push(chars_of(missing[i].as_str()));
        i = i + 1;
        assert(views(parts@) =~= mv.take(i as int));
    }
    assert(mv.take(mv.len() as int) =~= mv);
    let sep = chars_of(", ");
    let joined = join_chars(&parts, &sep);
    push_chars(&mut line, &joined);
    line
}


/// Two strictly increasing lists of names that hold the same names are the same list.
pub proof fn lemma_sorted_unique(a: Seq<Seq<char>>, b: Seq<Seq<char>>)
    requires
        strictly_sorted(a),
        strictly_sorted(b),
        a.to_set() == b.to_set(),
    ensures
        a == b,
    decreases a.len(),
{
    if a.len() == 0 {
        if b.len() > 0 {
            assert(b.to_set().contains(b[0]));
        }
        assert(a =~= b);
    } else if b.len() == 0 {
        assert(a.to_set().contains(a[0]));
    } else {
        assert(a.to_set().contains(a[0]));
        assert(b.to_set().contains(b[0]));
        let ia = choose|i: int| 0 <= i < a.len() && a[i] == b[0];
        let ib = choose|i: int| 0 <= i < b.len() && b[i] == a[0];
        if a[0] != b[0] {
            assert(ia > 0);
            assert(ib > 0);
            assert(lex_lt(a[0], a[ia]));
            assert(lex_lt(b[0], b[ib]));
            crate::env::lemma_lex_lt_asymmetric(a[0], b[0]);
        }
        let ta = a.drop_first();
        let tb = b.drop_first();
        assert forall|x: Seq<char>| ta.to_set().contains(x) <==> tb.to_set().contains(x) by {
            if ta.to_set().contains(x) {
                let k = choose|k: int| 0 <= k < ta.len() && ta[k] == x;
                assert(a[k + 1] == x);
                assert(lex_lt(a[0], a[k + 1]));
                crate::env::lemma_lex_lt_irreflexive(a[0]);
                assert(b.to_set().contains(x));
                let j = choose|j: int| 0 <= j < b.len() && b[j] == x;
                if j == 0 {
                    assert(x == a[0]);
                }
                assert(tb[j - 1] == x);
            }
            if tb.to_set().contains(x) {
                let k = choose|k: int| 0 <= k < tb.len() && tb[k] == x;
                assert(b[k + 1] == x);
                assert(lex_lt(b[0], b[k + 1]));
                crate::env::lemma_lex_lt_irreflexive(b[0]);
                assert(a.to_set().contains(x));
                let j = choose|j: int| 0 <= j < a.len() && a[j] == x;
                if j == 0 {
                    assert(x == b[0]);
                }
                assert(ta[j - 1] == x);
            }
        }
        assert(ta.to_set() =~= tb.to_set());
        lemma_sorted_unique(ta, tb);
        assert(a =~= seq![a[0]] + ta);
        assert(b =~= seq![b[0]] + tb);
    }
}

/// The missing variables of a draft, in ascending order.
pub open spec fn sorted_missing(d: DraftView, env: Option<Seq<(Seq<char>, Seq<char>)>>, extra: Seq<Seq<char>>) -> Seq<Seq<char>> {
    choose|m: Seq<Seq<char>>| strictly_sorted(m) && m.to_set() == missing_vars_spec(d, env, extra)
}

/// The status line for `base` and a draft: the missing variables listed after it.
pub open spec fn status_text(
    base: Seq<char>,
    d: DraftView,
    env: Option<Seq<(Seq<char>, Seq<char>)>>,
    env_name: Option<Seq<char>>,
    extra: Seq<Seq<char>>,
) -> Seq<char> {
    status_line_spec(base, env_name, sorted_missing(d, env, extra))
}

/// `status_with_missing`, as one value.
pub fn status_line(base: &str, draft: &RequestDraft, env: Option<&Environment>, extra_inputs: &[String]) -> (line: String)
    ensures
        line@ == status_text(
            base@,
            draft@,
            env_vars_of(env),
            match env {
                Some(e) => Some(e.name@),
                None => None,
            },
            string_views(extra_inputs@),
        ),
{
    let line = status_with_missing(base, draft, env, extra_inputs);
    proof {
        let m = choose|missing: Seq<Seq<char>>|
            {
                &&& strictly_sorted(missing)
                &&& missing.to_set() == missing_vars_spec(draft@, env_vars_of(env), string_views(extra_inputs@))
                &&& line@ == status_line_spec(
                    base@,
                    match env {
                        Some(e) => Some(e.name@),
                        None => None,
                    },
                    missing,
                )
            };
        let s = sorted_missing(draft@, env_vars_of(env), string_views(extra_inputs@));
        assert(strictly_sorted(s) && s.to_set() == missing_vars_spec(draft@, env_vars_of(env), string_views(extra_inputs@)));
        lemma_sorted_unique(m, s);
    }
    line
}

} // verus!
