//! The `.http` request collection format: blocks separated by `###` lines, each with a
//! request line, header lines, a blank line and a body.
use vstd::prelude::*;

use crate::env::{EnvVars, env_insert};
use crate::model::{
    DraftView, Method, RequestDraft, RequestId, RequestIdView, default_draft, draft_views,
    method_from_name, method_name,
};
use crate::paths::{
    extension, file_name, file_stem, join as join_path, path_extension, path_file_name,
    path_file_stem, path_join,
};
use crate::text::{
    append_chars, chars_of, eq_ignore_ascii_case, eq_ignore_case, lower_seq, decimal, decimal_string, has_prefix, is_ascii_alnum,
    is_ascii_alphanumeric, is_blank, is_whitespace, is_ws, join, join_chars, lines, lines_of,
    lower, push_chars, push_str, slice_range, split_once, split_once_char, starts_with,
    string_of, to_lower, trim, trim_bounds, trim_char, trim_end, trim_end_bound,
    trim_end_char, trim_end_matches, trim_matches, trim_start, trimmed, views,
};

verus! {

/// A line that separates requests: it starts with `###` after leading whitespace.
pub open spec fn is_separator_line(l: Seq<char>) -> bool {
    starts_with(trim_start(l), "###"@)
}

/// Lines grouped into finished blocks and the block being collected.
pub open spec fn split_blocks(ls: Seq<Seq<char>>) -> (Seq<Seq<Seq<char>>>, Seq<Seq<char>>)
    decreases ls.len(),
{
    if ls.len() == 0 {
        (seq![], seq![])
    } else {
        let (bs, cur) = split_blocks(ls.drop_last());
        let l = ls.last();
        if is_separator_line(l) {
            if cur.len() > 0 {
                (bs.push(cur), seq![])
            } else {
                (bs, seq![])
            }
        } else {
            (bs, cur.push(l))
        }
    }
}

/// The non-empty runs of lines between separator lines.
pub open spec fn blocks_of(ls: Seq<Seq<char>>) -> Seq<Seq<Seq<char>>> {
    let (bs, cur) = split_blocks(ls);
    if cur.len() > 0 {
        bs.push(cur)
    } else {
        bs
    }
}

pub open spec fn is_blank_line(l: Seq<char>) -> bool {
    trim(l).len() == 0
}

/// Number of leading blank lines.
pub open spec fn blank_prefix_len(ls: Seq<Seq<char>>) -> nat
    decreases ls.len(),
{
    if ls.len() > 0 && is_blank_line(ls[0]) {
        1 + blank_prefix_len(ls.drop_first())
    } else {
        0
    }
}

/// Index of the first blank line, or the number of lines.
pub open spec fn first_blank_index(ls: Seq<Seq<char>>) -> nat
    decreases ls.len(),
{
    if ls.len() == 0 {
        0
    } else if is_blank_line(ls[0]) {
        0
    } else {
        1 + first_blank_index(ls.drop_first())
    }
}

pub open spec fn newline() -> Seq<char> {
    seq!['\n']
}

/// The request a block describes: the first non-blank line is `METHOD URL`, then header
/// lines up to the first blank line, then the body. A block of blank lines describes none.
pub open spec fn parse_block(ls: Seq<Seq<char>>) -> Option<DraftView> {
    let k = blank_prefix_len(ls);
    if k >= ls.len() {
        None
    } else {
        let first = trim(ls[k as int]);
        let parts = match split_once(first, ' ') {
            Some(p) => p,
            None => (first, Seq::<char>::empty()),
        };
        let rest = ls.skip(k as int + 1);
        let h = first_blank_index(rest);
        let headers = rest.take(h as int);
        let body = if h < rest.len() {
            rest.skip(h as int + 1)
        } else {
            Seq::<Seq<char>>::empty()
        };
        Some(
            DraftView {
                title: parts.1,
                method: method_from_name(parts.0),
                url: parts.1,
                headers: join(headers, newline()),
                body: join(body, newline()),
            },
        )
    }
}

/// The draft that stands for the `n`-th block when it holds no request.
pub open spec fn untitled_draft(n: nat) -> DraftView {
    DraftView { title: "Untitled "@ + decimal(n), ..default_draft() }
}

/// The requests of an `.http` file's content, one per block.
pub open spec fn parse_http_text(content: Seq<char>) -> Seq<DraftView> {
    let bs = blocks_of(lines(content));
    Seq::new(
        bs.len(),
        |i: int|
            match parse_block(bs[i]) {
                Some(d) => d,
                None => untitled_draft((i + 1) as nat),
            },
    )
}

pub open spec fn views2(v: Seq<Vec<Vec<char>>>) -> Seq<Seq<Seq<char>>> {
    v.map_values(|b: Vec<Vec<char>>| views(b@))
}

fn clone_line(l: &Vec<char>) -> (r: Vec<char>)
    ensures
        r@ == l@,
{
    slice_range(l, 0, l.len())
}

fn is_separator(l: &Vec<char>) -> (r: bool)
    ensures
        r == is_separator_line(l@),
{
    let (a, _b) = trim_bounds(l);
    let t = slice_range(l, a, l.len());
    let mut p: Vec<char> = Vec::new();
    p.push('#');
    p.push('#');
    p.push('#');
    proof {
        reveal_strlit("###");
    }
    assert(p@ =~= "###"@);
    has_prefix(&t, &p)
}

/// Splits lines into blocks at separator lines.
pub fn blocks_from_lines(ls: &Vec<Vec<char>>) -> (out: Vec<Vec<Vec<char>>>)
    ensures
        views2(out@) == blocks_of(views(ls@)),
{
    let mut bs: Vec<Vec<Vec<char>>> = Vec::new();
    let mut cur: Vec<Vec<char>> = Vec::new();
    let mut i: usize = 0;
    while i < ls.len()
        invariant
            i <= ls@.len(),
            split_blocks(views(ls@.take(i as int))) == (views2(bs@), views(cur@)),
        decreases ls.len() - i,
    {
        let ghost pre = views(ls@.take(i as int));
        let ghost next = views(ls@.take(i + 1));
        assert(next.drop_last() =~= pre);
        assert(next.last() == ls@[i as int]@);
        if is_separator(&ls[i]) {
            if cur.len() > 0 {
                let ghost pb = bs@;
                let ghost cv = views(cur@);
                let done = cur;
                cur = Vec::new();
                bs.push(done);
                assert(views2(bs@) =~= views2(pb).push(cv));
                assert(views(cur@) =~= Seq::<Seq<char>>::empty());
            } else {
                assert(views(cur@) =~= Seq::<Seq<char>>::empty());
            }
        } else {
            let ghost cv = views(cur@);
            let l = clone_line(&ls[i]);
            cur.push(l);
            assert(views(cur@) =~= cv.push(ls@[i as int]@));
        }
        i = i + 1;
    }
    assert(ls@.take(ls@.len() as int) =~= ls@);
    if cur.len() > 0 {
        let ghost pb = bs@;
        let ghost cv = views(cur@);
        bs.push(cur);
        assert(views2(bs@) =~= views2(pb).push(cv));
    }
    bs
}

fn is_blank_vec(l: &Vec<char>) -> (r: bool)
    ensures
        r == is_blank_line(l@),
{
    is_blank(l)
}

/// The request a block of lines describes, if any.
pub fn parse_request_block(ls: &Vec<Vec<char>>) -> (r: Option<RequestDraft>)
    ensures
        match r {
            Some(d) => parse_block(views(ls@)) == Some(d@),
            None => parse_block(views(ls@)) is None,
        },
{
    let ghost s = views(ls@);
    let mut k: usize = 0;
    assert(s.skip(0) =~= s);
    while k < ls.len() && is_blank_vec(&ls[k])
        invariant
            k <= ls@.len(),
            s == views(ls@),
            blank_prefix_len(s) == k + blank_prefix_len(s.skip(k as int)),
        decreases ls.len() - k,
    {
        assert(s.skip(k as int)[0] == ls@[k as int]@);
        assert(s.skip(k as int).drop_first() =~= s.skip(k + 1));
        k = k + 1;
    }
    if k == ls.len() {
        return None;
    }
    assert(s.skip(k as int)[0] == ls@[k as int]@);
    let first = trimmed(&ls[k]);
    let (mc, uc) = match split_once_char(&first, ' ') {
        Some((a, b)) => (a, b),
        None => (first, Vec::new()),
    };
    assert(uc@ =~= (match split_once(trim(s[k as int]), ' ') {
        Some(p) => p,
        None => (trim(s[k as int]), Seq::<char>::empty()),
    }).1);
    // header lines, then the body after the first blank line
    let mut headers: Vec<Vec<char>> = Vec::new();
    let mut body: Vec<Vec<char>> = Vec::new();
    let ghost rest = s.skip(k + 1);
    let mut j: usize = k + 1;
    assert(rest.skip(0) =~= rest);
    while j < ls.len() && !is_blank_vec(&ls[j])
        invariant
            k + 1 <= j <= ls@.len(),
            s == views(ls@),
            rest == s.skip(k + 1),
            first_blank_index(rest) == (j - (k + 1)) + first_blank_index(
                rest.skip(j - (k + 1)),
            ),
            views(headers@) == rest.take(j - (k + 1)),
        decreases ls.len() - j,
    {
        assert(rest.skip(j - (k + 1))[0] == ls@[j as int]@);
        assert(rest.skip(j - (k + 1)).drop_first() =~= rest.skip(j + 1 - (k + 1)));
        let ghost hv = views(headers@);
        let l = clone_line(&ls[j]);
        headers.push(l);
        assert(views(headers@) =~= hv.push(ls@[j as int]@));
        assert(rest[j - (k + 1)] == s[j as int]);
        assert(rest.take(j + 1 - (k + 1)) =~= rest.take(j - (k + 1)).push(rest[j - (k + 1)]));
        j = j + 1;
    }
    let h = j;
    if j < ls.len() {
        assert(rest.skip(j - (k + 1))[0] == ls@[j as int]@);
        j = j + 1;
        while j < ls.len()
            invariant
                k + 1 < j <= ls@.len(),
                s == views(ls@),
                rest == s.skip(k + 1),
                views(body@) == rest.subrange(h + 1 - (k + 1), j - (k + 1)),
                rest.len() == ls@.len() - (k + 1),
                k + 1 <= h < j,
            decreases ls.len() - j,
        {
            let l = clone_line(&ls[j]);
            let ghost bv = views(body@);
            body.push(l);
            assert(views(body@) =~= bv.push(ls@[j as int]@));
            assert(rest[j - (k + 1)] == s[j as int]);
            assert(rest.subrange(h + 1 - (k + 1), j + 1 - (k + 1)) =~= rest.subrange(
                h + 1 - (k + 1),
                j - (k + 1),
            ).push(rest[j - (k + 1)]));
            j = j + 1;
        }
        assert(views(body@) =~= rest.skip(h + 1 - (k + 1)));
    } else {
        assert(views(body@) =~= Seq::<Seq<char>>::empty());
    }
    let nl: [char; 1] = ['\n'];
    assert(nl@ =~= newline());
    let hc = join_chars(&headers, &nl);
    let bc = join_chars(&body, &nl);
    let draft = RequestDraft {
        title: string_of(&uc),
        method: Method::from_name(string_of(&mc).as_str()),
        url: string_of(&uc),
        headers: string_of(&hc),
        body: string_of(&bc),
    };
    Some(draft)
}

/// `Untitled n` as a default draft.
fn untitled(n: u64) -> (d: RequestDraft)
    ensures
        d@ == untitled_draft(n as nat),
{
    let mut title = String::from_str("Untitled ");
    let digits = decimal_string(n);
    push_chars(&mut title, &digits);
    RequestDraft::titled(title)
}

/// The requests written in the content of an `.http` file.
pub fn parse_http_content(content: &str) -> (requests: Vec<RequestDraft>)
    ensures
        draft_views(requests@) == parse_http_text(content@),
{
    let cs = chars_of(content);
    let ls = lines_of(&cs);
    let bs = blocks_from_lines(&ls);
    let ghost target = parse_http_text(content@);
    let mut requests: Vec<RequestDraft> = Vec::new();
    let mut i: usize = 0;
    while i < bs.len()
        invariant
            i <= bs@.len(),
            views2(bs@) == blocks_of(lines(content@)),
            target == parse_http_text(content@),
            requests@.len() == i,
            forall|j: int| 0 <= j < i ==> #[trigger] requests@[j]@ == target[j],
        decreases bs.len() - i,
    {
        assert(views2(bs@)[i as int] == views(bs@[i as int]@));
        let d = match parse_request_block(&bs[i]) {
            Some(d) => d,
            None => untitled((i as u64) + 1),
        };
        requests.push(d);
        i = i + 1;
    }
    assert(draft_views(requests@) =~= target);
    requests
}

} // verus!

verus! {

// ---------------------------------------------------------------------------
// Writing requests
// ---------------------------------------------------------------------------

/// How one request is written below its `### title` line.
pub open spec fn format_block(d: DraftView) -> Seq<char> {
    let h = trim_end(d.headers);
    method_name(d.method) + seq![' '] + d.url + newline() + (if h.len() > 0 {
        h + newline()
    } else {
        Seq::empty()
    }) + newline() + (if d.body.len() > 0 {
        d.body + newline()
    } else {
        Seq::empty()
    })
}

/// The content of an `.http` file holding `rs`: each request under a `### title` line,
/// with a blank line between requests.
pub open spec fn render_requests(rs: Seq<DraftView>) -> Seq<char>
    decreases rs.len(),
{
    if rs.len() == 0 {
        Seq::empty()
    } else {
        render_requests(rs.drop_last()) + (if rs.len() > 1 {
            newline()
        } else {
            Seq::empty()
        }) + "### "@ + rs.last().title + newline() + format_block(rs.last())
    }
}

/// One request as written in an `.http` file, below its title line.
pub fn format_request_block(req: &RequestDraft) -> (out: String)
    ensures
        out@ == format_block(req@),
{
    let mut block = String::new();
    push_str(&mut block, req.method.as_str());
    push_chars(&mut block, &[' ']);
    push_str(&mut block, req.url.as_str());
    push_chars(&mut block, &['\n']);
    let hc = chars_of(req.headers.as_str());
    let hb = trim_end_bound(&hc);
    if hb > 0 {
        let h = slice_range(&hc, 0, hb);
        push_chars(&mut block, &h);
        push_chars(&mut block, &['\n']);
    }
    push_chars(&mut block, &['\n']);
    let bc = chars_of(req.body.as_str());
    if bc.len() > 0 {
        push_chars(&mut block, &bc);
        push_chars(&mut block, &['\n']);
    }
    let ghost h = trim_end(req.headers@);
    assert(block@ =~= format_block(req@));
    block
}

/// The content `write_http_file` writes for `requests`.
pub fn render_http_file(requests: &[RequestDraft]) -> (content: String)
    ensures
        content@ == render_requests(draft_views(requests@)),
{
    let mut content = String::new();
    let mut i: usize = 0;
    while i < requests.len()
        invariant
            i <= requests@.len(),
            content@ == render_requests(draft_views(requests@.take(i as int))),
        decreases requests.len() - i,
    {
        let ghost prev = content@;
        if i > 0 {
            push_chars(&mut content, &['\n']);
        }
        push_str(&mut content, "### ");
        push_str(&mut content, requests[i].title.as_str());
        push_chars(&mut content, &['\n']);
        let block = format_request_block(&requests[i]);
        push_str(&mut content, block.as_str());
        proof {
            let t = draft_views(requests@.take(i + 1));
            assert(t.drop_last() =~= draft_views(requests@.take(i as int)));
            assert(t.last() == requests@[i as int]@);
            if i > 0 {
                assert(content@ =~= prev + newline() + "### "@ + requests@[i as int].title@
                    + newline() + format_block(requests@[i as int]@));
            } else {
                assert(content@ =~= prev + "### "@ + requests@[i as int].title@ + newline()
                    + format_block(requests@[i as int]@));
            }
        }
        i = i + 1;
    }
    assert(requests@.take(requests@.len() as int) =~= requests@);
    content
}

// ---------------------------------------------------------------------------
// File names for new requests
// ---------------------------------------------------------------------------

/// How a title character appears in a file name.
pub open spec fn slug_char(c: char) -> char {
    if is_ascii_alnum(c) {
        lower(c)
    } else if is_ws(c) || c == '-' || c == '_' {
        '-'
    } else {
        '_'
    }
}

/// The file stem derived from a request title.
pub open spec fn slug(title: Seq<char>) -> Seq<char> {
    let raw = title.map_values(|c: char| slug_char(c));
    let s = trim_end_char(
        trim_end_char(trim(trim_char(trim_char(raw, '-'), '_')), '-'),
        '_',
    );
    if s.len() == 0 {
        "request"@
    } else {
        s
    }
}

/// The path under `root` suggested for saving a request titled `title`.
pub open spec fn suggested_path(root: Seq<char>, title: Seq<char>) -> Seq<char> {
    path_join(root, slug(title) + ".http"@)
}

fn slug_of(c: char) -> (r: char)
    ensures
        r == slug_char(c),
{
    if is_ascii_alphanumeric(c) {
        to_lower(c)
    } else if is_whitespace(c) || c == '-' || c == '_' {
        '-'
    } else {
        '_'
    }
}

/// The file stem for a request title.
pub fn slugify(title: &str) -> (out: Vec<char>)
    ensures
        out@ == slug(title@),
{
    let tc = chars_of(title);
    let mut raw: Vec<char> = Vec::new();
    let mut i: usize = 0;
    while i < tc.len()
        invariant
            i <= tc@.len(),
            raw@ == tc@.take(i as int).map_values(|c: char| slug_char(c)),
        decreases tc.len() - i,
    {
        raw.push(slug_of(tc[i]));
        i = i + 1;
        assert(raw@ =~= tc@.take(i as int).map_values(|c: char| slug_char(c)));
    }
    assert(tc@.take(tc@.len() as int) =~= tc@);
    let a = trim_matches(&raw, '-');
    let b = trim_matches(&a, '_');
    let c = trimmed(&b);
    let d = trim_end_matches(&c, '-');
    let e = trim_end_matches(&d, '_');
    if e.len() == 0 {
        let r = chars_of("request");
        r
    } else {
        e
    }
}

/// The path under `root` for a new request titled `title`.
pub fn suggest_http_path(root: &str, title: &str) -> (path: String)
    ensures
        path@ == suggested_path(root@, title@),
{
    let stem = slugify(title);
    let mut name = string_of(&stem);
    push_str(&mut name, ".http");
    join_path(root, name.as_str())
}

// ---------------------------------------------------------------------------
// Saving a request
// ---------------------------------------------------------------------------

/// Where a save goes: the selected request's file and index, an explicit path, or a
/// path derived from the title under the project root.
pub open spec fn persist_target_spec(
    http_root: Seq<char>,
    selection: Option<RequestIdView>,
    title: Seq<char>,
    explicit_path: Option<Seq<char>>,
) -> (Seq<char>, Option<usize>) {
    match (selection, explicit_path) {
        (Some(RequestIdView::HttpFile { path, index }), None) => (path, Some(index)),
        (_, Some(p)) => (p, None),
        _ => (suggested_path(http_root, title), None),
    }
}

/// The file a save writes to and the index it replaces, if any.
pub fn persist_target(
    http_root: &str,
    selection: Option<RequestId>,
    title: &str,
    explicit_path: Option<String>,
) -> (r: (String, Option<usize>))
    ensures
        (r.0@, r.1) == persist_target_spec(
            http_root@,
            match selection {
                Some(id) => Some(id@),
                None => None,
            },
            title@,
            match explicit_path {
                Some(p) => Some(p@),
                None => None,
            },
        ),
{
    match (selection, explicit_path) {
        (Some(RequestId::HttpFile { path, index }), None) => (path, Some(index)),
        (_, Some(path)) => (path, None),
        _ => (suggest_http_path(http_root, title), None),
    }
}

/// The requests after saving `draft`: it replaces entry `replace_index` when that
/// exists, else it is added at the end. Returns the index it ends up at.
pub fn place_request(
    requests: &mut Vec<RequestDraft>,
    replace_index: Option<usize>,
    draft: RequestDraft,
) -> (index: usize)
    requires
        old(requests)@.len() < usize::MAX,
    ensures
        index < final(requests)@.len(),
        final(requests)@[index as int]@ == draft@,
        match replace_index {
            Some(i) if i < old(requests)@.len() => index == i && draft_views(final(requests)@)
                == draft_views(old(requests)@).update(i as int, draft@),
            _ => index == old(requests)@.len() && draft_views(final(requests)@) == draft_views(
                old(requests)@,
            ).push(draft@),
        },
{
    let ghost dv = draft@;
    match replace_index {
        Some(i) => {
            if i < requests.len() {
                requests.set(i, draft);
                assert(draft_views(requests@) =~= draft_views(old(requests)@).update(i as int, dv));
                return i;
            }
        },
        None => {},
    }
    requests.push(draft);
    assert(draft_views(requests@) =~= draft_views(old(requests)@).push(dv));
    requests.len() - 1
}

// ---------------------------------------------------------------------------
// Environment files
// ---------------------------------------------------------------------------

/// The variables of a `.env` file's lines: `KEY=VALUE` lines, trimmed; blank lines and
/// `#` comments are skipped; a later line for a key replaces an earlier one.
pub open spec fn env_from_lines(ls: Seq<Seq<char>>) -> Seq<(Seq<char>, Seq<char>)>
    decreases ls.len(),
{
    if ls.len() == 0 {
        Seq::empty()
    } else {
        let vars = env_from_lines(ls.drop_last());
        let t = trim(ls.last());
        if t.len() == 0 || starts_with(t, seq!['#']) {
            vars
        } else {
            match split_once(t, '=') {
                Some((k, v)) => env_insert(vars, trim(k), trim(v)),
                None => vars,
            }
        }
    }
}

/// The variables read from a `.env` file are kept in key order.
pub proof fn lemma_env_lines_sorted(ls: Seq<Seq<char>>)
    ensures
        crate::env::sorted_keys(env_from_lines(ls)),
    decreases ls.len(),
{
    if ls.len() > 0 {
        lemma_env_lines_sorted(ls.drop_last());
        let t = trim(ls.last());
        if !(t.len() == 0 || starts_with(t, seq!['#'])) {
            if let Some((k, v)) = split_once(t, '=') {
                crate::env::lemma_env_insert_sorted(env_from_lines(ls.drop_last()), trim(k), trim(v));
            }
        }
    }
}

/// No key read from a `.env` file holds `=`.
pub proof fn lemma_env_keys_have_no_equals(ls: Seq<Seq<char>>)
    ensures
        forall|i: int| 0 <= i < env_from_lines(ls).len() ==> !(#[trigger] env_from_lines(ls)[i]).0.contains('='),
    decreases ls.len(),
{
    if ls.len() > 0 {
        lemma_env_keys_have_no_equals(ls.drop_last());
        lemma_env_lines_sorted(ls.drop_last());
        let prev = env_from_lines(ls.drop_last());
        let t = trim(ls.last());
        if !(t.len() == 0 || starts_with(t, seq!['#'])) {
            crate::text::lemma_first_index_of(t, '=');
            let c = crate::text::first_index_of(t, '=');
            if c < t.len() {
                let key = t.take(c as int);
                assert(!key.contains('=')) by {
                    assert forall|j: int| 0 <= j < key.len() implies key[j] != '=' by {
                        assert(key[j] == t[j]);
                    }
                }
                crate::text::lemma_trim_keeps_out(key, '=');
                let tk = trim(key);
                let all = env_from_lines(ls);
                assert(all == env_insert(prev, tk, trim(t.skip(c as int + 1))));
                crate::env::lemma_find_key(prev, tk);
                let f = crate::env::find_key(prev, tk);
                assert forall|i: int| 0 <= i < all.len() implies !(#[trigger] all[i]).0.contains('=') by {
                    if f >= 0 {
                        if i != f {
                            assert(all[i] == prev[i]);
                        }
                    } else {
                        let pos = crate::env::insert_position(prev, tk) as int;
                        crate::env::lemma_insert_position(prev, tk);
                        if i < pos {
                            assert(all[i] == prev[i]);
                        } else if i > pos {
                            assert(all[i] == prev[i - 1]);
                        }
                    }
                }
            }
        }
    }
}

/// A `.env` line `key=value` (its key holding no `=` and not starting a comment) sets the
/// trimmed key to the trimmed value: the line splits at its first `=`, so a value may hold
/// `=` and a key never does.
pub proof fn lemma_env_line_splits_at_first_equals(ls: Seq<Seq<char>>, k: Seq<char>, v: Seq<char>)
    requires
        !k.contains('='),
        !starts_with(trim(k), seq!['#']),
    ensures
        env_from_lines(ls.push(k + seq!['='] + v)) == env_insert(env_from_lines(ls), trim(k), trim(v)),
        crate::env::env_lookup(env_from_lines(ls.push(k + seq!['='] + v)), trim(k)) == Some(trim(v)),
{
    let l = k + seq!['='] + v;
    assert(ls.push(l).drop_last() =~= ls);
    assert(!is_ws('='));
    crate::text::lemma_trim_around(k, '=', v);
    let ks = crate::text::trim_start(k);
    crate::text::lemma_ws_prefix(k);
    assert(!ks.contains('=')) by {
        assert forall|j: int| 0 <= j < ks.len() implies ks[j] != '=' by {
            assert(ks[j] == k[j + crate::text::ws_prefix_len(k)]);
        }
    }
    crate::text::lemma_split_once_first(ks, '=', trim_end(v));
    crate::text::lemma_trim_of_trim_start(k);
    crate::text::lemma_trim_of_trim_end(v);
    let t = trim(l);
    assert(t == ks + seq!['='] + trim_end(v));
    assert(t.len() > 0);
    // the trimmed line starts with `#` only if the trimmed key does
    assert(!starts_with(t, seq!['#'])) by {
        assert(t.take(1)[0] == t[0]);
        if ks.len() > 0 {
            assert(t[0] == ks[0]);
            assert(ks[0] == k[crate::text::ws_prefix_len(k) as int]);
            crate::text::lemma_ws_suffix(ks);
            let q = crate::text::ws_suffix_len(ks);
            if q == ks.len() {
                assert(is_ws(ks[0]));
            }
            let tk = trim(k);
            assert(tk == trim_end(ks));
            assert(tk.len() >= 1);
            assert(tk[0] == ks[0]);
            assert(tk.take(1)[0] == tk[0]);
            assert(tk.take(1) =~= seq![tk[0]]);
            assert(t.take(1) =~= seq![t[0]]);
        } else {
            assert(t[0] == '=');
            assert(t.take(1) =~= seq!['=']);
        }
    }
    lemma_env_lines_sorted(ls);
    crate::env::lemma_env_insert_sorted(env_from_lines(ls), trim(k), trim(v));
}

/// A `.env` text of one line `key=value` holds just the trimmed key with the trimmed value.
pub proof fn lemma_one_env_line(k: Seq<char>, v: Seq<char>)
    requires
        !k.contains('='),
        !k.contains('\n'),
        !v.contains('\n'),
        !starts_with(trim(k), seq!['#']),
    ensures
        env_from_lines(lines(k + seq!['='] + v)) == seq![(trim(k), trim(v))],
{
    let l = k + seq!['='] + v;
    assert(!l.contains('\n')) by {
        assert forall|j: int| 0 <= j < l.len() implies l[j] != '\n' by {
            if j < k.len() {
                assert(l[j] == k[j]);
            } else if j > k.len() {
                assert(l[j] == v[j - k.len() - 1]);
            }
        }
    }
    crate::text::lemma_single_line(l);
    lemma_env_line_splits_at_first_equals(Seq::empty(), k, v);
    assert(Seq::<Seq<char>>::empty().push(l) =~= seq![l]);
    let e = Seq::<(Seq<char>, Seq<char>)>::empty();
    assert(env_from_lines(Seq::<Seq<char>>::empty()) == e);
    assert(crate::env::find_key(e, trim(k)) == -1);
    assert(env_insert(e, trim(k), trim(v)) =~= seq![(trim(k), trim(v))]);
}

/// The variables defined by the content of a `.env` file.
pub fn parse_env_content(content: &str) -> (vars: EnvVars)
    ensures
        vars@ == env_from_lines(lines(content@)),
{
    let cs = chars_of(content);
    let ls = lines_of(&cs);
    let mut vars = EnvVars::new();
    let mut i: usize = 0;
    while i < ls.len()
        invariant
            i <= ls@.len(),
            views(ls@) == lines(content@),
            vars@ == env_from_lines(views(ls@).take(i as int)),
        decreases ls.len() - i,
    {
        let ghost pre = views(ls@).take(i as int);
        let ghost next = views(ls@).take(i + 1);
        assert(next.drop_last() =~= pre);
        assert(next.last() == ls@[i as int]@);
        let t = trimmed(&ls[i]);
        if t.len() > 0 && t[0] != '#' {
            match split_once_char(&t, '=') {
                Some((k, v)) => {
                    let kt = trimmed(&k);
                    let vt = trimmed(&v);
                    vars.insert(string_of(&kt), string_of(&vt));
                },
                None => {},
            }
        } else {
            assert(t@.len() == 0 || starts_with(t@, seq!['#'])) by {
                if t@.len() > 0 {
                    assert(t@.take(1) =~= seq!['#']);
                }
            }
        }
        proof {
            if t@.len() > 0 && t@[0] != '#' {
                assert(!starts_with(t@, seq!['#'])) by {
                    assert(t@.take(1)[0] == t@[0]);
                }
            }
        }
        i = i + 1;
    }
    assert(views(ls@).take(ls@.len() as int) =~= views(ls@));
    vars
}

/// The name of the environment a file defines: its stem, else its name, else `environment`.
pub open spec fn env_name_spec(path: Seq<char>) -> Seq<char> {
    match path_file_stem(path) {
        Some(s) => s,
        None => match path_file_name(path) {
            Some(n) => n,
            None => "environment"@,
        },
    }
}

pub fn env_name_for_path(path: &str) -> (name: String)
    ensures
        name@ == env_name_spec(path@),
{
    match file_stem(path) {
        Some(s) => s,
        None => match file_name(path) {
            Some(n) => n,
            None => String::from_str("environment"),
        },
    }
}

/// Whether a scan reads a file as a collection of requests: its extension is `http`.
pub fn is_http_file(path: &str) -> (r: bool)
    ensures
        r == (path_extension(path@) == Some("http"@)),
{
    match extension(path) {
        Some(e) => {
            proof {
                reveal_strlit("http");
            }
            crate::text::str_eq(e.as_str(), "http")
        },
        None => false,
    }
}

/// Whether a file holds an environment: its name starts with `.env` or its extension is
/// `env` in any case.
pub open spec fn is_env_path(path: Seq<char>) -> bool {
    let name = match path_file_name(path) {
        Some(n) => n,
        None => Seq::empty(),
    };
    starts_with(name, ".env"@) || match path_extension(path) {
        Some(e) => eq_ignore_case(e, "env"@),
        None => false,
    }
}

pub fn is_env_file(path: &str) -> (r: bool)
    ensures
        r == is_env_path(path@),
{
    let name = match file_name(path) {
        Some(n) => chars_of(n.as_str()),
        None => Vec::new(),
    };
    let prefix = chars_of(".env");
    if has_prefix(&name, &prefix) {
        return true;
    }
    match extension(path) {
        Some(e) => {
            let ec = chars_of(e.as_str());
            let env = chars_of("env");
            eq_ignore_ascii_case(&ec, &env)
        },
        None => false,
    }
}

} // verus!
