//! Reading back what a save wrote: the requests parsed from a rendered `.http` file are the
//! requests that were rendered.
use vstd::prelude::*;

use crate::http_file::{
    blank_prefix_len, blocks_of, first_blank_index, format_block, is_blank_line, is_separator_line, newline,
    parse_block, parse_http_text, render_requests, split_blocks,
};
use crate::model::{lemma_method_name_reads_back, method_from_name, method_name, DraftView, Method};
use crate::text::{first_index_of, join, lemma_first_index_of, lemma_first_index_of_unique, lines, split_once, starts_with, strip_cr, trim, trim_end, trim_start, ws_prefix_len, ws_suffix_len, is_ws};

verus! {

/// Whether `c` occurs nowhere in `s`.
pub open spec fn free_of(s: Seq<char>, c: char) -> bool {
    forall|i: int| 0 <= i < s.len() ==> s[i] != c
}

proof fn lemma_lines_no_newline(x: Seq<char>)
    requires
        free_of(x, '\n'),
    ensures
        lines(x + newline()) == seq![strip_cr(x)],
{
    let s = x + newline();
    lemma_first_index_of_unique(s, '\n', x.len() as int);
    assert(s.take(x.len() as int) =~= x);
    assert(s.skip(x.len() as int + 1) =~= Seq::<char>::empty());
    assert(lines(Seq::<char>::empty()) =~= Seq::<Seq<char>>::empty());
    assert(lines(s) == seq![strip_cr(s.take(x.len() as int))] + lines(s.skip(x.len() as int + 1)));
    assert(seq![strip_cr(x)] + Seq::<Seq<char>>::empty() =~= seq![strip_cr(x)]);
}

/// The lines of `x`, a newline and `y` are the lines of `x` as a terminated text, then those
/// of `y`.
pub proof fn lemma_lines_split(x: Seq<char>, y: Seq<char>)
    ensures
        lines(x + newline() + y) == lines(x + newline()) + lines(y),
    decreases x.len(),
{
    let s = x + newline() + y;
    let t = x + newline();
    lemma_first_index_of(x, '\n');
    let k = first_index_of(x, '\n');
    if k == x.len() {
        lemma_first_index_of_unique(s, '\n', x.len() as int);
        assert(s.take(x.len() as int) =~= x);
        assert(s.skip(x.len() as int + 1) =~= y);
        assert(lines(s) == seq![strip_cr(s.take(x.len() as int))] + lines(s.skip(x.len() as int + 1)));
        lemma_lines_no_newline(x);
    } else {
        let x1 = x.take(k as int);
        let x2 = x.skip(k as int + 1);
        assert forall|j: int| 0 <= j < k implies s[j] != '\n' by {
            assert(s[j] == x[j]);
        }
        assert forall|j: int| 0 <= j < k implies t[j] != '\n' by {
            assert(t[j] == x[j]);
        }
        lemma_first_index_of_unique(s, '\n', k as int);
        lemma_first_index_of_unique(t, '\n', k as int);
        assert(s.take(k as int) =~= x1);
        assert(t.take(k as int) =~= x1);
        assert(s.skip(k as int + 1) =~= x2 + newline() + y);
        assert(t.skip(k as int + 1) =~= x2 + newline());
        assert(lines(s) == seq![strip_cr(x1)] + lines(x2 + newline() + y));
        assert(lines(t) == seq![strip_cr(x1)] + lines(x2 + newline()));
        lemma_lines_split(x2, y);
        assert(seq![strip_cr(x1)] + (lines(x2 + newline()) + lines(y)) =~= seq![strip_cr(x1)] + lines(x2 + newline()) + lines(y));
    }
}

/// A text that ends with a newline gets one more, empty, line from another newline.
pub proof fn lemma_lines_extra_newline(x: Seq<char>)
    requires
        x.len() > 0,
        x.last() == '\n',
    ensures
        lines(x + newline()) == lines(x).push(Seq::<char>::empty()),
{
    let x0 = x.drop_last();
    assert(x =~= x0 + newline());
    assert(x + newline() =~= x0 + newline() + newline());
    lemma_lines_split(x0, newline());
    assert(x0 + newline() + Seq::<char>::empty() =~= x0 + newline());
    lemma_lines_split(x0, Seq::<char>::empty());
    lemma_lines_no_newline(Seq::<char>::empty());
    assert(Seq::<char>::empty() + newline() =~= newline());
    assert(strip_cr(Seq::<char>::empty()) =~= Seq::<char>::empty());
}

/// A text whose last line is not terminated, and does not end with a carriage return, has
/// the same lines once a newline closes it.
pub proof fn lemma_lines_closed(x: Seq<char>)
    requires
        x.len() > 0,
        x.last() != '\n',
        x.last() != '\r',
    ensures
        lines(x + newline()) == lines(x),
    decreases x.len(),
{
    lemma_first_index_of(x, '\n');
    let k = first_index_of(x, '\n');
    if k == x.len() {
        lemma_lines_no_newline(x);
        assert(strip_cr(x) == x);
    } else {
        let x1 = x.take(k as int);
        let x2 = x.skip(k as int + 1);
        assert(x =~= x1 + newline() + x2);
        assert(x + newline() =~= x1 + newline() + (x2 + newline()));
        lemma_lines_split(x1, x2 + newline());
        lemma_lines_split(x1, x2);
        assert(x2.len() > 0);
        assert(x2.last() == x.last());
        lemma_lines_closed(x2);
    }
}

/// Joining a line to the front of lines joins them with one more separator.
pub proof fn lemma_join_front(a: Seq<char>, t: Seq<Seq<char>>, sep: Seq<char>)
    requires
        t.len() > 0,
    ensures
        join(seq![a] + t, sep) == a + sep + join(t, sep),
    decreases t.len(),
{
    let s = seq![a] + t;
    assert(s.drop_last() =~= seq![a] + t.drop_last());
    assert(s.last() == t.last());
    assert(join(s, sep) == join(s.drop_last(), sep) + sep + s.last());
    if t.len() == 1 {
        assert(seq![a] + t.drop_last() =~= seq![a]);
        assert(join(seq![a], sep) == a);
        assert(join(t, sep) == t[0]);
    } else {
        assert(join(t, sep) == join(t.drop_last(), sep) + sep + t.last());
        lemma_join_front(a, t.drop_last(), sep);
        assert(a + sep + join(t.drop_last(), sep) + sep + t.last() =~= a + sep + (join(t.drop_last(), sep) + sep + t.last()));
    }
}

/// The lines of a text without carriage returns, terminated, join back into the text.
pub proof fn lemma_join_lines(x: Seq<char>)
    requires
        free_of(x, '\r'),
    ensures
        join(lines(x + newline()), newline()) == x,
        lines(x + newline()).len() > 0,
    decreases x.len(),
{
    lemma_first_index_of(x, '\n');
    let k = first_index_of(x, '\n');
    if k == x.len() {
        lemma_lines_no_newline(x);
        if x.len() > 0 {
            assert(x.last() != '\r');
        }
        assert(strip_cr(x) == x);
    } else {
        let x1 = x.take(k as int);
        let x2 = x.skip(k as int + 1);
        assert(x =~= x1 + newline() + x2);
        assert(x + newline() =~= x1 + newline() + (x2 + newline()));
        lemma_lines_split(x1, x2 + newline());
        assert forall|j: int| 0 <= j < x1.len() implies x1[j] != '\n' by {
            assert(x1[j] == x[j]);
        }
        lemma_lines_no_newline(x1);
        if x1.len() > 0 {
            assert(x1.last() == x[k - 1]);
        }
        assert(strip_cr(x1) == x1);
        assert forall|j: int| 0 <= j < x2.len() implies x2[j] != '\r' by {
            assert(x2[j] == x[k + 1 + j]);
        }
        lemma_join_lines(x2);
        lemma_join_front(x1, lines(x2 + newline()), newline());
        assert(x1 + newline() + x2 =~= x);
    }
}

/// A draft that an `.http` file holds as it is: title and URL on one line each, the URL
/// without trailing whitespace, no carriage returns, header lines that are neither blank nor
/// `###` lines, and no `###` line in the body.
pub open spec fn saveable(d: DraftView) -> bool {
    &&& free_of(d.title, '\n')
    &&& free_of(d.title, '\r')
    &&& free_of(d.url, '\n')
    &&& trim_end(d.url) == d.url
    &&& free_of(d.headers, '\r')
    &&& free_of(d.body, '\r')
    &&& forall|j: int|
        0 <= j < lines(trim_end(d.headers)).len() ==> !is_blank_line(#[trigger] lines(trim_end(d.headers))[j])
            && !is_separator_line(lines(trim_end(d.headers))[j])
    &&& forall|j: int| 0 <= j < lines(d.body).len() ==> !is_separator_line(#[trigger] lines(d.body)[j])
}

/// The request line of a draft.
pub open spec fn request_line(d: DraftView) -> Seq<char> {
    method_name(d.method) + seq![' '] + d.url
}

/// The lines a draft's block is written as, below its title line.
pub open spec fn block_lines(d: DraftView) -> Seq<Seq<char>> {
    let h = trim_end(d.headers);
    seq![request_line(d)] + (if h.len() > 0 {
        lines(h)
    } else {
        Seq::empty()
    }) + seq![Seq::<char>::empty()] + (if d.body.len() > 0 {
        lines(d.body + newline())
    } else {
        Seq::empty()
    })
}

/// The lines an `.http` file holding `rs` is written as.
pub open spec fn rendered_lines(rs: Seq<DraftView>) -> Seq<Seq<char>>
    decreases rs.len(),
{
    if rs.len() == 0 {
        Seq::empty()
    } else {
        rendered_lines(rs.drop_last()) + (if rs.len() > 1 {
            seq![Seq::<char>::empty()]
        } else {
            Seq::empty()
        }) + seq!["### "@ + rs.last().title] + block_lines(rs.last())
    }
}

proof fn lemma_method_names(m: Method)
    ensures
        method_name(m).len() >= 3,
        free_of(method_name(m), '\n'),
        free_of(method_name(m), ' '),
        free_of(method_name(m), '#'),
        forall|i: int| 0 <= i < method_name(m).len() ==> !is_ws(#[trigger] method_name(m)[i]),
{
    reveal_strlit("GET");
    reveal_strlit("POST");
    reveal_strlit("PUT");
    reveal_strlit("DELETE");
    reveal_strlit("PATCH");
    reveal_strlit("HEAD");
}

/// A text with no trailing whitespace does not end with whitespace.
proof fn lemma_trimmed_end(u: Seq<char>)
    requires
        trim_end(u) == u,
        u.len() > 0,
    ensures
        !is_ws(u.last()),
{
    lemma_ws_suffix_bound(u);
    if is_ws(u.last()) {
        assert(ws_suffix_len(u) >= 1);
        assert(trim_end(u).len() < u.len());
    }
}

/// The character before a text's trailing whitespace is no whitespace.
proof fn lemma_ws_suffix_stop(s: Seq<char>)
    ensures
        ws_suffix_len(s) <= s.len(),
        ws_suffix_len(s) < s.len() ==> !is_ws(s[s.len() - ws_suffix_len(s) - 1]),
    decreases s.len(),
{
    if s.len() > 0 && is_ws(s.last()) {
        lemma_ws_suffix_stop(s.drop_last());
        if ws_suffix_len(s) < s.len() {
            assert(s.drop_last()[s.len() - ws_suffix_len(s) - 1] == s[s.len() - ws_suffix_len(s) - 1]);
        }
    }
}

proof fn lemma_block_lines(d: DraftView)
    requires
        saveable(d),
    ensures
        lines(format_block(d)) == block_lines(d),
{
    let m = method_name(d.method);
    let r = request_line(d);
    let h = trim_end(d.headers);
    let hpart = if h.len() > 0 {
        h + newline()
    } else {
        Seq::<char>::empty()
    };
    let bpart = if d.body.len() > 0 {
        d.body + newline()
    } else {
        Seq::<char>::empty()
    };
    lemma_method_names(d.method);
    assert(format_block(d) =~= r + newline() + (hpart + newline() + bpart));
    lemma_lines_split(r, hpart + newline() + bpart);
    assert forall|i: int| 0 <= i < r.len() implies r[i] != '\n' by {
        if i < m.len() {
            assert(r[i] == m[i]);
        } else if i > m.len() {
            assert(r[i] == d.url[i - m.len() - 1]);
        }
    }
    lemma_lines_no_newline(r);
    if d.url.len() > 0 {
        lemma_trimmed_end(d.url);
        assert(r.last() == d.url.last());
    }
    assert(strip_cr(r) == r);
    // the empty line after the headers, then the body
    lemma_lines_split(Seq::<char>::empty(), bpart);
    lemma_lines_no_newline(Seq::<char>::empty());
    assert(Seq::<char>::empty() + newline() + bpart =~= newline() + bpart);
    assert(strip_cr(Seq::<char>::empty()) =~= Seq::<char>::empty());
    if h.len() > 0 {
        assert(hpart + newline() + bpart =~= h + newline() + (newline() + bpart));
        lemma_lines_split(h, newline() + bpart);
        lemma_ws_suffix_stop(d.headers);
        assert(h.last() == d.headers[h.len() - 1]);
        lemma_lines_closed(h);
    } else {
        assert(hpart + newline() + bpart =~= newline() + bpart);
    }
    assert(lines(Seq::<char>::empty()) =~= Seq::<Seq<char>>::empty());
    assert(lines(format_block(d)) =~= block_lines(d));
}

proof fn lemma_ws_suffix_bound(s: Seq<char>)
    ensures
        ws_suffix_len(s) <= s.len(),
{
    crate::text::lemma_ws_suffix_len_bound(s);
}

/// A rendered file ends with a newline.
proof fn lemma_render_ends_with_newline(rs: Seq<DraftView>)
    requires
        rs.len() > 0,
    ensures
        render_requests(rs).len() > 0,
        render_requests(rs).last() == '\n',
{
    let d = rs.last();
    let fb = format_block(d);
    assert(fb.len() > 0 && fb.last() == '\n') by {
        let h = trim_end(d.headers);
        if d.body.len() > 0 {
            assert(fb.last() == (d.body + newline()).last());
        }
    }
    let pre = render_requests(rs.drop_last()) + (if rs.len() > 1 {
        newline()
    } else {
        Seq::<char>::empty()
    }) + "### "@ + d.title + newline();
    assert(render_requests(rs) == pre + fb);
    assert((pre + fb).last() == fb.last());
}

/// The lines of a rendered file.
#[verifier::spinoff_prover]
#[verifier::rlimit(40)]
pub proof fn lemma_rendered_lines(rs: Seq<DraftView>)
    requires
        forall|i: int| 0 <= i < rs.len() ==> saveable(#[trigger] rs[i]),
    ensures
        lines(render_requests(rs)) == rendered_lines(rs),
    decreases rs.len(),
{
    reveal_strlit("### ");
    if rs.len() == 0 {
        assert(lines(Seq::<char>::empty()) =~= Seq::<Seq<char>>::empty());
    } else {
        let prev = rs.drop_last();
        let d = rs.last();
        assert(saveable(d));
        let t = "### "@ + d.title;
        let fb = format_block(d);
        lemma_block_lines(d);
        assert forall|i: int| 0 <= i < t.len() implies t[i] != '\n' by {
            if i >= 4 {
                assert(t[i] == d.title[i - 4]);
            }
        }
        lemma_lines_split(t, fb);
        lemma_lines_no_newline(t);
        if d.title.len() > 0 {
            assert(t.last() == d.title.last());
        }
        assert(strip_cr(t) == t);
        if rs.len() == 1 {
            assert(render_requests(prev) =~= Seq::<char>::empty());
            assert(render_requests(rs) =~= t + newline() + fb);
            assert(rendered_lines(prev) =~= Seq::<Seq<char>>::empty());
            assert(lines(render_requests(rs)) =~= rendered_lines(rs));
        } else {
            let p = render_requests(prev);
            assert forall|i: int| 0 <= i < prev.len() implies saveable(#[trigger] prev[i]) by {
                assert(prev[i] == rs[i]);
            }
            lemma_rendered_lines(prev);
            lemma_render_ends_with_newline(prev);
            assert(render_requests(rs) =~= p + newline() + (t + newline() + fb));
            lemma_lines_split(p, t + newline() + fb);
            lemma_lines_extra_newline(p);
            assert(lines(render_requests(rs)) =~= rendered_lines(rs));
        }
    }
}

/// No line of `ls` is a `###` line.
pub open spec fn no_separators(ls: Seq<Seq<char>>) -> bool {
    forall|j: int| 0 <= j < ls.len() ==> !is_separator_line(#[trigger] ls[j])
}

/// Lines that are no `###` lines join the block being collected.
proof fn lemma_split_blocks_append(ls: Seq<Seq<char>>, m: Seq<Seq<char>>)
    requires
        no_separators(m),
    ensures
        split_blocks(ls + m) == (split_blocks(ls).0, split_blocks(ls).1 + m),
    decreases m.len(),
{
    if m.len() == 0 {
        assert(ls + m =~= ls);
        assert(split_blocks(ls).1 + m =~= split_blocks(ls).1);
    } else {
        let m0 = m.drop_last();
        assert((ls + m).drop_last() =~= ls + m0);
        assert((ls + m).last() == m.last());
        assert(!is_separator_line(m[m.len() - 1]));
        assert forall|j: int| 0 <= j < m0.len() implies !is_separator_line(#[trigger] m0[j]) by {
            assert(m0[j] == m[j]);
        }
        lemma_split_blocks_append(ls, m0);
        assert((split_blocks(ls).1 + m0).push(m.last()) =~= split_blocks(ls).1 + m);
    }
}

proof fn lemma_empty_line_plain()
    ensures
        !is_separator_line(Seq::<char>::empty()),
        is_blank_line(Seq::<char>::empty()),
{
    reveal_strlit("###");
    assert(ws_prefix_len(Seq::<char>::empty()) == 0);
    assert(trim_start(Seq::<char>::empty()) =~= Seq::<char>::empty());
    assert(ws_suffix_len(Seq::<char>::empty()) == 0);
    assert(trim(Seq::<char>::empty()) =~= Seq::<char>::empty());
}

proof fn lemma_request_line_plain(d: DraftView)
    ensures
        !is_separator_line(request_line(d)),
        !is_blank_line(request_line(d)),
        trim_start(request_line(d)) == request_line(d),
{
    reveal_strlit("###");
    let r = request_line(d);
    lemma_method_names(d.method);
    assert(r[0] == method_name(d.method)[0]);
    assert(!is_ws(r[0]));
    assert(ws_prefix_len(r) == 0);
    assert(trim_start(r) =~= r);
    assert(r.take(3)[0] != '#');
    assert(!starts_with(trim_start(r), "###"@));
    lemma_ws_suffix_stop(r);
    assert(ws_suffix_len(r) < r.len()) by {
        if ws_suffix_len(r) == r.len() {
            lemma_ws_all(r);
        }
    }
    assert(trim(r).len() > 0);
}

/// A text whose trailing whitespace is all of it is whitespace at its start too.
proof fn lemma_ws_all(s: Seq<char>)
    requires
        s.len() > 0,
        ws_suffix_len(s) == s.len(),
    ensures
        is_ws(s[0]),
    decreases s.len(),
{
    assert(is_ws(s.last()));
    if s.len() > 1 {
        lemma_ws_all(s.drop_last());
    }
}

/// The lines of a block hold no `###` line.
proof fn lemma_block_plain(d: DraftView)
    requires
        saveable(d),
    ensures
        no_separators(block_lines(d)),
        block_lines(d).len() > 0,
{
    let h = trim_end(d.headers);
    lemma_request_line_plain(d);
    lemma_empty_line_plain();
    let hl = if h.len() > 0 {
        lines(h)
    } else {
        Seq::<Seq<char>>::empty()
    };
    let bl = if d.body.len() > 0 {
        lines(d.body + newline())
    } else {
        Seq::<Seq<char>>::empty()
    };
    if d.body.len() > 0 {
        if d.body.last() == '\n' {
            lemma_lines_extra_newline(d.body);
        } else {
            assert(d.body.last() != '\r');
            lemma_lines_closed(d.body);
        }
    }
    let bl_lines = block_lines(d);
    assert(bl_lines =~= seq![request_line(d)] + hl + seq![Seq::<char>::empty()] + bl);
    assert forall|j: int| 0 <= j < bl_lines.len() implies !is_separator_line(#[trigger] bl_lines[j]) by {
        if j == 0 {
        } else if j < 1 + hl.len() {
            assert(bl_lines[j] == hl[j - 1]);
        } else if j == 1 + hl.len() {
        } else {
            assert(bl_lines[j] == bl[j - 2 - hl.len()]);
            if d.body.last() == '\n' && j - 2 - hl.len() == lines(d.body).len() {
                assert(bl[j - 2 - hl.len()] == Seq::<char>::empty());
            } else {
                assert(bl[j - 2 - hl.len()] == lines(d.body)[j - 2 - hl.len()]);
            }
        }
    }
}

/// The blocks of a rendered file: each request's block, the ones before the last followed by
/// the empty line written between requests.
pub open spec fn rendered_blocks(rs: Seq<DraftView>) -> Seq<Seq<Seq<char>>> {
    Seq::new(
        rs.len(),
        |i: int|
            block_lines(rs[i]) + (if i + 1 < rs.len() {
                seq![Seq::<char>::empty()]
            } else {
                Seq::<Seq<char>>::empty()
            }),
    )
}

proof fn lemma_split_rendered(rs: Seq<DraftView>)
    requires
        rs.len() > 0,
        forall|i: int| 0 <= i < rs.len() ==> saveable(#[trigger] rs[i]),
    ensures
        split_blocks(rendered_lines(rs)) == (
            Seq::new((rs.len() - 1) as nat, |i: int| block_lines(rs[i]).push(Seq::<char>::empty())),
            block_lines(rs.last()),
        ),
    decreases rs.len(),
{
    reveal_strlit("### ");
    reveal_strlit("###");
    let d = rs.last();
    let t = "### "@ + d.title;
    assert(saveable(d));
    lemma_block_plain(d);
    assert(is_separator_line(t)) by {
        assert(t[0] == '#');
        assert(!is_ws(t[0]));
        assert(ws_prefix_len(t) == 0);
        assert(trim_start(t) =~= t);
        assert(t.take(3) =~= "###"@);
    }
    lemma_empty_line_plain();
    let prev = rs.drop_last();
    if rs.len() == 1 {
        assert(rendered_lines(prev) =~= Seq::<Seq<char>>::empty());
        assert(rendered_lines(rs) =~= seq![t] + block_lines(d));
        assert(split_blocks(Seq::<Seq<char>>::empty()) == (Seq::<Seq<Seq<char>>>::empty(), Seq::<Seq<char>>::empty()));
        assert(seq![t].drop_last() =~= Seq::<Seq<char>>::empty());
        assert(split_blocks(seq![t]) == (Seq::<Seq<Seq<char>>>::empty(), Seq::<Seq<char>>::empty()));
        lemma_split_blocks_append(seq![t], block_lines(d));
        assert(Seq::<Seq<char>>::empty() + block_lines(d) =~= block_lines(d));
        assert(Seq::new(0, |i: int| block_lines(rs[i]).push(Seq::<char>::empty())) =~= Seq::<Seq<Seq<char>>>::empty());
    } else {
        assert forall|i: int| 0 <= i < prev.len() implies saveable(#[trigger] prev[i]) by {
            assert(prev[i] == rs[i]);
        }
        lemma_split_rendered(prev);
        let rp = rendered_lines(prev);
        let (bs, cur) = split_blocks(rp);
        let e = seq![Seq::<char>::empty()];
        assert(no_separators(e));
        lemma_split_blocks_append(rp, e);
        let with_sep = (rp + e).push(t);
        assert(with_sep.drop_last() =~= rp + e);
        assert(split_blocks(with_sep) == (bs.push(cur + e), Seq::<Seq<char>>::empty()));
        lemma_split_blocks_append(with_sep, block_lines(d));
        assert(rendered_lines(rs) =~= with_sep + block_lines(d));
        assert(Seq::<Seq<char>>::empty() + block_lines(d) =~= block_lines(d));
        assert(cur + e =~= block_lines(prev.last()).push(Seq::<char>::empty()));
        assert(bs.push(cur + e) =~= Seq::new((rs.len() - 1) as nat, |i: int| block_lines(rs[i]).push(Seq::<char>::empty())));
    }
}

/// The blocks of a rendered file.
proof fn lemma_rendered_blocks(rs: Seq<DraftView>)
    requires
        forall|i: int| 0 <= i < rs.len() ==> saveable(#[trigger] rs[i]),
    ensures
        blocks_of(rendered_lines(rs)) == rendered_blocks(rs),
{
    if rs.len() == 0 {
        assert(rendered_lines(rs) =~= Seq::<Seq<char>>::empty());
        assert(rendered_blocks(rs) =~= Seq::<Seq<Seq<char>>>::empty());
    } else {
        lemma_split_rendered(rs);
        lemma_block_plain(rs.last());
        let n = rs.len();
        let bs = Seq::new((n - 1) as nat, |i: int| block_lines(rs[i]).push(Seq::<char>::empty()));
        assert(blocks_of(rendered_lines(rs)) == bs.push(block_lines(rs.last())));
        assert forall|i: int| 0 <= i < n implies #[trigger] rendered_blocks(rs)[i] == bs.push(block_lines(rs.last()))[i] by {
            if i + 1 < n {
                assert(rendered_blocks(rs)[i] =~= block_lines(rs[i]).push(Seq::<char>::empty()));
            } else {
                assert(rendered_blocks(rs)[i] =~= block_lines(rs[i]));
            }
        }
        assert(blocks_of(rendered_lines(rs)) =~= rendered_blocks(rs));
    }
}

proof fn lemma_first_blank(a: Seq<Seq<char>>, b: Seq<Seq<char>>)
    requires
        forall|j: int| 0 <= j < a.len() ==> !is_blank_line(#[trigger] a[j]),
    ensures
        first_blank_index(a + seq![Seq::<char>::empty()] + b) == a.len(),
    decreases a.len(),
{
    lemma_empty_line_plain();
    let s = a + seq![Seq::<char>::empty()] + b;
    if a.len() == 0 {
        assert(s[0] == Seq::<char>::empty());
    } else {
        assert(s[0] == a[0]);
        assert(s.drop_first() =~= a.drop_first() + seq![Seq::<char>::empty()] + b);
        assert forall|j: int| 0 <= j < a.drop_first().len() implies !is_blank_line(#[trigger] a.drop_first()[j]) by {
            assert(a.drop_first()[j] == a[j + 1]);
        }
        lemma_first_blank(a.drop_first(), b);
    }
}

/// The request line reads back as its method's name and the URL.
proof fn lemma_request_line_parts(d: DraftView)
    requires
        saveable(d),
    ensures
        (match split_once(trim(request_line(d)), ' ') {
            Some(p) => p,
            None => (trim(request_line(d)), Seq::<char>::empty()),
        }) == (method_name(d.method), d.url),
{
    let m = method_name(d.method);
    let u = d.url;
    let r = request_line(d);
    lemma_method_names(d.method);
    lemma_request_line_plain(d);
    assert(trim(r) == trim_end(r));
    if u.len() > 0 {
        lemma_trimmed_end(u);
        assert(r.last() == u.last());
        assert(ws_suffix_len(r) == 0);
        assert(trim_end(r) =~= r);
        assert forall|j: int| 0 <= j < m.len() implies r[j] != ' ' by {
            assert(r[j] == m[j]);
        }
        lemma_first_index_of_unique(r, ' ', m.len() as int);
        assert(r.take(m.len() as int) =~= m);
        assert(r.skip(m.len() as int + 1) =~= u);
    } else {
        assert(r =~= m + seq![' ']);
        assert(r.drop_last() =~= m);
        assert(is_ws(r.last()));
        assert(!is_ws(m.last()));
        assert(ws_suffix_len(m) == 0);
        assert(ws_suffix_len(r) == 1);
        assert(trim_end(r) =~= m);
        lemma_first_index_of_unique(m, ' ', m.len() as int);
    }
}

/// A block reads back as the request it was written from: the URL is also the title, the
/// headers lose their trailing whitespace, and a body followed by the empty line written
/// before the next request keeps it as a final newline.
proof fn lemma_parse_block(d: DraftView, tail: bool)
    requires
        saveable(d),
    ensures
        parse_block(
            block_lines(d) + (if tail {
                seq![Seq::<char>::empty()]
            } else {
                Seq::<Seq<char>>::empty()
            }),
        ) == Some(
            DraftView {
                title: d.url,
                method: method_from_name(method_name(d.method)),
                url: d.url,
                headers: trim_end(d.headers),
                body: d.body + (if tail && d.body.len() > 0 {
                    newline()
                } else {
                    Seq::<char>::empty()
                }),
            },
        ),
{
    let h = trim_end(d.headers);
    let hl = if h.len() > 0 {
        lines(h)
    } else {
        Seq::<Seq<char>>::empty()
    };
    let bl = if d.body.len() > 0 {
        lines(d.body + newline())
    } else {
        Seq::<Seq<char>>::empty()
    };
    let tl = if tail {
        seq![Seq::<char>::empty()]
    } else {
        Seq::<Seq<char>>::empty()
    };
    let blk = block_lines(d) + tl;
    assert(blk =~= seq![request_line(d)] + (hl + seq![Seq::<char>::empty()] + (bl + tl)));
    lemma_request_line_plain(d);
    lemma_empty_line_plain();
    assert(blank_prefix_len(blk) == 0);
    assert(blk[0] == request_line(d));
    lemma_request_line_parts(d);
    let rest = blk.skip(1);
    assert(rest =~= hl + seq![Seq::<char>::empty()] + (bl + tl));
    assert(forall|j: int| 0 <= j < hl.len() ==> !is_blank_line(#[trigger] hl[j]));
    lemma_first_blank(hl, bl + tl);
    assert(rest.take(hl.len() as int) =~= hl);
    assert(rest.skip(hl.len() as int + 1) =~= bl + tl);
    // the headers
    if h.len() > 0 {
        lemma_ws_suffix_stop(d.headers);
        assert(h.last() == d.headers[h.len() - 1]);
        lemma_lines_closed(h);
        assert forall|j: int| 0 <= j < h.len() implies h[j] != '\r' by {
            assert(h[j] == d.headers[j]);
        }
        lemma_join_lines(h);
    } else {
        assert(join(hl, newline()) =~= h);
    }
    // the body
    if d.body.len() > 0 {
        lemma_join_lines(d.body);
        if tail {
            assert((bl + tl).drop_last() =~= bl);
            assert(join(bl + tl, newline()) == join(bl, newline()) + newline() + Seq::<char>::empty());
            assert(join(bl + tl, newline()) =~= d.body + newline());
        } else {
            assert(bl + tl =~= bl);
        }
    } else {
        if tail {
            assert(bl + tl =~= seq![Seq::<char>::empty()]);
            assert(join(bl + tl, newline()) =~= d.body);
        } else {
            assert(bl + tl =~= Seq::<Seq<char>>::empty());
            assert(join(bl + tl, newline()) =~= d.body);
        }
    }
}

/// What a save writes, a scan reads back: the requests parsed from the text rendered for
/// `rs` are as many as `rs`, each with its method, its URL (also as the
/// title), its headers without trailing whitespace, and its body (with the newline of the
/// empty line written before the next request, when it has a body).
pub proof fn lemma_saved_requests_read_back(rs: Seq<DraftView>)
    requires
        forall|i: int| 0 <= i < rs.len() ==> saveable(#[trigger] rs[i]),
    ensures
        parse_http_text(render_requests(rs)).len() == rs.len(),
        forall|i: int|
            0 <= i < rs.len() ==> #[trigger] parse_http_text(render_requests(rs))[i] == (DraftView {
                title: rs[i].url,
                method: rs[i].method,
                url: rs[i].url,
                headers: trim_end(rs[i].headers),
                body: rs[i].body + (if i + 1 < rs.len() && rs[i].body.len() > 0 {
                    newline()
                } else {
                    Seq::<char>::empty()
                }),
            }),
{
    lemma_rendered_lines(rs);
    lemma_rendered_blocks(rs);
    let bs = rendered_blocks(rs);
    assert(blocks_of(lines(render_requests(rs))) == bs);
    assert forall|i: int| 0 <= i < rs.len() implies #[trigger] parse_http_text(render_requests(rs))[i] == (DraftView {
        title: rs[i].url,
        method: rs[i].method,
        url: rs[i].url,
        headers: trim_end(rs[i].headers),
        body: rs[i].body + (if i + 1 < rs.len() && rs[i].body.len() > 0 {
            newline()
        } else {
            Seq::<char>::empty()
        }),
    }) by {
        lemma_parse_block(rs[i], i + 1 < rs.len());
        lemma_method_name_reads_back(rs[i].method);
    }
}

} // verus!
