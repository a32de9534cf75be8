//! Indenting HTML for display. `scraper` (html5ever) parses the text; the tree it builds is
//! copied into `HtmlNode` values and written back out with one element per line.
use vstd::prelude::*;

use crate::response::HtmlParseMode;
use crate::text::{append_chars, chars_of, contains, contains_sub, lower_seq, lowercase, str_eq, trim, trimmed};

verus! {

#[verifier::external_type_specification]
#[verifier::external_body]
pub struct ExScraperNode(scraper::Node);

#[verifier::external_type_specification]
#[verifier::external_body]
pub struct ExScraperDoctype(scraper::node::Doctype);

#[verifier::external_type_specification]
#[verifier::external_body]
pub struct ExScraperElement(scraper::node::Element);

#[verifier::external_type_specification]
#[verifier::external_body]
#[verifier::reject_recursive_types(T)]
pub struct ExNodeRef<'a, T: 'a>(ego_tree::NodeRef<'a, T>);

/// A node of a parsed HTML tree.
#[derive(Debug)]
pub enum HtmlNode {
    Document(Vec<HtmlNode>),
    Fragment(Vec<HtmlNode>),
    Doctype { name: String, public_id: String, system_id: String },
    Comment(String),
    Text(String),
    Element { name: String, attrs: Vec<(String, String)>, children: Vec<HtmlNode> },
    ProcessingInstruction,
}

/// The tree `scraper::Html::parse_document` builds for a text.
pub uninterp spec fn html_document_tree(text: Seq<char>) -> HtmlNode;

/// The tree `scraper::Html::parse_fragment` builds for a text.
pub uninterp spec fn html_fragment_tree(text: Seq<char>) -> HtmlNode;

/// The children of a parsed node, copied.
#[verifier::external_body]
fn children_of(node: ego_tree::NodeRef<'_, scraper::Node>) -> Vec<HtmlNode> {
    let mut children = Vec::new();
    for child in node.children() {
        children.push(node_of(child));
    }
    children
}

/// A parsed node and its subtree, copied node for node.
#[verifier::external_body]
fn node_of(node: ego_tree::NodeRef<'_, scraper::Node>) -> HtmlNode {
    match node.value() {
        scraper::Node::Document => HtmlNode::Document(children_of(node)),
        scraper::Node::Fragment => HtmlNode::Fragment(children_of(node)),
        scraper::Node::Doctype(d) => doctype_of(d),
        scraper::Node::Comment(c) => HtmlNode::Comment(c.to_string()),
        scraper::Node::Text(t) => HtmlNode::Text(t.to_string()),
        scraper::Node::Element(e) => element_of(e, children_of(node)),
        scraper::Node::ProcessingInstruction(_) => HtmlNode::ProcessingInstruction,
    }
}

/// A parsed doctype, copied.
#[verifier::external_body]
fn doctype_of(d: &scraper::node::Doctype) -> HtmlNode {
    HtmlNode::Doctype { name: d.name.to_string(), public_id: d.public_id.to_string(), system_id: d.system_id.to_string() }
}

/// A parsed element with its copied children: its local name and its attributes, each by
/// local name.
#[verifier::external_body]
fn element_of(e: &scraper::node::Element, children: Vec<HtmlNode>) -> HtmlNode {
    let attrs = e.attrs.iter().map(|(k, v)| (k.local.to_string(), v.to_string())).collect();
    HtmlNode::Element { name: e.name.local.to_string(), attrs, children }
}

/// `scraper::Html::parse_document`, as a tree of plain values.
#[verifier::external_body]
fn parse_html_document(text: &str) -> (r: HtmlNode)
    ensures
        r == html_document_tree(text@),
{
    node_of(scraper::Html::parse_document(text).tree.root())
}

/// `scraper::Html::parse_fragment`, as a tree of plain values.
#[verifier::external_body]
fn parse_html_fragment(text: &str) -> (r: HtmlNode)
    ensures
        r == html_fragment_tree(text@),
{
    node_of(scraper::Html::parse_fragment(text).tree.root())
}

// ---------------------------------------------------------------------------
// Writing a tree out
// ---------------------------------------------------------------------------

/// Elements that have no closing tag.
pub open spec fn is_void_tag(n: Seq<char>) -> bool {
    n == "area"@ || n == "base"@ || n == "br"@ || n == "col"@ || n == "embed"@ || n == "hr"@
        || n == "img"@ || n == "input"@ || n == "link"@ || n == "meta"@ || n == "param"@
        || n == "source"@ || n == "track"@ || n == "wbr"@
}

/// Elements whose content is kept as it is.
pub open spec fn is_preformatted_tag(n: Seq<char>) -> bool {
    n == "pre"@ || n == "code"@ || n == "textarea"@ || n == "script"@ || n == "style"@
}

/// A character of an attribute value, escaped.
pub open spec fn escape_char(c: char) -> Seq<char> {
    if c == '&' {
        "&amp;"@
    } else if c == '<' {
        "&lt;"@
    } else if c == '>' {
        "&gt;"@
    } else if c == '"' {
        "&quot;"@
    } else {
        seq![c]
    }
}

/// An attribute value with `&`, `<`, `>` and `"` escaped.
pub open spec fn escape_attr(v: Seq<char>) -> Seq<char>
    decreases v.len(),
{
    if v.len() == 0 {
        Seq::empty()
    } else {
        escape_attr(v.drop_last()) + escape_char(v.last())
    }
}

/// The attributes of an element as written in its opening tag.
pub open spec fn attrs_text(attrs: Seq<(String, String)>) -> Seq<char>
    decreases attrs.len(),
{
    if attrs.len() == 0 {
        Seq::empty()
    } else {
        attrs_text(attrs.drop_last()) + " "@ + attrs.last().0@ + "=\""@ + escape_attr(attrs.last().1@) + "\""@
    }
}

pub open spec fn ends_with_newline(s: Seq<char>) -> bool {
    s.len() > 0 && s.last() == '\n'
}

/// The output with a line break, when indenting and not at the start of a line.
pub open spec fn break_line(out: Seq<char>, should_indent: bool) -> Seq<char> {
    if should_indent && !ends_with_newline(out) && out.len() > 0 {
        out.push('\n')
    } else {
        out
    }
}

/// Whether the children of an element go on lines of their own: when one is an element, or
/// when there is text among several children.
pub open spec fn children_indent(cs: Seq<HtmlNode>) -> bool {
    (exists|i: int| 0 <= i < cs.len() && cs[i] is Element) || ((exists|i: int|
        0 <= i < cs.len() && cs[i] is Text) && cs.len() > 1)
}

/// What writing `node` appends to `out`: `pad` is the indentation of its lines,
/// `preformatted` whether it lies inside an element whose content is kept as it is, and
/// `should_indent` whether it starts a line of its own.
pub open spec fn fmt_node(node: HtmlNode, out: Seq<char>, pad: Seq<char>, preformatted: bool, should_indent: bool) -> Seq<char>
    decreases node, 0nat,
{
    match node {
        HtmlNode::Document(cs) => fmt_seq(cs@, cs@.len(), out, pad, preformatted, should_indent),
        HtmlNode::Fragment(cs) => fmt_seq(cs@, cs@.len(), out, pad, preformatted, should_indent),
        HtmlNode::Doctype { name, public_id, system_id } => out + "<!DOCTYPE "@ + name@ + (if public_id@.len() > 0 {
            " PUBLIC \""@ + public_id@ + "\""@
        } else {
            Seq::empty()
        }) + (if system_id@.len() > 0 {
            (if public_id@.len() == 0 {
                " SYSTEM \""@
            } else {
                " \""@
            }) + system_id@ + "\""@
        } else {
            Seq::empty()
        }) + ">\n"@,
        HtmlNode::Text(t) => if preformatted {
            out + t@
        } else if trim(t@).len() == 0 {
            out
        } else if should_indent && !ends_with_newline(out) && out.len() > 0 {
            out.push('\n') + pad + t@
        } else {
            out + t@
        },
        HtmlNode::Element { name, attrs, children } => {
            let o1 = break_line(out, should_indent);
            let o2 = if should_indent {
                o1 + pad
            } else {
                o1
            };
            let o3 = o2 + "<"@ + name@ + attrs_text(attrs@) + (if is_void_tag(name@) {
                " />"@
            } else {
                ">"@
            });
            let ci = children_indent(children@);
            let o4 = fmt_seq(
                children@,
                children@.len(),
                o3,
                if ci {
                    pad + "  "@
                } else {
                    Seq::empty()
                },
                preformatted || is_preformatted_tag(name@),
                ci,
            );
            if is_void_tag(name@) {
                o4
            } else {
                let o5 = if ci && !ends_with_newline(o4) {
                    o4.push('\n')
                } else {
                    o4
                };
                let o6 = if ci {
                    o5 + pad
                } else {
                    o5
                };
                o6 + "</"@ + name@ + ">"@
            }
        },
        HtmlNode::Comment(c) => {
            let o1 = break_line(out, should_indent);
            let o2 = if should_indent {
                o1 + pad
            } else {
                o1
            };
            o2 + "<!--"@ + c@ + "-->"@
        },
        HtmlNode::ProcessingInstruction => out,
    }
}

/// Writing the first `k` of `cs` in turn.
pub open spec fn fmt_seq(cs: Seq<HtmlNode>, k: nat, out: Seq<char>, pad: Seq<char>, preformatted: bool, should_indent: bool) -> Seq<char>
    decreases cs, k,
{
    if k == 0 || k > cs.len() {
        out
    } else {
        fmt_node(
            cs[k - 1],
            fmt_seq(cs, (k - 1) as nat, out, pad, preformatted, should_indent),
            pad,
            preformatted,
            should_indent,
        )
    }
}

fn push_lit(out: &mut Vec<char>, s: &str)
    ensures
        final(out)@ == old(out)@ + s@,
{
    let v = chars_of(s);
    append_chars(out, &v);
}

fn push_text(out: &mut Vec<char>, s: &String)
    ensures
        final(out)@ == old(out)@ + s@,
{
    let v = chars_of(s.as_str());
    append_chars(out, &v);
}

fn is_void(name: &str) -> (r: bool)
    ensures
        r == is_void_tag(name@),
{
    str_eq(name, "area") || str_eq(name, "base") || str_eq(name, "br") || str_eq(name, "col") || str_eq(
        name,
        "embed",
    ) || str_eq(name, "hr") || str_eq(name, "img") || str_eq(name, "input") || str_eq(name, "link")
        || str_eq(name, "meta") || str_eq(name, "param") || str_eq(name, "source") || str_eq(
        name,
        "track",
    ) || str_eq(name, "wbr")
}

fn is_preformatted(name: &str) -> (r: bool)
    ensures
        r == is_preformatted_tag(name@),
{
    str_eq(name, "pre") || str_eq(name, "code") || str_eq(name, "textarea") || str_eq(name, "script")
        || str_eq(name, "style")
}

/// Appends an attribute value, escaped.
fn push_escaped(out: &mut Vec<char>, v: &String)
    ensures
        final(out)@ == old(out)@ + escape_attr(v@),
{
    let cs = chars_of(v.as_str());
    let mut i: usize = 0;
    while i < cs.len()
        invariant
            i <= cs@.len(),
            cs@ == v@,
            out@ == old(out)@ + escape_attr(cs@.take(i as int)),
        decreases cs.len() - i,
    {
        let ghost t = cs@.take(i + 1);
        assert(t.drop_last() =~= cs@.take(i as int));
        let c = cs[i];
        if c == '&' {
            push_lit(out, "&amp;");
        } else if c == '<' {
            push_lit(out, "&lt;");
        } else if c == '>' {
            push_lit(out, "&gt;");
        } else if c == '"' {
            push_lit(out, "&quot;");
        } else {
            out.push(c);
        }
        assert(out@ =~= old(out)@ + escape_attr(t));
        i = i + 1;
    }
    assert(cs@.take(cs@.len() as int) =~= cs@);
}

/// Appends the attributes of an element.
fn push_attrs(out: &mut Vec<char>, attrs: &Vec<(String, String)>)
    ensures
        final(out)@ == old(out)@ + attrs_text(attrs@),
{
    let mut i: usize = 0;
    while i < attrs.len()
        invariant
            i <= attrs@.len(),
            out@ == old(out)@ + attrs_text(attrs@.take(i as int)),
        decreases attrs.len() - i,
    {
        let ghost t = attrs@.take(i + 1);
        assert(t.drop_last() =~= attrs@.take(i as int));
        assert(t.last() == attrs@[i as int]);
        out.push(' ');
        push_text(out, &attrs[i].0);
        push_lit(out, "=\"");
        push_escaped(out, &attrs[i].1);
        out.push('"');
        proof {
            reveal_strlit(" ");
            reveal_strlit("\"");
        }
        assert(out@ =~= old(out)@ + attrs_text(t));
        i = i + 1;
    }
    assert(attrs@.take(attrs@.len() as int) =~= attrs@);
}

fn ends_nl(out: &Vec<char>) -> (r: bool)
    ensures
        r == ends_with_newline(out@),
{
    out.len() > 0 && out[out.len() - 1] == '\n'
}

/// Whether the children of an element go on lines of their own.
fn indent_children(cs: &Vec<HtmlNode>) -> (r: bool)
    ensures
        r == children_indent(cs@),
{
    let mut has_text = false;
    let mut has_element = false;
    let mut i: usize = 0;
    while i < cs.len()
        invariant
            i <= cs@.len(),
            has_text == exists|j: int| 0 <= j < i && cs@[j] is Text,
            has_element == exists|j: int| 0 <= j < i && cs@[j] is Element,
        decreases cs.len() - i,
    {
        match &cs[i] {
            HtmlNode::Text(_) => {
                has_text = true;
            },
            HtmlNode::Element { .. } => {
                has_element = true;
            },
            _ => {},
        }
        i = i + 1;
    }
    has_element || (has_text && cs.len() > 1)
}

/// Writes `node`: elements and comments on lines of their own when `should_indent`, text
/// inside preformatted elements as it is, and white-space-only text elsewhere dropped.
pub fn format_node(node: &HtmlNode, out: &mut Vec<char>, pad: &Vec<char>, preformatted: bool, should_indent: bool)
    ensures
        final(out)@ == fmt_node(*node, old(out)@, pad@, preformatted, should_indent),
    decreases node, 2nat,
{
    match node {
        HtmlNode::Document(cs) => {
            format_children(cs, out, pad, preformatted, should_indent);
            assert(fmt_node(*node, old(out)@, pad@, preformatted, should_indent) == fmt_seq(
                cs@,
                cs@.len(),
                old(out)@,
                pad@,
                preformatted,
                should_indent,
            ));
        },
        HtmlNode::Fragment(cs) => {
            format_children(cs, out, pad, preformatted, should_indent);
            assert(fmt_node(*node, old(out)@, pad@, preformatted, should_indent) == fmt_seq(
                cs@,
                cs@.len(),
                old(out)@,
                pad@,
                preformatted,
                should_indent,
            ));
        },
        HtmlNode::Doctype { name, public_id, system_id } => {
            push_lit(out, "<!DOCTYPE ");
            push_text(out, name);
            let pid_empty = public_id.unicode_len() == 0;
            let sid_empty = system_id.unicode_len() == 0;
            if !pid_empty {
                push_lit(out, " PUBLIC \"");
                push_text(out, public_id);
                push_lit(out, "\"");
            }
            if !sid_empty {
                if pid_empty {
                    push_lit(out, " SYSTEM \"");
                } else {
                    push_lit(out, " \"");
                }
                push_text(out, system_id);
                push_lit(out, "\"");
            }
            push_lit(out, ">\n");
            assert(out@ == fmt_node(*node, old(out)@, pad@, preformatted, should_indent));
        },
        HtmlNode::Text(t) => {
            if preformatted {
                push_text(out, t);
            } else {
                let tv = chars_of(t.as_str());
                let tt = trimmed(&tv);
                if tt.len() > 0 {
                    if should_indent && !ends_nl(out) && out.len() > 0 {
                        out.push('\n');
                        append_chars(out, pad);
                    }
                    push_text(out, t);
                }
            }
            assert(out@ == fmt_node(*node, old(out)@, pad@, preformatted, should_indent));
        },
        HtmlNode::Element { .. } => {
            format_element(node, out, pad, preformatted, should_indent);
        },
        HtmlNode::Comment(c) => {
            if should_indent && !ends_nl(out) && out.len() > 0 {
                out.push('\n');
            }
            if should_indent {
                append_chars(out, pad);
            }
            push_lit(out, "<!--");
            push_text(out, c);
            push_lit(out, "-->");
            assert(out@ == fmt_node(*node, old(out)@, pad@, preformatted, should_indent));
        },
        HtmlNode::ProcessingInstruction => {},
    }
}

/// Writes an element: its opening tag, its children, and its closing tag unless it is void.
fn format_element(node: &HtmlNode, out: &mut Vec<char>, pad: &Vec<char>, preformatted: bool, should_indent: bool)
    requires
        node is Element,
    ensures
        final(out)@ == fmt_node(*node, old(out)@, pad@, preformatted, should_indent),
    decreases node, 1nat,
{
    if let HtmlNode::Element { name, attrs, children } = node {
        proof {
            reveal_strlit("<");
            reveal_strlit(">");
            reveal_strlit("  ");
        }
        let ghost o0 = out@;
        let void = is_void(name.as_str());
        if should_indent && !ends_nl(out) && out.len() > 0 {
            out.push('\n');
        }
        let ghost o1 = out@;
        assert(o1 == break_line(o0, should_indent));
        if should_indent {
            append_chars(out, pad);
        }
        let ghost o2 = out@;
        out.push('<');
        push_text(out, name);
        push_attrs(out, attrs);
        if void {
            push_lit(out, " />");
        } else {
            out.push('>');
        }
        let ghost o3 = out@;
        assert(o3 =~= o2 + "<"@ + name@ + attrs_text(attrs@) + (if is_void_tag(name@) {
            " />"@
        } else {
            ">"@
        }));
        let ci = indent_children(children);
        let child_pre = preformatted || is_preformatted(name.as_str());
        let mut child_pad: Vec<char> = Vec::new();
        if ci {
            append_chars(&mut child_pad, pad);
            child_pad.push(' ');
            child_pad.push(' ');
            assert(child_pad@ =~= pad@ + "  "@);
        }
        format_children(children, out, &child_pad, child_pre, ci);
        let ghost o4 = out@;
        assert(o4 == fmt_seq(
            children@,
            children@.len(),
            o3,
            if ci {
                pad@ + "  "@
            } else {
                Seq::empty()
            },
            preformatted || is_preformatted_tag(name@),
            ci,
        ));
        if !void {
            if ci && !ends_nl(out) {
                out.push('\n');
            }
            if ci {
                append_chars(out, pad);
            }
            let ghost o6 = out@;
            push_lit(out, "</");
            push_text(out, name);
            out.push('>');
            assert(out@ =~= o6 + "</"@ + name@ + ">"@);
        }
        assert(out@ == fmt_node(*node, old(out)@, pad@, preformatted, should_indent));
    
    }
}

/// Writes the children of a node in turn.
fn format_children(cs: &Vec<HtmlNode>, out: &mut Vec<char>, pad: &Vec<char>, preformatted: bool, should_indent: bool)
    ensures
        final(out)@ == fmt_seq(cs@, cs@.len(), old(out)@, pad@, preformatted, should_indent),
    decreases cs, 0nat,
{
    let mut i: usize = 0;
    while i < cs.len()
        invariant
            i <= cs@.len(),
            out@ == fmt_seq(cs@, i as nat, old(out)@, pad@, preformatted, should_indent),
        decreases cs.len() - i,
    {
        format_node(&cs[i], out, pad, preformatted, should_indent);
        i = i + 1;
    }
}


// ---------------------------------------------------------------------------
// Whole texts
// ---------------------------------------------------------------------------

/// The children of a node.
pub open spec fn node_children(n: HtmlNode) -> Seq<HtmlNode> {
    match n {
        HtmlNode::Document(cs) => cs@,
        HtmlNode::Fragment(cs) => cs@,
        HtmlNode::Element { children, .. } => children@,
        _ => Seq::empty(),
    }
}

pub open spec fn is_element_named(n: HtmlNode, tag: Seq<char>) -> bool {
    n matches HtmlNode::Element { name, .. } && name@ == tag
}

/// How many of `cs` are elements.
pub open spec fn count_elements(cs: Seq<HtmlNode>) -> nat
    decreases cs.len(),
{
    if cs.len() == 0 {
        0
    } else {
        count_elements(cs.drop_last()) + (if cs.last() is Element {
            1nat
        } else {
            0nat
        })
    }
}

/// Index of the first of `cs` that satisfies `is_element_named(_, tag)`, or of the first
/// element when `tag` is `None`; -1 when there is none.
pub open spec fn first_element(cs: Seq<HtmlNode>, tag: Option<Seq<char>>) -> int
    decreases cs.len(),
{
    if cs.len() == 0 {
        -1
    } else {
        let r = first_element(cs.drop_last(), tag);
        if r >= 0 {
            r
        } else if (match tag {
            Some(t) => is_element_named(cs.last(), t),
            None => cs.last() is Element,
        }) {
            cs.len() - 1
        } else {
            -1
        }
    }
}

/// Writing the root of a parsed fragment. html5ever wraps a fragment in an `html` element:
/// when that is the only element, its `body` is written (the body itself when the text
/// had a `<body` tag, its children otherwise), or its children when there is no body.
pub open spec fn fragment_root_spec(root: HtmlNode, raw_has_body_tag: bool) -> Seq<char> {
    let cs = node_children(root);
    let e = first_element(cs, None);
    if count_elements(cs) == 1 && is_element_named(cs[e], "html"@) {
        let hc = node_children(cs[e]);
        let b = first_element(hc, Some("body"@));
        if b >= 0 {
            if raw_has_body_tag {
                fmt_node(hc[b], Seq::empty(), Seq::empty(), false, false)
            } else {
                let bc = node_children(hc[b]);
                fmt_seq(bc, bc.len(), Seq::empty(), Seq::empty(), false, false)
            }
        } else {
            fmt_seq(hc, hc.len(), Seq::empty(), Seq::empty(), false, false)
        }
    } else {
        fmt_seq(cs, cs.len(), Seq::empty(), Seq::empty(), false, false)
    }
}

/// A text indented as HTML: empty when the text is blank; otherwise the trimmed text is
/// parsed as a document or a fragment and written out.
pub open spec fn pretty_html_spec(raw: Seq<char>, mode: HtmlParseMode) -> Seq<char> {
    let t = trim(raw);
    if t.len() == 0 {
        Seq::empty()
    } else {
        match mode {
            HtmlParseMode::Document => fmt_node(html_document_tree(t), Seq::empty(), Seq::empty(), false, false),
            HtmlParseMode::Fragment => fragment_root_spec(html_fragment_tree(t), contains(lower_seq(t), "<body"@)),
        }
    }
}

/// How many of `cs` are elements, and the index of the first one.
fn elements_in(cs: &Vec<HtmlNode>) -> (r: (usize, Option<usize>))
    ensures
        r.0 == count_elements(cs@),
        match r.1 {
            Some(i) => i as int == first_element(cs@, None) && i < cs@.len(),
            None => first_element(cs@, None) == -1,
        },
{
    let mut count: usize = 0;
    let mut first: Option<usize> = None;
    let mut i: usize = 0;
    while i < cs.len()
        invariant
            i <= cs@.len(),
            count == count_elements(cs@.take(i as int)),
            count <= i,
            match first {
                Some(f) => f as int == first_element(cs@.take(i as int), None) && f < i,
                None => first_element(cs@.take(i as int), None) == -1,
            },
        decreases cs.len() - i,
    {
        let ghost t = cs@.take(i + 1);
        assert(t.drop_last() =~= cs@.take(i as int));
        assert(t.last() == cs@[i as int]);
        if let HtmlNode::Element { .. } = &cs[i] {
            count = count + 1;
            if first.is_none() {
                first = Some(i);
            }
        }
        i = i + 1;
    }
    assert(cs@.take(cs@.len() as int) =~= cs@);
    (count, first)
}

proof fn lemma_first_element(s: Seq<HtmlNode>, tag: Option<Seq<char>>)
    ensures
        -1 <= first_element(s, tag) < s.len(),
        first_element(s, tag) >= 0 ==> match tag {
            Some(t) => is_element_named(s[first_element(s, tag)], t),
            None => s[first_element(s, tag)] is Element,
        },
    decreases s.len(),
{
    if s.len() > 0 {
        lemma_first_element(s.drop_last(), tag);
    }
}

proof fn lemma_count_elements(s: Seq<HtmlNode>)
    ensures
        count_elements(s) > 0 ==> first_element(s, None) >= 0,
    decreases s.len(),
{
    if s.len() > 0 {
        lemma_count_elements(s.drop_last());
    }
}

proof fn lemma_first_element_prefix(s: Seq<HtmlNode>, tag: Option<Seq<char>>, k: int)
    requires
        0 <= k <= s.len(),
        first_element(s.take(k), tag) >= 0,
    ensures
        first_element(s, tag) == first_element(s.take(k), tag),
    decreases s.len() - k,
{
    if k == s.len() {
        assert(s.take(k) =~= s);
    } else {
        assert(s.drop_last().take(k) =~= s.take(k));
        lemma_first_element_prefix(s.drop_last(), tag, k);
    }
}

/// Index of the first `body` element among `cs`.
fn find_body(cs: &Vec<HtmlNode>) -> (r: Option<usize>)
    ensures
        match r {
            Some(i) => i as int == first_element(cs@, Some("body"@)) && i < cs@.len(),
            None => first_element(cs@, Some("body"@)) == -1,
        },
{
    let mut i: usize = 0;
    while i < cs.len()
        invariant
            i <= cs@.len(),
            first_element(cs@.take(i as int), Some("body"@)) == -1,
        decreases cs.len() - i,
    {
        let ghost t = cs@.take(i + 1);
        assert(t.drop_last() =~= cs@.take(i as int));
        assert(t.last() == cs@[i as int]);
        if let HtmlNode::Element { name, .. } = &cs[i] {
            if str_eq(name.as_str(), "body") {
                proof {
                    assert(first_element(t, Some("body"@)) == i);
                    lemma_first_element_prefix(cs@, Some("body"@), i + 1);
                }
                return Some(i);
            }
        }
        i = i + 1;
    }
    assert(cs@.take(cs@.len() as int) =~= cs@);
    None
}

/// Writes the children of the `html` element of a fragment, as `fragment_root_spec` says.
fn format_html_element(html: &Vec<HtmlNode>, out: &mut Vec<char>, raw_has_body_tag: bool)
    requires
        old(out)@ == Seq::<char>::empty(),
    ensures
        final(out)@ == (if first_element(html@, Some("body"@)) >= 0 {
            let b = first_element(html@, Some("body"@));
            if raw_has_body_tag {
                fmt_node(html@[b], Seq::empty(), Seq::empty(), false, false)
            } else {
                let bc = node_children(html@[b]);
                fmt_seq(bc, bc.len(), Seq::empty(), Seq::empty(), false, false)
            }
        } else {
            fmt_seq(html@, html@.len(), Seq::empty(), Seq::empty(), false, false)
        }),
{
    let pad: Vec<char> = Vec::new();
    proof {
        lemma_first_element(html@, Some("body"@));
    }
    match find_body(html) {
        Some(b) => {
            if raw_has_body_tag {
                format_node(&html[b], out, &pad, false, false);
            } else {
                match &html[b] {
                    HtmlNode::Element { children, .. } => {
                        format_children(children, out, &pad, false, false);
                    },
                    _ => {},
                }
            }
        },
        None => {
            format_children(html, out, &pad, false, false);
        },
    }
}

/// Writes the root of a parsed fragment.
fn format_fragment_root(root: &HtmlNode, raw_has_body_tag: bool) -> (out: Vec<char>)
    ensures
        out@ == fragment_root_spec(*root, raw_has_body_tag),
{
    let mut out: Vec<char> = Vec::new();
    let pad: Vec<char> = Vec::new();
    let cs = match root {
        HtmlNode::Document(cs) => cs,
        HtmlNode::Fragment(cs) => cs,
        HtmlNode::Element { children, .. } => children,
        _ => {
            assert(fmt_seq(Seq::<HtmlNode>::empty(), 0, Seq::empty(), Seq::empty(), false, false) == Seq::<char>::empty());
            assert(node_children(*root) =~= Seq::<HtmlNode>::empty());
            assert(count_elements(Seq::<HtmlNode>::empty()) == 0);
            return out;
        },
    };
    let (count, first) = elements_in(cs);
    proof {
        lemma_first_element(cs@, None);
        lemma_count_elements(cs@);
    }
    if count == 1 {
        if let Some(e) = first {
            if let HtmlNode::Element { name, children, .. } = &cs[e] {
                if str_eq(name.as_str(), "html") {
                    format_html_element(children, &mut out, raw_has_body_tag);
                    return out;
                }
            }
        }
    }
    format_children(cs, &mut out, &pad, false, false);
    out
}

/// Indents a text as HTML, parsed as a document or a fragment; empty for a blank text.
pub fn pretty_html(raw: &str, mode: HtmlParseMode) -> (r: String)
    ensures
        r@ == pretty_html_spec(raw@, mode),
{
    let v = chars_of(raw);
    let t = trimmed(&v);
    if t.len() == 0 {
        return String::new();
    }
    let text = crate::text::string_of(&t);
    let out = match mode {
        HtmlParseMode::Document => {
            let root = parse_html_document(text.as_str());
            let mut out: Vec<char> = Vec::new();
            let pad: Vec<char> = Vec::new();
            format_node(&root, &mut out, &pad, false, false);
            out
        },
        HtmlParseMode::Fragment => {
            let root = parse_html_fragment(text.as_str());
            let has_body = contains_sub(&lowercase(&t), &chars_of("<body"));
            format_fragment_root(&root, has_body)
        },
    };
    crate::text::string_of(&out)
}

} // verus!
