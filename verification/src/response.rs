//! What the response pane shows: the syntax a response body is in, and its pretty form.
use vstd::prelude::*;

use crate::html::{pretty_html, pretty_html_spec};
use crate::model::ResponsePreview;
use crate::options::{json_from_str, json_parsed, json_valid, json_view, JsonView};
use crate::text::{
    chars_of, contains, contains_sub, eq_ignore_ascii_case, eq_ignore_case, lower_seq, lowercase, slice_range,
    trim_bounds, trim_start,
};

verus! {

#[derive(Debug, Clone, Copy, PartialEq, Eq, Structural)]
pub enum SyntaxKind {
    Json,
    Html,
    Xml,
    JavaScript,
    Css,
    Text,
}

impl SyntaxKind {
    /// The name the highlighter knows the syntax by.
    pub fn as_str(self) -> (r: &'static str)
        ensures
            r@ == match self {
                SyntaxKind::Json => "json"@,
                SyntaxKind::Html => "html"@,
                SyntaxKind::Xml => "xml"@,
                SyntaxKind::JavaScript => "javascript"@,
                SyntaxKind::Css => "css"@,
                SyntaxKind::Text => "text"@,
            },
    {
        match self {
            SyntaxKind::Json => "json",
            SyntaxKind::Html => "html",
            SyntaxKind::Xml => "xml",
            SyntaxKind::JavaScript => "javascript",
            SyntaxKind::Css => "css",
            SyntaxKind::Text => "text",
        }
    }
}

/// Whether HTML is parsed as a whole document or as a fragment.
#[derive(Debug, Clone, Copy, PartialEq, Eq, Structural)]
pub enum HtmlParseMode {
    Document,
    Fragment,
}

#[derive(Debug, Clone, Copy, PartialEq, Eq, Structural)]
pub enum PrettyKind {
    Json,
    Html,
}

/// A body in its pretty form.
#[derive(Debug)]
pub enum PrettyBody {
    Json { pretty: String },
    Html { pretty: String },
}

impl Clone for PrettyBody {
    fn clone(&self) -> (r: Self)
        ensures
            r == *self,
    {
        match self {
            PrettyBody::Json { pretty } => PrettyBody::Json { pretty: pretty.clone() },
            PrettyBody::Html { pretty } => PrettyBody::Html { pretty: pretty.clone() },
        }
    }
}

impl PrettyBody {
    pub fn kind(&self) -> (k: PrettyKind)
        ensures
            k == match self {
                PrettyBody::Json { .. } => PrettyKind::Json,
                PrettyBody::Html { .. } => PrettyKind::Html,
            },
    {
        match self {
            PrettyBody::Json { .. } => PrettyKind::Json,
            PrettyBody::Html { .. } => PrettyKind::Html,
        }
    }

    pub fn text(&self) -> (t: &str)
        ensures
            t@ == match self {
                PrettyBody::Json { pretty } => pretty@,
                PrettyBody::Html { pretty } => pretty@,
            },
    {
        match self {
            PrettyBody::Json { pretty } => pretty.as_str(),
            PrettyBody::Html { pretty } => pretty.as_str(),
        }
    }
}

// ---------------------------------------------------------------------------
// JSON
// ---------------------------------------------------------------------------

/// What `serde_json::to_string_pretty` returns for the value with a given view: the
/// indented text, or `None` when it reports an error.
pub uninterp spec fn json_pretty_of(v: JsonView) -> Option<Seq<char>>;

/// The indented text of the JSON value a text reads as; the text itself when writing it
/// fails.
pub open spec fn json_pretty_text(text: Seq<char>) -> Seq<char> {
    match json_pretty_of(json_parsed(text)) {
        Some(p) => p,
        None => text,
    }
}

/// `serde_json::to_string_pretty` of a value, its error turned into `None`.
#[verifier::external_body]
fn json_to_string_pretty(v: &serde_json::Value) -> (r: Option<String>)
    ensures
        match r {
            Some(t) => json_pretty_of(json_view(*v)) == Some(t@),
            None => json_pretty_of(json_view(*v)) is None,
        },
{
    serde_json::to_string_pretty(v).ok()
}

/// The body indented as JSON, when it is JSON.
pub fn pretty_json(raw: &str) -> (r: Option<String>)
    ensures
        match r {
            Some(p) => json_valid(raw@) && p@ == json_pretty_text(raw@),
            None => !json_valid(raw@),
        },
{
    match json_from_str(raw) {
        Some(value) => match json_to_string_pretty(&value) {
            Some(p) => Some(p),
            None => Some(String::from_str(raw)),
        },
        None => None,
    }
}

// ---------------------------------------------------------------------------
// Syntax detection
// ---------------------------------------------------------------------------

/// Index of the first header named `content-type` in any case, or -1.
pub open spec fn content_type_index(headers: Seq<(Seq<char>, Seq<char>)>) -> int
    decreases headers.len(),
{
    if headers.len() == 0 {
        -1
    } else {
        let r = content_type_index(headers.drop_last());
        if r >= 0 {
            r
        } else if eq_ignore_case(headers.last().0, "content-type"@) {
            headers.len() - 1
        } else {
            -1
        }
    }
}

/// The syntax a `Content-Type` value (lower-cased) names.
pub open spec fn syntax_of_content_type(ct: Seq<char>) -> SyntaxKind {
    if contains(ct, "json"@) {
        SyntaxKind::Json
    } else if contains(ct, "html"@) {
        SyntaxKind::Html
    } else if contains(ct, "xml"@) {
        SyntaxKind::Xml
    } else if contains(ct, "javascript"@) {
        SyntaxKind::JavaScript
    } else if contains(ct, "css"@) {
        SyntaxKind::Css
    } else {
        SyntaxKind::Text
    }
}

pub open spec fn header_views(h: Seq<(String, String)>) -> Seq<(Seq<char>, Seq<char>)> {
    h.map_values(|p: (String, String)| (p.0@, p.1@))
}

/// The syntax of a response: from the first `Content-Type` header, plain text without one.
pub open spec fn response_syntax_spec(headers: Seq<(Seq<char>, Seq<char>)>) -> SyntaxKind {
    let i = content_type_index(headers);
    syntax_of_content_type(if i >= 0 {
        lower_seq(headers[i].1)
    } else {
        Seq::empty()
    })
}

/// The syntax of a response, by its `Content-Type` header.
pub fn response_syntax_kind(resp: &ResponsePreview) -> (k: SyntaxKind)
    ensures
        k == response_syntax_spec(header_views(resp.headers@)),
{
    let ghost hv = header_views(resp.headers@);
    let name = chars_of("content-type");
    let mut found: Option<usize> = None;
    let mut i: usize = 0;
    while i < resp.headers.len()
        invariant
            i <= hv.len(),
            hv == header_views(resp.headers@),
            name@ == "content-type"@,
            match found {
                Some(j) => j < i && content_type_index(hv.take(i as int)) == j as int,
                None => content_type_index(hv.take(i as int)) == -1,
            },
        decreases resp.headers.len() - i,
    {
        let ghost t = hv.take(i + 1);
        assert(t.drop_last() =~= hv.take(i as int));
        assert(t.last() == hv[i as int]);
        if found.is_none() {
            let hn = chars_of(resp.headers[i].0.as_str());
            if eq_ignore_ascii_case(&hn, &name) {
                found = Some(i);
            }
        }
        i = i + 1;
    }
    assert(hv.take(hv.len() as int) =~= hv);
    let ct = match found {
        Some(j) => lowercase(&chars_of(resp.headers[j].1.as_str())),
        None => Vec::new(),
    };
    assert(ct@ =~= (if content_type_index(hv) >= 0 {
        lower_seq(hv[content_type_index(hv)].1)
    } else {
        Seq::empty()
    }));
    if contains_sub(&ct, &chars_of("json")) {
        SyntaxKind::Json
    } else if contains_sub(&ct, &chars_of("html")) {
        SyntaxKind::Html
    } else if contains_sub(&ct, &chars_of("xml")) {
        SyntaxKind::Xml
    } else if contains_sub(&ct, &chars_of("javascript")) {
        SyntaxKind::JavaScript
    } else if contains_sub(&ct, &chars_of("css")) {
        SyntaxKind::Css
    } else {
        SyntaxKind::Text
    }
}

/// The name of a response's syntax, by its `Content-Type` header.
pub fn response_syntax(resp: &ResponsePreview) -> (r: &'static str)
    ensures
        r@ == match response_syntax_spec(header_views(resp.headers@)) {
            SyntaxKind::Json => "json"@,
            SyntaxKind::Html => "html"@,
            SyntaxKind::Xml => "xml"@,
            SyntaxKind::JavaScript => "javascript"@,
            SyntaxKind::Css => "css"@,
            SyntaxKind::Text => "text"@,
        },
{
    response_syntax_kind(resp).as_str()
}

/// How HTML is parsed: as a document when, leading white space aside and in any case, it
/// holds a doctype or an `<html` tag.
pub open spec fn html_parse_mode_spec(raw: Seq<char>) -> HtmlParseMode {
    let sniff = lower_seq(trim_start(raw));
    if contains(sniff, "<!doctype"@) || contains(sniff, "<html"@) {
        HtmlParseMode::Document
    } else {
        HtmlParseMode::Fragment
    }
}

pub fn html_parse_mode(raw: &str) -> (m: HtmlParseMode)
    ensures
        m == html_parse_mode_spec(raw@),
{
    let v = chars_of(raw);
    let (a, _b) = trim_bounds(&v);
    let rest = slice_range(&v, a, v.len());
    let sniff = lowercase(&rest);
    if contains_sub(&sniff, &chars_of("<!doctype")) || contains_sub(&sniff, &chars_of("<html")) {
        HtmlParseMode::Document
    } else {
        HtmlParseMode::Fragment
    }
}

// ---------------------------------------------------------------------------
// Response bodies
// ---------------------------------------------------------------------------

/// The text a response shows: its error, else its body, else `No body`.
pub open spec fn raw_text_spec(resp: ResponsePreview) -> Seq<char> {
    match resp.error {
        Some(e) => e@,
        None => match resp.body {
            Some(b) => b@,
            None => "No body"@,
        },
    }
}

/// The pretty form of a body: indented JSON when it parses as JSON, else indented HTML
/// when the response is HTML and the result is not empty.
pub open spec fn pretty_spec(raw: Seq<char>, syntax: SyntaxKind) -> Option<(PrettyKind, Seq<char>)> {
    if json_valid(raw) {
        Some((PrettyKind::Json, json_pretty_text(raw)))
    } else if syntax == SyntaxKind::Html {
        let p = pretty_html_spec(raw, html_parse_mode_spec(raw));
        if p.len() == 0 {
            None
        } else {
            Some((PrettyKind::Html, p))
        }
    } else {
        None
    }
}

pub open spec fn pretty_view(p: Option<PrettyBody>) -> Option<(PrettyKind, Seq<char>)> {
    match p {
        Some(PrettyBody::Json { pretty }) => Some((PrettyKind::Json, pretty@)),
        Some(PrettyBody::Html { pretty }) => Some((PrettyKind::Html, pretty@)),
        None => None,
    }
}

/// A response body with its syntax and pretty form.
#[derive(Debug)]
pub struct ResponseBodyData {
    raw: String,
    syntax: SyntaxKind,
    pretty: Option<PrettyBody>,
}

pub ghost struct BodyDataView {
    pub raw: Seq<char>,
    pub syntax: SyntaxKind,
    pub pretty: Option<(PrettyKind, Seq<char>)>,
}

impl View for ResponseBodyData {
    type V = BodyDataView;

    closed spec fn view(&self) -> BodyDataView {
        BodyDataView { raw: self.raw@, syntax: self.syntax, pretty: pretty_view(self.pretty) }
    }
}

impl Clone for ResponseBodyData {
    fn clone(&self) -> (r: Self)
        ensures
            r@ == self@,
    {
        ResponseBodyData {
            raw: self.raw.clone(),
            syntax: self.syntax,
            pretty: match &self.pretty {
                Some(p) => Some(p.clone()),
                None => None,
            },
        }
    }
}

impl ResponseBodyData {
    pub fn from_response(resp: &ResponsePreview) -> (r: Self)
        ensures
            r@.raw == raw_text_spec(*resp),
            r@.syntax == response_syntax_spec(header_views(resp.headers@)),
            r@.pretty == pretty_spec(r@.raw, r@.syntax),
    {
        let raw = match &resp.error {
            Some(e) => e.clone(),
            None => match &resp.body {
                Some(b) => b.clone(),
                None => String::from_str("No body"),
            },
        };
        let syntax = response_syntax_kind(resp);
        let pretty = match pretty_json(raw.as_str()) {
            Some(p) => Some(PrettyBody::Json { pretty: p }),
            None => if syntax == SyntaxKind::Html {
                let mode = html_parse_mode(raw.as_str());
                let p = pretty_html(raw.as_str(), mode);
                if p.unicode_len() == 0 {
                    None
                } else {
                    Some(PrettyBody::Html { pretty: p })
                }
            } else {
                None
            },
        };
        ResponseBodyData { raw, syntax, pretty }
    }

    pub fn raw(&self) -> (r: &str)
        ensures
            r@ == self@.raw,
    {
        self.raw.as_str()
    }

    pub fn syntax(&self) -> (r: SyntaxKind)
        ensures
            r == self@.syntax,
    {
        self.syntax
    }

    pub fn pretty_text(&self) -> (r: Option<&str>)
        ensures
            match self@.pretty {
                Some(p) => r matches Some(t) && t@ == p.1,
                None => r is None,
            },
    {
        match &self.pretty {
            Some(p) => Some(p.text()),
            None => None,
        }
    }

    pub fn pretty_kind(&self) -> (r: Option<PrettyKind>)
        ensures
            match self@.pretty {
                Some(p) => r == Some(p.0),
                None => r is None,
            },
    {
        match &self.pretty {
            Some(p) => Some(p.kind()),
            None => None,
        }
    }
}

/// A response with its body prepared for display.
#[derive(Debug)]
pub struct ResponseData {
    pub preview: ResponsePreview,
    pub body: ResponseBodyData,
}

impl ResponseData {
    pub fn from_preview(preview: ResponsePreview) -> (r: Self)
        ensures
            r.preview == preview,
            r.body@.raw == raw_text_spec(preview),
            r.body@.syntax == response_syntax_spec(header_views(preview.headers@)),
            r.body@.pretty == pretty_spec(r.body@.raw, r.body@.syntax),
    {
        let body = ResponseBodyData::from_response(&preview);
        ResponseData { preview, body }
    }
}

/// Whether the response pane shows the body as received or in its pretty form.
#[derive(Debug, Clone, Copy, PartialEq, Eq, Structural)]
pub enum ResponseDisplay {
    Raw,
    Pretty,
}

impl ResponseDisplay {
    pub fn label(self) -> (r: &'static str)
        ensures
            r@ == match self {
                ResponseDisplay::Raw => "Raw"@,
                ResponseDisplay::Pretty => "Pretty"@,
            },
    {
        match self {
            ResponseDisplay::Raw => "Raw",
            ResponseDisplay::Pretty => "Pretty",
        }
    }
}

/// The caption above the response body: how it is shown.
pub fn body_caption(display: ResponseDisplay, kind: Option<PrettyKind>) -> (r: &'static str)
    ensures
        r@ == match (display, kind) {
            (ResponseDisplay::Pretty, Some(PrettyKind::Html)) => "Body (pretty (HTML; formatted view))"@,
            (ResponseDisplay::Pretty, Some(PrettyKind::Json)) => "Body (pretty (JSON))"@,
            (ResponseDisplay::Pretty, None) => "Body (pretty (raw shown))"@,
            (ResponseDisplay::Raw, _) => "Body (raw)"@,
        },
{
    match (display, kind) {
        (ResponseDisplay::Pretty, Some(PrettyKind::Html)) => "Body (pretty (HTML; formatted view))",
        (ResponseDisplay::Pretty, Some(PrettyKind::Json)) => "Body (pretty (JSON))",
        (ResponseDisplay::Pretty, None) => "Body (pretty (raw shown))",
        (ResponseDisplay::Raw, _) => "Body (raw)",
    }
}

/// The tab of the response pane.
#[derive(Debug, Clone, Copy, PartialEq, Eq, Structural)]
pub enum ResponseTab {
    Body,
    Headers,
}

impl ResponseTab {
    pub fn label(self) -> (r: &'static str)
        ensures
            r@ == match self {
                ResponseTab::Body => "Body"@,
                ResponseTab::Headers => "Headers"@,
            },
    {
        match self {
            ResponseTab::Body => "Body",
            ResponseTab::Headers => "Headers",
        }
    }
}

} // verus!
