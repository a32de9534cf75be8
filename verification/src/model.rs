//! Core request, environment and response data.
use vstd::prelude::*;
use vstd::std_specs::cmp::PartialEqSpec;
use vstd::std_specs::convert::FromSpecImpl;

use crate::text::str_eq;

verus! {

// ---------------------------------------------------------------------------
// HTTP methods
// ---------------------------------------------------------------------------

#[derive(Debug, Clone, Copy, PartialEq, Eq, Structural)]
pub enum Method {
    Get,
    Post,
    Put,
    Delete,
    Patch,
    Head,
}

/// The name a method is written with in a request line.
pub open spec fn method_name(m: Method) -> Seq<char> {
    match m {
        Method::Get => "GET"@,
        Method::Post => "POST"@,
        Method::Put => "PUT"@,
        Method::Delete => "DELETE"@,
        Method::Patch => "PATCH"@,
        Method::Head => "HEAD"@,
    }
}

/// The method named by an upper-cased name; anything unknown is `GET`.
pub open spec fn method_from_upper(u: Seq<char>) -> Method {
    if u == "POST"@ {
        Method::Post
    } else if u == "PUT"@ {
        Method::Put
    } else if u == "DELETE"@ {
        Method::Delete
    } else if u == "PATCH"@ {
        Method::Patch
    } else if u == "HEAD"@ {
        Method::Head
    } else {
        Method::Get
    }
}

/// What `str::to_uppercase` returns for `s` (full Unicode case mapping).
pub uninterp spec fn unicode_uppercase(s: Seq<char>) -> Seq<char>;

/// A character upper-cased the ASCII way: `a` to `z` become `A` to `Z`, the rest stay.
pub open spec fn ascii_upper_char(c: char) -> char {
    if 'a' <= c && c <= 'z' {
        ((c as u32) - 32) as char
    } else {
        c
    }
}

/// Whether every character of a text is ASCII.
pub open spec fn all_ascii(s: Seq<char>) -> bool {
    forall|i: int| 0 <= i < s.len() ==> (s[i] as u32) < 128
}

/// `str::to_uppercase`: its result is named `unicode_uppercase` of the argument; on ASCII
/// text the Unicode mapping is the ASCII one, character for character.
#[verifier::external_body]
fn to_uppercase(s: &str) -> (r: String)
    ensures
        r@ == unicode_uppercase(s@),
        all_ascii(s@) ==> r@ == s@.map_values(|c: char| ascii_upper_char(c)),
{
    s.to_uppercase()
}

/// The method a request line names: the upper-cased name decides, unknown names are `GET`.
/// An ASCII name is upper-cased the ASCII way, as `str::to_uppercase` does on ASCII text.
pub open spec fn method_from_name(s: Seq<char>) -> Method {
    if all_ascii(s) {
        method_from_upper(s.map_values(|c: char| ascii_upper_char(c)))
    } else {
        method_from_upper(unicode_uppercase(s))
    }
}

/// A character lower-cased the ASCII way: `A` to `Z` become `a` to `z`, the rest stay.
pub open spec fn ascii_lower_char(c: char) -> char {
    if 'A' <= c && c <= 'Z' {
        ((c as u32) + 32) as char
    } else {
        c
    }
}

/// A method's name reads back as that method in upper or lower case; any other ASCII name
/// reads as `GET`.
pub proof fn lemma_method_names_in_any_case(m: Method, other: Seq<char>)
    requires
        all_ascii(other),
        forall|k: Method| other.map_values(|c: char| ascii_upper_char(c)) != #[trigger] method_name(k),
    ensures
        method_from_name(method_name(m)) == m,
        method_from_name(method_name(m).map_values(|c: char| ascii_lower_char(c))) == m,
        method_from_name(other) == Method::Get,
{
    lemma_method_name_reads_back(m);
    let n = method_name(m);
    let l = n.map_values(|c: char| ascii_lower_char(c));
    assert forall|i: int| 0 <= i < n.len() implies 'A' <= #[trigger] n[i] && n[i] <= 'Z' by {
        reveal_strlit("GET");
        reveal_strlit("POST");
        reveal_strlit("PUT");
        reveal_strlit("DELETE");
        reveal_strlit("PATCH");
        reveal_strlit("HEAD");
    }
    assert(all_ascii(l));
    assert(l.map_values(|c: char| ascii_upper_char(c)) =~= n);
    assert(n.map_values(|c: char| ascii_upper_char(c)) =~= n);
    assert(method_from_name(l) == method_from_upper(n));
    assert(method_from_name(n) == method_from_upper(n));
    assert(other.map_values(|c: char| ascii_upper_char(c)) != method_name(Method::Post));
    assert(other.map_values(|c: char| ascii_upper_char(c)) != method_name(Method::Put));
    assert(other.map_values(|c: char| ascii_upper_char(c)) != method_name(Method::Delete));
    assert(other.map_values(|c: char| ascii_upper_char(c)) != method_name(Method::Patch));
    assert(other.map_values(|c: char| ascii_upper_char(c)) != method_name(Method::Head));
}

/// A method's own name reads back as that method.
pub proof fn lemma_method_name_reads_back(m: Method)
    ensures
        method_from_name(method_name(m)) == m,
{
    reveal_strlit("GET");
    reveal_strlit("POST");
    reveal_strlit("PUT");
    reveal_strlit("DELETE");
    reveal_strlit("PATCH");
    reveal_strlit("HEAD");
    let n = method_name(m);
    assert(all_ascii(n));
    assert(n.map_values(|c: char| ascii_upper_char(c)) =~= n);
    assert(method_from_name(n) == method_from_upper(n));
    assert("GET"@[0] != "PUT"@[0] && "GET"@[0] != "POST"@[0] && "PUT"@[1] != "POST"@[1]);
    assert("HEAD"@[0] != "POST"@[0] && "HEAD"@[0] != "PUT"@[0]);
    assert("PATCH"@.len() != "POST"@.len() && "PATCH"@.len() != "DELETE"@.len());
    assert("GET"@ != "POST"@ && "GET"@ != "PUT"@ && "GET"@ != "DELETE"@ && "GET"@ != "PATCH"@
        && "GET"@ != "HEAD"@);
    assert("HEAD"@ != "POST"@ && "HEAD"@ != "PUT"@ && "HEAD"@ != "DELETE"@ && "HEAD"@ != "PATCH"@);
    assert("PATCH"@ != "POST"@ && "PATCH"@ != "PUT"@ && "PATCH"@ != "DELETE"@);
    assert("DELETE"@ != "POST"@ && "DELETE"@ != "PUT"@);
    assert("PUT"@ != "POST"@);
}

impl Method {
    pub fn as_str(self) -> (r: &'static str)
        ensures
            r@ == method_name(self),
    {
        match self {
            Method::Get => "GET",
            Method::Post => "POST",
            Method::Put => "PUT",
            Method::Delete => "DELETE",
            Method::Patch => "PATCH",
            Method::Head => "HEAD",
        }
    }

    /// The method for an already upper-cased name.
    pub fn from_upper(u: &str) -> (m: Method)
        ensures
            m == method_from_upper(u@),
    {
        if str_eq(u, "POST") {
            Method::Post
        } else if str_eq(u, "PUT") {
            Method::Put
        } else if str_eq(u, "DELETE") {
            Method::Delete
        } else if str_eq(u, "PATCH") {
            Method::Patch
        } else if str_eq(u, "HEAD") {
            Method::Head
        } else {
            Method::Get
        }
    }

    /// The method a request line names.
    pub fn from_name(value: &str) -> (m: Method)
        ensures
            m == method_from_name(value@),
    {
        let upper = to_uppercase(value);
        Method::from_upper(upper.as_str())
    }
}

impl<'a> From<&'a str> for Method {
    fn from(value: &'a str) -> (m: Method) {
        Method::from_name(value)
    }
}

impl<'a> FromSpecImpl<&'a str> for Method {
    open spec fn obeys_from_spec() -> bool {
        true
    }

    open spec fn from_spec(v: &'a str) -> Method {
        method_from_name(v@)
    }
}

// ---------------------------------------------------------------------------
// Requests
// ---------------------------------------------------------------------------

#[derive(Debug)]
pub struct RequestDraft {
    pub title: String,
    pub method: Method,
    pub url: String,
    pub headers: String,
    pub body: String,
}

/// A request draft as plain values.
pub ghost struct DraftView {
    pub title: Seq<char>,
    pub method: Method,
    pub url: Seq<char>,
    pub headers: Seq<char>,
    pub body: Seq<char>,
}

impl View for RequestDraft {
    type V = DraftView;

    open spec fn view(&self) -> DraftView {
        DraftView {
            title: self.title@,
            method: self.method,
            url: self.url@,
            headers: self.headers@,
            body: self.body@,
        }
    }
}

/// The draft a new request starts from.
pub open spec fn default_draft() -> DraftView {
    DraftView {
        title: "Untitled request"@,
        method: Method::Get,
        url: "https://example.com"@,
        headers: Seq::empty(),
        body: Seq::empty(),
    }
}

impl Clone for RequestDraft {
    fn clone(&self) -> (r: Self)
        ensures
            r@ == self@,
    {
        RequestDraft {
            title: self.title.clone(),
            method: self.method,
            url: self.url.clone(),
            headers: self.headers.clone(),
            body: self.body.clone(),
        }
    }
}

impl Default for RequestDraft {
    fn default() -> (r: Self)
        ensures
            r@ == default_draft(),
    {
        RequestDraft {
            title: String::from_str("Untitled request"),
            method: Method::Get,
            url: String::from_str("https://example.com"),
            headers: String::new(),
            body: String::new(),
        }
    }
}

impl RequestDraft {
    /// The default draft with another title.
    pub fn titled(title: String) -> (r: Self)
        ensures
            r@ == (DraftView { title: title@, ..default_draft() }),
    {
        RequestDraft {
            title,
            method: Method::Get,
            url: String::from_str("https://example.com"),
            headers: String::new(),
            body: String::new(),
        }
    }
}

pub open spec fn draft_views(v: Seq<RequestDraft>) -> Seq<DraftView> {
    v.map_values(|d: RequestDraft| d@)
}

/// Copies a list of drafts.
pub fn clone_drafts(v: &Vec<RequestDraft>) -> (r: Vec<RequestDraft>)
    ensures
        draft_views(r@) == draft_views(v@),
{
    let mut r: Vec<RequestDraft> = Vec::new();
    let mut i: usize = 0;
    while i < v.len()
        invariant
            i <= v@.len(),
            r@.len() == i,
            draft_views(r@) == draft_views(v@.take(i as int)),
        decreases v.len() - i,
    {
        let d = v[i].clone();
        let ghost prev = r@;
        r.push(d);
        proof {
            assert forall|j: int| 0 <= j < i + 1 implies draft_views(r@)[j] == draft_views(
                v@.take(i + 1),
            )[j] by {
                if j < i {
                    assert(draft_views(prev)[j] == draft_views(v@.take(i as int))[j]);
                }
            }
            assert(draft_views(r@) =~= draft_views(v@.take(i + 1)));
        }
        i = i + 1;
    }
    assert(v@.take(v@.len() as int) =~= v@);
    r
}

#[derive(Debug)]
pub struct Collection {
    pub name: String,
    pub requests: Vec<RequestDraft>,
}

#[derive(Debug)]
pub struct HttpFile {
    pub path: String,
    pub requests: Vec<RequestDraft>,
}

/// An `.http` file as plain values.
pub ghost struct HttpFileView {
    pub path: Seq<char>,
    pub requests: Seq<DraftView>,
}

impl View for HttpFile {
    type V = HttpFileView;

    open spec fn view(&self) -> HttpFileView {
        HttpFileView { path: self.path@, requests: draft_views(self.requests@) }
    }
}

impl Clone for HttpFile {
    fn clone(&self) -> (r: Self)
        ensures
            r@ == self@,
    {
        HttpFile { path: self.path.clone(), requests: clone_drafts(&self.requests) }
    }
}

#[derive(Debug, Clone)]
pub struct UnsavedTab {
    pub id: u32,
    pub title: String,
}

#[derive(Debug, Hash)]
pub enum RequestId {
    Collection { collection: usize, index: usize },
    HttpFile { path: String, index: usize },
    Unsaved(u32),
}

/// A request identifier as plain values.
pub ghost enum RequestIdView {
    Collection { collection: usize, index: usize },
    HttpFile { path: Seq<char>, index: usize },
    Unsaved(u32),
}

impl View for RequestId {
    type V = RequestIdView;

    open spec fn view(&self) -> RequestIdView {
        match self {
            RequestId::Collection { collection, index } => RequestIdView::Collection {
                collection: *collection,
                index: *index,
            },
            RequestId::HttpFile { path, index } => RequestIdView::HttpFile {
                path: path@,
                index: *index,
            },
            RequestId::Unsaved(id) => RequestIdView::Unsaved(*id),
        }
    }
}

impl Clone for RequestId {
    fn clone(&self) -> (r: Self)
        ensures
            r@ == self@,
    {
        match self {
            RequestId::Collection { collection, index } => RequestId::Collection {
                collection: *collection,
                index: *index,
            },
            RequestId::HttpFile { path, index } => RequestId::HttpFile {
                path: path.clone(),
                index: *index,
            },
            RequestId::Unsaved(id) => RequestId::Unsaved(*id),
        }
    }
}

impl PartialEq for RequestId {
    fn eq(&self, other: &Self) -> (r: bool) {
        match (self, other) {
            (
                RequestId::Collection { collection: c1, index: i1 },
                RequestId::Collection { collection: c2, index: i2 },
            ) => *c1 == *c2 && *i1 == *i2,
            (
                RequestId::HttpFile { path: p1, index: i1 },
                RequestId::HttpFile { path: p2, index: i2 },
            ) => *i1 == *i2 && str_eq(p1.as_str(), p2.as_str()),
            (RequestId::Unsaved(a), RequestId::Unsaved(b)) => *a == *b,
            _ => false,
        }
    }
}

impl Eq for RequestId {

}

impl vstd::std_specs::cmp::PartialEqSpecImpl for RequestId {
    open spec fn obeys_eq_spec() -> bool {
        true
    }

    open spec fn eq_spec(&self, other: &RequestId) -> bool {
        self@ == other@
    }
}

/// Whether two identifiers name the same request.
pub fn same_request(a: &RequestId, b: &RequestId) -> (r: bool)
    ensures
        r == (a@ == b@),
{
    a == b
}

/// An optional identifier as plain values.
pub open spec fn opt_id_view(o: Option<RequestId>) -> Option<RequestIdView> {
    match o {
        Some(x) => Some(x@),
        None => None,
    }
}

/// Clones an optional identifier.
pub fn clone_request_id(id: &Option<RequestId>) -> (r: Option<RequestId>)
    ensures
        opt_id_view(r) == opt_id_view(*id),
{
    match id {
        Some(x) => Some(x.clone()),
        None => None,
    }
}

// ---------------------------------------------------------------------------
// Responses
// ---------------------------------------------------------------------------

#[derive(Debug, Clone)]
pub struct ResponsePreview {
    pub status: Option<u16>,
    pub duration_ms: Option<u64>,
    pub body: Option<String>,
    pub headers: Vec<(String, String)>,
    pub error: Option<String>,
}

impl ResponsePreview {
    pub fn error(message: String) -> (r: Self)
        ensures
            r.status is None,
            r.duration_ms is None,
            r.body is None,
            r.headers@.len() == 0,
            r.error matches Some(e) && e@ == message@,
    {
        ResponsePreview {
            status: None,
            duration_ms: None,
            body: None,
            headers: Vec::new(),
            error: Some(message),
        }
    }
}

} // verus!
