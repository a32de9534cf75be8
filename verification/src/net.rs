//! Sending a request: what goes out on the wire (method, URL, headers, body, and the log
//! of it), and OAuth2 client-credential tokens with their cache. The network calls
//! themselves are made by the application, which hands the replies back here.
use vstd::prelude::*;

use crate::env::{apply_env, apply_environment, EnvVars, Environment};
use crate::model::{method_name, DraftView, Method, RequestDraft, ResponsePreview};
use crate::options::{base64_encode, base64_standard, ClientSecretMethod, OAuth2ClientCredentialsAuthState};
use crate::text::{
    append_chars, chars_of, concat2, eq_ignore_ascii_case, eq_ignore_case, is_blank, join, join_chars, lines,
    lines_of, push_str, split_once, split_once_char, str_eq, string_of, trim, trim_string, trimmed, views,
};

verus! {

// ---------------------------------------------------------------------------
// Required values
// ---------------------------------------------------------------------------

/// A value that must not be blank, trimmed.
pub open spec fn parse_required_spec(name: Seq<char>, value: Seq<char>) -> Result<Seq<char>, Seq<char>> {
    if trim(value).len() == 0 {
        Err(name + " is required"@)
    } else {
        Ok(trim(value))
    }
}

pub fn parse_required(name: &str, value: String) -> (r: Result<String, String>)
    ensures
        match r {
            Ok(v) => parse_required_spec(name@, value@) == Ok::<Seq<char>, Seq<char>>(v@),
            Err(e) => parse_required_spec(name@, value@) == Err::<Seq<char>, Seq<char>>(e@),
        },
{
    let parsed = trim_string(value.as_str());
    if parsed.unicode_len() == 0 {
        return Err(concat2(name, " is required"));
    }
    Ok(parsed)
}

// ---------------------------------------------------------------------------
// OAuth2 client credentials
// ---------------------------------------------------------------------------

/// Client credentials with the environment applied.
#[derive(Debug)]
pub struct ClientCredentials {
    pub token_url: String,
    pub client_id: String,
    pub client_secret: String,
    pub scope: String,
    pub client_secret_method: ClientSecretMethod,
}

impl ClientCredentials {
    /// The credentials of an OAuth2 setting with the environment's variables filled in.
    pub fn parse(auth: &OAuth2ClientCredentialsAuthState, env_vars: &EnvVars) -> (r: Self)
        ensures
            r.token_url@ == apply_env(auth.token_url@, env_vars@),
            r.client_id@ == apply_env(auth.client_id@, env_vars@),
            r.client_secret@ == apply_env(auth.client_secret@, env_vars@),
            r.scope@ == apply_env(auth.scope@, env_vars@),
            r.client_secret_method == auth.client_secret_method,
    {
        ClientCredentials {
            token_url: apply_environment(auth.token_url.as_str(), env_vars),
            client_id: apply_environment(auth.client_id.as_str(), env_vars),
            client_secret: apply_environment(auth.client_secret.as_str(), env_vars),
            scope: apply_environment(auth.scope.as_str(), env_vars),
            client_secret_method: auth.client_secret_method,
        }
    }

    /// The credentials with the token URL, client id and secret required and trimmed, and
    /// the scope trimmed; the first missing one is the error.
    pub fn resolve(self) -> (r: Result<Self, String>)
        ensures
            match r {
                Ok(c) => parse_required_spec("OAuth2 token URL"@, self.token_url@) == Ok::<Seq<char>, Seq<char>>(c.token_url@)
                    && parse_required_spec("OAuth2 client ID"@, self.client_id@) == Ok::<Seq<char>, Seq<char>>(c.client_id@)
                    && parse_required_spec("OAuth2 client secret"@, self.client_secret@) == Ok::<Seq<char>, Seq<char>>(c.client_secret@)
                    && c.scope@ == trim(self.scope@) && c.client_secret_method == self.client_secret_method,
                Err(e) => match parse_required_spec("OAuth2 token URL"@, self.token_url@) {
                    Err(e1) => e@ == e1,
                    Ok(_) => match parse_required_spec("OAuth2 client ID"@, self.client_id@) {
                        Err(e2) => e@ == e2,
                        Ok(_) => parse_required_spec("OAuth2 client secret"@, self.client_secret@) == Err::<Seq<char>, Seq<char>>(e@),
                    },
                },
            },
    {
        let token_url = match parse_required("OAuth2 token URL", self.token_url) {
            Ok(v) => v,
            Err(e) => {
                return Err(e);
            },
        };
        let client_id = match parse_required("OAuth2 client ID", self.client_id) {
            Ok(v) => v,
            Err(e) => {
                return Err(e);
            },
        };
        let client_secret = match parse_required("OAuth2 client secret", self.client_secret) {
            Ok(v) => v,
            Err(e) => {
                return Err(e);
            },
        };
        Ok(
            ClientCredentials {
                token_url,
                client_id,
                client_secret,
                scope: trim_string(self.scope.as_str()),
                client_secret_method: self.client_secret_method,
            },
        )
    }

    /// The key a token for these credentials is cached under.
    pub fn cache_key(&self, environment_name: Option<String>) -> (k: OAuth2TokenCacheKey)
        ensures
            k.token_url@ == self.token_url@,
            k.client_id@ == self.client_id@,
            k.client_secret@ == self.client_secret@,
            k.scope@ == self.scope@,
            k.client_secret_method == self.client_secret_method,
            k.environment_name == environment_name,
    {
        OAuth2TokenCacheKey {
            token_url: self.token_url.clone(),
            client_id: self.client_id.clone(),
            client_secret: self.client_secret.clone(),
            scope: self.scope.clone(),
            client_secret_method: self.client_secret_method,
            environment_name,
        }
    }

    /// The form of the token request: the grant type, the scope when there is one, and the
    /// client id and secret when they go in the body.
    pub fn build_token_form(&self) -> (form: Vec<(String, String)>)
        ensures
            form_views(form@) == token_form_spec(self.scope@, self.client_id@, self.client_secret@, self.client_secret_method),
    {
        let mut form: Vec<(String, String)> = Vec::new();
        form.push((String::from_str("grant_type"), String::from_str("client_credentials")));
        if self.scope.unicode_len() > 0 {
            form.push((String::from_str("scope"), self.scope.clone()));
        }
        if self.client_secret_method == ClientSecretMethod::RequestBody {
            form.push((String::from_str("client_id"), self.client_id.clone()));
            form.push((String::from_str("client_secret"), self.client_secret.clone()));
        }
        assert(form_views(form@) =~= token_form_spec(
            self.scope@,
            self.client_id@,
            self.client_secret@,
            self.client_secret_method,
        ));
        form
    }

    /// The `Authorization` value of the token request when the secret goes in a Basic
    /// header.
    pub fn maybe_basic_authorization(&self) -> (r: Option<String>)
        ensures
            match r {
                Some(v) => self.client_secret_method == ClientSecretMethod::BasicAuth && v@ == "Basic "@
                    + base64_standard(self.client_id@ + seq![':'] + self.client_secret@),
                None => self.client_secret_method != ClientSecretMethod::BasicAuth,
            },
    {
        if self.client_secret_method != ClientSecretMethod::BasicAuth {
            return None;
        }
        let mut credentials = self.client_id.clone();
        push_str(&mut credentials, ":");
        push_str(&mut credentials, self.client_secret.as_str());
        proof {
            reveal_strlit(":");
        }
        assert(credentials@ =~= self.client_id@ + seq![':'] + self.client_secret@);
        let token = base64_encode(credentials.as_str());
        Some(concat2("Basic ", token.as_str()))
    }
}

pub open spec fn form_views(f: Seq<(String, String)>) -> Seq<(Seq<char>, Seq<char>)> {
    f.map_values(|p: (String, String)| (p.0@, p.1@))
}

/// The form fields of a token request.
pub open spec fn token_form_spec(scope: Seq<char>, client_id: Seq<char>, secret: Seq<char>, method: ClientSecretMethod) -> Seq<(Seq<char>, Seq<char>)> {
    let base = seq![("grant_type"@, "client_credentials"@)];
    let with_scope = if scope.len() > 0 {
        base.push(("scope"@, scope))
    } else {
        base
    };
    if method == ClientSecretMethod::RequestBody {
        with_scope.push(("client_id"@, client_id)).push(("client_secret"@, secret))
    } else {
        with_scope
    }
}

/// What a cached token is filed under: the credentials and the environment.
#[derive(Debug)]
pub struct OAuth2TokenCacheKey {
    pub token_url: String,
    pub client_id: String,
    pub client_secret: String,
    pub scope: String,
    pub client_secret_method: ClientSecretMethod,
    pub environment_name: Option<String>,
}

pub ghost struct CacheKeyView {
    pub token_url: Seq<char>,
    pub client_id: Seq<char>,
    pub client_secret: Seq<char>,
    pub scope: Seq<char>,
    pub client_secret_method: ClientSecretMethod,
    pub environment_name: Option<Seq<char>>,
}

impl View for OAuth2TokenCacheKey {
    type V = CacheKeyView;

    open spec fn view(&self) -> CacheKeyView {
        CacheKeyView {
            token_url: self.token_url@,
            client_id: self.client_id@,
            client_secret: self.client_secret@,
            scope: self.scope@,
            client_secret_method: self.client_secret_method,
            environment_name: crate::cli::opt_seq(self.environment_name),
        }
    }
}

impl Clone for OAuth2TokenCacheKey {
    fn clone(&self) -> (r: Self)
        ensures
            r@ == self@,
    {
        OAuth2TokenCacheKey {
            token_url: self.token_url.clone(),
            client_id: self.client_id.clone(),
            client_secret: self.client_secret.clone(),
            scope: self.scope.clone(),
            client_secret_method: self.client_secret_method,
            environment_name: match &self.environment_name {
                Some(n) => Some(n.clone()),
                None => None,
            },
        }
    }
}

impl PartialEq for OAuth2TokenCacheKey {
    fn eq(&self, other: &Self) -> (r: bool) {
        str_eq(self.token_url.as_str(), other.token_url.as_str()) && str_eq(
            self.client_id.as_str(),
            other.client_id.as_str(),
        ) && str_eq(self.client_secret.as_str(), other.client_secret.as_str()) && str_eq(
            self.scope.as_str(),
            other.scope.as_str(),
        ) && self.client_secret_method == other.client_secret_method && match (
            &self.environment_name,
            &other.environment_name,
        ) {
            (Some(a), Some(b)) => str_eq(a.as_str(), b.as_str()),
            (None, None) => true,
            _ => false,
        }
    }
}

impl Eq for OAuth2TokenCacheKey {

}

impl vstd::std_specs::cmp::PartialEqSpecImpl for OAuth2TokenCacheKey {
    open spec fn obeys_eq_spec() -> bool {
        true
    }

    open spec fn eq_spec(&self, other: &OAuth2TokenCacheKey) -> bool {
        self@ == other@
    }
}

/// How long before its expiry a token is no longer used, in milliseconds.
pub const OAUTH2_TOKEN_EXPIRY_SKEW_MS: u64 = 30_000;

/// An access token and when it expires, on the application's monotonic clock in
/// milliseconds.
#[derive(Debug)]
pub struct OAuth2AccessToken {
    pub value: String,
    pub expires_at_ms: Option<u128>,
}

impl Clone for OAuth2AccessToken {
    fn clone(&self) -> (r: Self)
        ensures
            r.value@ == self.value@,
            r.expires_at_ms == self.expires_at_ms,
    {
        OAuth2AccessToken { value: self.value.clone(), expires_at_ms: self.expires_at_ms }
    }
}

/// A token is still used while more than the skew is left before it expires; one without
/// an expiry always is.
pub open spec fn still_valid_spec(expires_at_ms: Option<u128>, now_ms: u64) -> bool {
    match expires_at_ms {
        None => true,
        Some(e) => e > now_ms && e - now_ms > OAUTH2_TOKEN_EXPIRY_SKEW_MS,
    }
}

impl OAuth2AccessToken {
    pub fn is_still_valid(&self, now_ms: u64) -> (r: bool)
        ensures
            r == still_valid_spec(self.expires_at_ms, now_ms),
    {
        match self.expires_at_ms {
            None => true,
            Some(e) => e.saturating_sub(now_ms as u128) > OAUTH2_TOKEN_EXPIRY_SKEW_MS as u128,
        }
    }
}

/// A cached token with the key it was obtained for.
#[derive(Debug)]
pub struct OAuth2TokenCacheEntry {
    key: OAuth2TokenCacheKey,
    token: OAuth2AccessToken,
}

impl Clone for OAuth2TokenCacheEntry {
    fn clone(&self) -> (r: Self)
        ensures
            r.key()@ == self.key()@,
            r.token_value()@ == self.token_value()@,
            r.expires_at_ms() == self.expires_at_ms(),
    {
        OAuth2TokenCacheEntry { key: self.key.clone(), token: self.token.clone() }
    }
}

impl OAuth2TokenCacheEntry {
    pub closed spec fn key(&self) -> OAuth2TokenCacheKey {
        self.key
    }

    pub closed spec fn token_value(&self) -> String {
        self.token.value
    }

    pub closed spec fn expires_at_ms(&self) -> Option<u128> {
        self.token.expires_at_ms
    }

    /// An entry for a token just obtained.
    pub fn new(key: OAuth2TokenCacheKey, token: OAuth2AccessToken) -> (r: Self)
        ensures
            r.key() == key,
            r.token_value() == token.value,
            r.expires_at_ms() == token.expires_at_ms,
    {
        OAuth2TokenCacheEntry { key, token }
    }

    /// The cached token, when it was obtained for `key` and is still valid at `now_ms`.
    pub fn token_for(&self, key: &OAuth2TokenCacheKey, now_ms: u64) -> (r: Option<String>)
        ensures
            match r {
                Some(v) => self.key()@ == key@ && still_valid_spec(self.expires_at_ms(), now_ms) && v@
                    == self.token_value()@,
                None => !(self.key()@ == key@ && still_valid_spec(self.expires_at_ms(), now_ms)),
            },
    {
        if self.key == *key && self.token.is_still_valid(now_ms) {
            Some(self.token.value.clone())
        } else {
            None
        }
    }
}

/// The outcome of sending a request: the response, and the token cache to keep.
#[derive(Debug, Clone)]
pub struct SendOutcome {
    pub response: ResponsePreview,
    pub oauth2_cache: Option<OAuth2TokenCacheEntry>,
}

/// The token a token endpoint's reply gives. `parsed` is the reply's body read as JSON
/// (`access_token` and the optional `expires_in` in seconds), or the reason it could not
/// be; `now_ms` is when the reply came, and `clock_holds_expiry` whether the machine's
/// monotonic clock can hold the time `expires_in` seconds from now.
pub open spec fn token_reply_spec(
    status: u16,
    body: Seq<char>,
    parsed: Result<(Seq<char>, Option<u64>), Seq<char>>,
    now_ms: u64,
    clock_holds_expiry: bool,
) -> Result<(Seq<char>, Option<int>), Seq<char>> {
    if !(200 <= status && status < 300) {
        Err("OAuth2 token request failed with HTTP "@ + crate::text::decimal(status as nat) + ": "@ + body)
    } else {
        match parsed {
            Err(e) => Err("Invalid OAuth2 token response JSON: "@ + e),
            Ok((token, expires_in)) => match parse_required_spec("OAuth2 access_token"@, token) {
                Err(e) => Err(e),
                Ok(t) => match expires_in {
                    None => Ok((t, None)),
                    Some(secs) => if !clock_holds_expiry {
                        Err("OAuth2 token expires_in overflow: "@ + crate::text::decimal(secs as nat))
                    } else {
                        Ok((t, Some(now_ms + secs * 1000)))
                    },
                },
            },
        }
    }
}

/// Reads the token from a token endpoint's reply.
pub fn token_from_reply(
    status: u16,
    body: String,
    parsed: Result<(String, Option<u64>), String>,
    now_ms: u64,
    clock_holds_expiry: bool,
) -> (r: Result<OAuth2AccessToken, String>)
    ensures
        match r {
            Ok(t) => token_reply_spec(
                status,
                body@,
                match parsed {
                    Ok(p) => Ok((p.0@, p.1)),
                    Err(e) => Err(e@),
                },
                now_ms,
                clock_holds_expiry,
            ) == Ok::<(Seq<char>, Option<int>), Seq<char>>((
                t.value@,
                match t.expires_at_ms {
                    Some(e) => Some(e as int),
                    None => None,
                },
            )),
            Err(e) => token_reply_spec(
                status,
                body@,
                match parsed {
                    Ok(p) => Ok((p.0@, p.1)),
                    Err(e) => Err(e@),
                },
                now_ms,
                clock_holds_expiry,
            ) == Err::<(Seq<char>, Option<int>), Seq<char>>(e@),
        },
{
    if !(200 <= status && status < 300) {
        let mut m = String::from_str("OAuth2 token request failed with HTTP ");
        let code = crate::text::decimal_string(status as u64);
        crate::text::push_chars(&mut m, &code);
        push_str(&mut m, ": ");
        push_str(&mut m, body.as_str());
        return Err(m);
    }
    let (token, expires_in) = match parsed {
        Err(e) => {
            return Err(concat2("Invalid OAuth2 token response JSON: ", e.as_str()));
        },
        Ok(p) => p,
    };
    let value = match parse_required("OAuth2 access_token", token) {
        Ok(v) => v,
        Err(e) => {
            return Err(e);
        },
    };
    let expires_at_ms = match expires_in {
        None => None,
        Some(secs) => {
            if !clock_holds_expiry {
                let mut m = String::from_str("OAuth2 token expires_in overflow: ");
                let n = crate::text::decimal_string(secs);
                crate::text::push_chars(&mut m, &n);
                return Err(m);
            }
            Some(now_ms as u128 + secs as u128 * 1000)
        },
    };
    Ok(OAuth2AccessToken { value, expires_at_ms })
}


// ---------------------------------------------------------------------------
// The request on the wire
// ---------------------------------------------------------------------------

/// The `Authorization` value that carries a token: `Bearer ` and the trimmed token.
pub open spec fn bearer_value(token: Seq<char>) -> Seq<char> {
    "Bearer "@ + trim(token)
}

/// The `Authorization` value for an OAuth2 access token.
pub fn bearer_authorization(token: &str) -> (r: String)
    ensures
        r@ == bearer_value(token@),
{
    let t = trim_string(token);
    concat2("Bearer ", t.as_str())
}

/// The headers of `name: value` lines, trimmed; when `skip_authorization`, an
/// `Authorization` header (in any case) is left out.
pub open spec fn header_pairs(ls: Seq<Seq<char>>, skip_authorization: bool) -> Seq<(Seq<char>, Seq<char>)>
    decreases ls.len(),
{
    if ls.len() == 0 {
        Seq::empty()
    } else {
        header_pairs(ls.drop_last(), skip_authorization) + match split_once(ls.last(), ':') {
            Some((n, v)) => if skip_authorization && eq_ignore_case(trim(n), "authorization"@) {
                Seq::empty()
            } else {
                seq![(trim(n), trim(v))]
            },
            None => Seq::empty(),
        }
    }
}

/// A header line is split at its first `:`: the name is what comes before it and the value
/// all that follows, each trimmed.
pub proof fn lemma_header_line_splits_at_first_colon(
    ls: Seq<Seq<char>>,
    n: Seq<char>,
    v: Seq<char>,
    skip_authorization: bool,
)
    requires
        !n.contains(':'),
        !(skip_authorization && eq_ignore_case(trim(n), "authorization"@)),
    ensures
        header_pairs(ls.push(n + seq![':'] + v), skip_authorization) == header_pairs(ls, skip_authorization).push(
            (trim(n), trim(v)),
        ),
{
    crate::text::lemma_split_once_first(n, ':', v);
    assert(ls.push(n + seq![':'] + v).drop_last() =~= ls);
}

/// No header name holds `:`.
pub proof fn lemma_header_names_have_no_colon(ls: Seq<Seq<char>>, skip_authorization: bool)
    ensures
        forall|i: int|
            0 <= i < header_pairs(ls, skip_authorization).len() ==> !(#[trigger] header_pairs(ls, skip_authorization)[i]).0.contains(
                ':',
            ),
    decreases ls.len(),
{
    if ls.len() > 0 {
        lemma_header_names_have_no_colon(ls.drop_last(), skip_authorization);
        let l = ls.last();
        crate::text::lemma_first_index_of(l, ':');
        let k = crate::text::first_index_of(l, ':');
        if k < l.len() {
            let n = l.take(k as int);
            assert(!n.contains(':')) by {
                assert forall|j: int| 0 <= j < n.len() implies n[j] != ':' by {
                    assert(n[j] == l[j]);
                }
            }
            crate::text::lemma_trim_keeps_out(n, ':');
        }
        let prev = header_pairs(ls.drop_last(), skip_authorization);
        let all = header_pairs(ls, skip_authorization);
        assert forall|i: int| 0 <= i < all.len() implies !(#[trigger] all[i]).0.contains(':') by {
            if i < prev.len() {
                assert(all[i] == prev[i]);
            }
        }
    }
}

/// The header text `name: value`, on one line, sends exactly that header, trimmed.
pub proof fn lemma_one_header_line_sent(n: Seq<char>, v: Seq<char>)
    requires
        !n.contains(':'),
        !n.contains('\n'),
        !v.contains('\n'),
    ensures
        request_headers_spec(n + seq![':'] + v, None) == seq![(trim(n), trim(v))],
{
    let l = n + seq![':'] + v;
    assert(!l.contains('\n')) by {
        assert forall|j: int| 0 <= j < l.len() implies l[j] != '\n' by {
            if j < n.len() {
                assert(l[j] == n[j]);
            } else if j > n.len() {
                assert(l[j] == v[j - n.len() - 1]);
            }
        }
    }
    crate::text::lemma_single_line(l);
    lemma_header_line_splits_at_first_colon(Seq::empty(), n, v, false);
    assert(Seq::<Seq<char>>::empty().push(l) =~= seq![l]);
    assert(header_pairs(Seq::<Seq<char>>::empty(), false) =~= Seq::<(Seq<char>, Seq<char>)>::empty());
    assert(request_headers_spec(l, None) =~= seq![(trim(n), trim(v))]);
}

/// Bearer authentication adds one header line to the headers, and that line, read the way
/// headers are sent, is `Authorization` with the value `bearer_authorization` gives for the
/// token (a token that is all whitespace leaves just `Bearer`, trimmed).
pub proof fn lemma_bearer_header_sent(existing: Seq<char>, token: Seq<char>)
    requires
        trim(token).len() > 0,
    ensures
        crate::options::auth_headers(existing, crate::options::AuthView::Bearer { token }) == existing + seq!['\n']
            + "Authorization: "@ + bearer_value(token),
        header_pairs(seq!["Authorization: "@ + bearer_value(token)], false) == seq![
            ("Authorization"@, bearer_value(token)),
        ],
{
    reveal_strlit("\nAuthorization: Bearer ");
    reveal_strlit("Authorization: ");
    reveal_strlit("Bearer ");
    reveal_strlit("Authorization");
    reveal_strlit("earer ");
    let t = trim(token);
    let line = "Authorization: "@ + bearer_value(token);
    assert("\nAuthorization: Bearer "@ =~= seq!['\n'] + "Authorization: "@ + "Bearer "@);
    assert(existing + "\nAuthorization: Bearer "@ + t =~= existing + seq!['\n'] + "Authorization: "@ + bearer_value(token));
    // the line splits at its colon
    let name = "Authorization"@;
    let rest = seq![' '] + bearer_value(token);
    assert(line =~= name + seq![':'] + rest);
    assert(!name.contains(':')) by {
        assert forall|j: int| 0 <= j < name.len() implies name[j] != ':' by {}
    }
    crate::text::lemma_split_once_first(name, ':', rest);
    // the name is already trimmed
    crate::text::lemma_ws_prefix_unique(name, 0);
    crate::text::lemma_ws_suffix_unique(name.skip(0), 0);
    assert(name.skip(0) =~= name);
    assert(trim(name) =~= name);
    // the value, trimmed, is `Bearer ` and the token
    let tail = "earer "@ + t;
    assert(rest =~= seq![' '] + seq!['B'] + tail);
    crate::text::lemma_trim_around(seq![' '], 'B', tail);
    crate::text::lemma_ws_prefix_unique(seq![' '], 1);
    assert(crate::text::trim_start(seq![' ']) =~= Seq::<char>::empty());
    crate::text::lemma_ws_prefix(token);
    let ts = crate::text::trim_start(token);
    crate::text::lemma_ws_suffix(ts);
    assert(t == crate::text::trim_end(ts));
    assert(!crate::text::is_ws(t.last())) by {
        assert(t.last() == ts[ts.len() - crate::text::ws_suffix_len(ts) - 1]);
    }
    assert(tail.last() == t.last());
    crate::text::lemma_ws_suffix_unique(tail, 0);
    assert(crate::text::trim_end(tail) =~= tail);
    assert(trim(rest) =~= seq!['B'] + tail);
    assert(seq!['B'] + tail =~= bearer_value(token));
    lemma_header_line_splits_at_first_colon(Seq::empty(), name, rest, false);
    assert(Seq::<Seq<char>>::empty().push(name + seq![':'] + rest) =~= seq![line]);
    assert(header_pairs(Seq::<Seq<char>>::empty(), false) =~= Seq::<(Seq<char>, Seq<char>)>::empty());
    assert(header_pairs(seq![line], false) =~= seq![(name, bearer_value(token))]);
}

/// The headers sent: those of the header text, then the extra `Authorization` header,
/// which replaces any in the text.
pub open spec fn request_headers_spec(headers_text: Seq<char>, extra_authorization: Option<Seq<char>>) -> Seq<(Seq<char>, Seq<char>)> {
    header_pairs(lines(headers_text), extra_authorization is Some) + match extra_authorization {
        Some(v) => seq![("authorization"@, v)],
        None => Seq::empty(),
    }
}

/// The non-blank lines, indented by two spaces.
pub open spec fn indented_lines(ls: Seq<Seq<char>>) -> Seq<Seq<char>>
    decreases ls.len(),
{
    if ls.len() == 0 {
        Seq::empty()
    } else {
        indented_lines(ls.drop_last()) + (if trim(ls.last()).len() > 0 {
            seq!["  "@ + ls.last()]
        } else {
            Seq::empty()
        })
    }
}

/// The lines logged for a request: the environment, the method and URL, the headers and
/// the body, the last two only when not blank.
pub open spec fn log_lines_spec(
    env_name: Option<Seq<char>>,
    method: Method,
    url: Seq<char>,
    headers_text: Seq<char>,
    body: Seq<char>,
) -> Seq<Seq<char>> {
    let env_lines = match env_name {
        Some(n) => seq!["Environment: "@ + n],
        None => Seq::empty(),
    };
    let head = env_lines.push(method_name(method) + " "@ + url);
    let with_headers = if trim(headers_text).len() > 0 {
        head.push("Headers:"@) + indented_lines(lines(headers_text))
    } else {
        head
    };
    if trim(body).len() > 0 {
        with_headers.push("Body:"@).push(body)
    } else {
        with_headers
    }
}

/// A request ready to send.
#[derive(Debug)]
pub struct PreparedRequest {
    pub method: Method,
    pub url: String,
    pub headers: Vec<(String, String)>,
    pub body: String,
    pub log: String,
}

/// The request a draft makes once the environment's variables are filled in.
pub open spec fn prepared_ok(
    p: PreparedRequest,
    draft: DraftView,
    env_name: Option<Seq<char>>,
    vars: Seq<(Seq<char>, Seq<char>)>,
    extra_authorization: Option<Seq<char>>,
) -> bool {
    let url = apply_env(draft.url, vars);
    let headers_text = apply_env(draft.headers, vars);
    let body = apply_env(draft.body, vars);
    &&& p.method == draft.method
    &&& p.url@ == url
    &&& p.body@ == body
    &&& form_views(p.headers@) == request_headers_spec(headers_text, extra_authorization)
    &&& p.log@ == join(log_lines_spec(env_name, draft.method, url, headers_text, body), "\n"@)
}

fn header_list(headers_text: &Vec<char>, skip_authorization: bool) -> (r: Vec<(String, String)>)
    ensures
        form_views(r@) == header_pairs(lines(headers_text@), skip_authorization),
{
    let ls = lines_of(headers_text);
    let ghost lv = views(ls@);
    let auth = chars_of("authorization");
    let mut out: Vec<(String, String)> = Vec::new();
    let mut i: usize = 0;
    while i < ls.len()
        invariant
            i <= lv.len(),
            lv == views(ls@),
            lv == lines(headers_text@),
            auth@ == "authorization"@,
            form_views(out@) == header_pairs(lv.take(i as int), skip_authorization),
        decreases ls.len() - i,
    {
        let ghost t = lv.take(i + 1);
        assert(t.drop_last() =~= lv.take(i as int));
        assert(t.last() == ls@[i as int]@);
        let ghost before = form_views(out@);
        match split_once_char(&ls[i], ':') {
            Some((n, v)) => {
                let name = trimmed(&n);
                if skip_authorization && eq_ignore_ascii_case(&name, &auth) {
                    assert(header_pairs(t, skip_authorization) =~= before);
                } else {
                    let value = trimmed(&v);
                    out.push((string_of(&name), string_of(&value)));
                    assert(form_views(out@) =~= before + seq![(trim(n@), trim(v@))]);
                }
            },
            None => {
                assert(header_pairs(t, skip_authorization) =~= before);
            },
        }
        i = i + 1;
    }
    assert(lv.take(lv.len() as int) =~= lv);
    out
}

fn indented(ls: &Vec<Vec<char>>) -> (r: Vec<Vec<char>>)
    ensures
        views(r@) == indented_lines(views(ls@)),
{
    let ghost lv = views(ls@);
    let mut out: Vec<Vec<char>> = Vec::new();
    let mut i: usize = 0;
    while i < ls.len()
        invariant
            i <= lv.len(),
            lv == views(ls@),
            views(out@) == indented_lines(lv.take(i as int)),
        decreases ls.len() - i,
    {
        let ghost t = lv.take(i + 1);
        assert(t.drop_last() =~= lv.take(i as int));
        assert(t.last() == ls@[i as int]@);
        let ghost before = views(out@);
        if !is_blank(&ls[i]) {
            let mut line = chars_of("  ");
            append_chars(&mut line, &ls[i]);
            out.push(line);
            assert(views(out@) =~= before + seq!["  "@ + ls@[i as int]@]);
        } else {
            assert(indented_lines(t) =~= before);
        }
        i = i + 1;
    }
    assert(lv.take(lv.len() as int) =~= lv);
    out
}

/// The request a draft makes: the environment's variables filled into the URL, headers and
/// body, the headers split into pairs, and the text logged for it.
pub fn prepare_request(
    draft: &RequestDraft,
    env_name: Option<&str>,
    vars: &EnvVars,
    extra_authorization: Option<String>,
) -> (p: PreparedRequest)
    ensures
        prepared_ok(
            p,
            draft@,
            match env_name {
                Some(n) => Some(n@),
                None => None,
            },
            vars@,
            crate::cli::opt_seq(extra_authorization),
        ),
{
    let url = apply_environment(draft.url.as_str(), vars);
    let headers_text = apply_environment(draft.headers.as_str(), vars);
    let body = apply_environment(draft.body.as_str(), vars);
    let hv = chars_of(headers_text.as_str());
    let bv = chars_of(body.as_str());
    let ghost en = match env_name {
        Some(n) => Some(n@),
        None => None::<Seq<char>>,
    };
    let mut log_lines: Vec<Vec<char>> = Vec::new();
    if let Some(name) = env_name {
        log_lines.push(chars_of(concat2("Environment: ", name).as_str()));
    }
    let mut first = chars_of(draft.method.as_str());
    first.push(' ');
    append_chars(&mut first, &chars_of(url.as_str()));
    proof {
        reveal_strlit(" ");
    }
    assert(first@ =~= method_name(draft.method) + " "@ + url@);
    log_lines.push(first);
    let ghost env_lines = match en {
        Some(n) => seq!["Environment: "@ + n],
        None => Seq::<Seq<char>>::empty(),
    };
    assert(views(log_lines@) =~= env_lines.push(method_name(draft.method) + " "@ + url@));
    if !is_blank(&hv) {
        log_lines.push(chars_of("Headers:"));
        let ls = lines_of(&hv);
        let mut ind = indented(&ls);
        let ghost before = views(log_lines@);
        log_lines.append(&mut ind);
        assert(views(log_lines@) =~= before + indented_lines(lines(hv@)));
    }
    if !is_blank(&bv) {
        log_lines.push(chars_of("Body:"));
        log_lines.push(bv.clone());
    }
    assert(views(log_lines@) =~= log_lines_spec(en, draft.method, url@, headers_text@, body@));
    let sep = chars_of("\n");
    let log = string_of(&join_chars(&log_lines, &sep));
    let mut headers = header_list(&hv, extra_authorization.is_some());
    let ghost hb = form_views(headers@);
    if let Some(value) = extra_authorization {
        headers.push((String::from_str("authorization"), value));
    }
    assert(form_views(headers@) =~= request_headers_spec(headers_text@, crate::cli::opt_seq(extra_authorization)));
    PreparedRequest { method: draft.method, url, headers, body, log }
}

} // verus!
