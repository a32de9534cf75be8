//! Request modes and authentication settings, and the headers they add.
use vstd::prelude::*;

use base64::Engine;

use crate::text::{push_str, trim_string};

verus! {

#[derive(Debug, Clone, Copy, PartialEq, Eq, Structural)]
pub enum RequestMode {
    Rest,
    GraphQl,
}

impl RequestMode {
    /// The name shown for the mode.
    pub fn label(self) -> (r: &'static str)
        ensures
            r@ == (match self {
                RequestMode::Rest => "REST"@,
                RequestMode::GraphQl => "GraphQL"@,
            }),
    {
        match self {
            RequestMode::Rest => "REST",
            RequestMode::GraphQl => "GraphQL",
        }
    }
}

#[derive(Debug, Clone, Copy, PartialEq, Eq, Structural)]
pub enum AuthKind {
    NoAuth,
    Bearer,
    ApiKey,
    Basic,
    OAuth2ClientCredentials,
}

impl AuthKind {
    /// The name shown for the kind.
    pub fn label(self) -> (r: &'static str)
        ensures
            r@ == (match self {
                AuthKind::NoAuth => "None"@,
                AuthKind::Bearer => "Bearer token"@,
                AuthKind::ApiKey => "API key"@,
                AuthKind::Basic => "Basic auth"@,
                AuthKind::OAuth2ClientCredentials => "OAuth2 client credentials"@,
            }),
    {
        match self {
            AuthKind::NoAuth => "None",
            AuthKind::Bearer => "Bearer token",
            AuthKind::ApiKey => "API key",
            AuthKind::Basic => "Basic auth",
            AuthKind::OAuth2ClientCredentials => "OAuth2 client credentials",
        }
    }
}

#[derive(Debug, Clone, Copy, PartialEq, Eq, Structural)]
pub enum ClientSecretMethod {
    BasicAuth,
    RequestBody,
}

impl ClientSecretMethod {
    /// The name shown for the method (its OAuth2 name).
    pub fn label(self) -> (r: &'static str)
        ensures
            r@ == (match self {
                ClientSecretMethod::BasicAuth => "client_secret_basic"@,
                ClientSecretMethod::RequestBody => "client_secret_post"@,
            }),
    {
        match self {
            ClientSecretMethod::BasicAuth => "client_secret_basic",
            ClientSecretMethod::RequestBody => "client_secret_post",
        }
    }
}

#[derive(Debug)]
pub struct BearerAuthState {
    pub token: String,
}

#[derive(Debug)]
pub struct ApiKeyAuthState {
    pub header_name: String,
    pub header_value: String,
}

#[derive(Debug)]
pub struct BasicAuthState {
    pub username: String,
    pub password: String,
}

#[derive(Debug)]
pub struct OAuth2ClientCredentialsAuthState {
    pub token_url: String,
    pub client_id: String,
    pub client_secret: String,
    pub scope: String,
    pub client_secret_method: ClientSecretMethod,
}

#[derive(Debug)]
pub enum AuthState {
    NoAuth,
    Bearer(BearerAuthState),
    ApiKey(ApiKeyAuthState),
    Basic(BasicAuthState),
    OAuth2ClientCredentials(OAuth2ClientCredentialsAuthState),
}

/// Authentication settings as plain values.
pub ghost enum AuthView {
    NoAuth,
    Bearer { token: Seq<char> },
    ApiKey { header_name: Seq<char>, header_value: Seq<char> },
    Basic { username: Seq<char>, password: Seq<char> },
    OAuth2 {
        token_url: Seq<char>,
        client_id: Seq<char>,
        client_secret: Seq<char>,
        scope: Seq<char>,
        client_secret_method: ClientSecretMethod,
    },
}

impl View for AuthState {
    type V = AuthView;

    open spec fn view(&self) -> AuthView {
        match self {
            AuthState::NoAuth => AuthView::NoAuth,
            AuthState::Bearer(b) => AuthView::Bearer { token: b.token@ },
            AuthState::ApiKey(a) => AuthView::ApiKey {
                header_name: a.header_name@,
                header_value: a.header_value@,
            },
            AuthState::Basic(b) => AuthView::Basic { username: b.username@, password: b.password@ },
            AuthState::OAuth2ClientCredentials(o) => AuthView::OAuth2 {
                token_url: o.token_url@,
                client_id: o.client_id@,
                client_secret: o.client_secret@,
                scope: o.scope@,
                client_secret_method: o.client_secret_method,
            },
        }
    }
}

impl Clone for BearerAuthState {
    fn clone(&self) -> (r: Self)
        ensures
            r.token@ == self.token@,
    {
        BearerAuthState { token: self.token.clone() }
    }
}

impl Clone for ApiKeyAuthState {
    fn clone(&self) -> (r: Self)
        ensures
            r.header_name@ == self.header_name@,
            r.header_value@ == self.header_value@,
    {
        ApiKeyAuthState { header_name: self.header_name.clone(), header_value: self.header_value.clone() }
    }
}

impl Clone for BasicAuthState {
    fn clone(&self) -> (r: Self)
        ensures
            r.username@ == self.username@,
            r.password@ == self.password@,
    {
        BasicAuthState { username: self.username.clone(), password: self.password.clone() }
    }
}

impl Clone for OAuth2ClientCredentialsAuthState {
    fn clone(&self) -> (r: Self)
        ensures
            r.token_url@ == self.token_url@,
            r.client_id@ == self.client_id@,
            r.client_secret@ == self.client_secret@,
            r.scope@ == self.scope@,
            r.client_secret_method == self.client_secret_method,
    {
        OAuth2ClientCredentialsAuthState {
            token_url: self.token_url.clone(),
            client_id: self.client_id.clone(),
            client_secret: self.client_secret.clone(),
            scope: self.scope.clone(),
            client_secret_method: self.client_secret_method,
        }
    }
}

impl Clone for AuthState {
    fn clone(&self) -> (r: Self)
        ensures
            r@ == self@,
    {
        match self {
            AuthState::NoAuth => AuthState::NoAuth,
            AuthState::Bearer(b) => AuthState::Bearer(b.clone()),
            AuthState::ApiKey(a) => AuthState::ApiKey(a.clone()),
            AuthState::Basic(b) => AuthState::Basic(b.clone()),
            AuthState::OAuth2ClientCredentials(o) => AuthState::OAuth2ClientCredentials(o.clone()),
        }
    }
}

impl Default for BearerAuthState {
    fn default() -> (r: Self)
        ensures
            r.token@ == Seq::<char>::empty(),
    {
        BearerAuthState { token: String::new() }
    }
}

impl Default for ApiKeyAuthState {
    fn default() -> (r: Self)
        ensures
            r.header_name@ == "Authorization"@,
            r.header_value@ == Seq::<char>::empty(),
    {
        ApiKeyAuthState { header_name: String::from_str("Authorization"), header_value: String::new() }
    }
}

impl Default for BasicAuthState {
    fn default() -> (r: Self)
        ensures
            r.username@ == Seq::<char>::empty(),
            r.password@ == Seq::<char>::empty(),
    {
        BasicAuthState { username: String::new(), password: String::new() }
    }
}

impl Default for OAuth2ClientCredentialsAuthState {
    fn default() -> (r: Self)
        ensures
            r.token_url@ == Seq::<char>::empty(),
            r.client_id@ == Seq::<char>::empty(),
            r.client_secret@ == Seq::<char>::empty(),
            r.scope@ == Seq::<char>::empty(),
            r.client_secret_method == ClientSecretMethod::BasicAuth,
    {
        OAuth2ClientCredentialsAuthState {
            token_url: String::new(),
            client_id: String::new(),
            client_secret: String::new(),
            scope: String::new(),
            client_secret_method: ClientSecretMethod::BasicAuth,
        }
    }
}

impl Default for AuthState {
    fn default() -> (r: Self)
        ensures
            r@ == AuthView::NoAuth,
    {
        AuthState::NoAuth
    }
}

/// The kind of an authentication setting.
pub open spec fn auth_kind(a: AuthView) -> AuthKind {
    match a {
        AuthView::NoAuth => AuthKind::NoAuth,
        AuthView::Bearer { .. } => AuthKind::Bearer,
        AuthView::ApiKey { .. } => AuthKind::ApiKey,
        AuthView::Basic { .. } => AuthKind::Basic,
        AuthView::OAuth2 { .. } => AuthKind::OAuth2ClientCredentials,
    }
}

/// The empty setting of a kind.
pub open spec fn default_auth(kind: AuthKind) -> AuthView {
    match kind {
        AuthKind::NoAuth => AuthView::NoAuth,
        AuthKind::Bearer => AuthView::Bearer { token: Seq::empty() },
        AuthKind::ApiKey => AuthView::ApiKey {
            header_name: "Authorization"@,
            header_value: Seq::empty(),
        },
        AuthKind::Basic => AuthView::Basic { username: Seq::empty(), password: Seq::empty() },
        AuthKind::OAuth2ClientCredentials => AuthView::OAuth2 {
            token_url: Seq::empty(),
            client_id: Seq::empty(),
            client_secret: Seq::empty(),
            scope: Seq::empty(),
            client_secret_method: ClientSecretMethod::BasicAuth,
        },
    }
}

impl AuthState {
    pub fn kind(&self) -> (k: AuthKind)
        ensures
            k == auth_kind(self@),
    {
        match self {
            AuthState::NoAuth => AuthKind::NoAuth,
            AuthState::Bearer(_) => AuthKind::Bearer,
            AuthState::ApiKey(_) => AuthKind::ApiKey,
            AuthState::Basic(_) => AuthKind::Basic,
            AuthState::OAuth2ClientCredentials(_) => AuthKind::OAuth2ClientCredentials,
        }
    }

    /// The setting for `kind`: this one when it is of that kind, else an empty one.
    pub fn with_kind(&self, kind: AuthKind) -> (r: Self)
        ensures
            r@ == (if auth_kind(self@) == kind {
                self@
            } else {
                default_auth(kind)
            }),
            auth_kind(r@) == kind,
    {
        if self.kind() == kind {
            return self.clone();
        }
        match kind {
            AuthKind::NoAuth => AuthState::NoAuth,
            AuthKind::Bearer => AuthState::Bearer(BearerAuthState::default()),
            AuthKind::ApiKey => AuthState::ApiKey(ApiKeyAuthState::default()),
            AuthKind::Basic => AuthState::Basic(BasicAuthState::default()),
            AuthKind::OAuth2ClientCredentials => AuthState::OAuth2ClientCredentials(
                OAuth2ClientCredentialsAuthState::default(),
            ),
        }
    }
}

// ---------------------------------------------------------------------------
// Headers added by authentication
// ---------------------------------------------------------------------------

/// The character of the standard base64 alphabet for a six-bit value.
pub open spec fn base64_digit(v: int) -> char {
    if v < 26 {
        (65 + v) as char
    } else if v < 52 {
        (97 + (v - 26)) as char
    } else if v < 62 {
        (48 + (v - 52)) as char
    } else if v == 62 {
        '+'
    } else {
        '/'
    }
}

/// Standard base64 with padding: each three bytes become four characters, and a last
/// one or two bytes become four characters ending in `==` or `=`.
pub open spec fn base64_of_bytes(b: Seq<u8>) -> Seq<char>
    decreases b.len(),
{
    let x = if b.len() > 0 { b[0] as int } else { 0 };
    let y = if b.len() > 1 { b[1] as int } else { 0 };
    let z = if b.len() > 2 { b[2] as int } else { 0 };
    if b.len() == 0 {
        Seq::empty()
    } else if b.len() == 1 {
        seq![base64_digit(x / 4), base64_digit((x % 4) * 16), '=', '=']
    } else if b.len() == 2 {
        seq![base64_digit(x / 4), base64_digit((x % 4) * 16 + y / 16), base64_digit((y % 16) * 4), '=']
    } else {
        seq![
            base64_digit(x / 4),
            base64_digit((x % 4) * 16 + y / 16),
            base64_digit((y % 16) * 4 + z / 64),
            base64_digit(z % 64),
        ] + base64_of_bytes(b.skip(3))
    }
}

/// Standard base64 (with padding) of the UTF-8 bytes of a text.
pub open spec fn base64_standard(text: Seq<char>) -> Seq<char> {
    base64_of_bytes(vstd::utf8::encode_utf8(text))
}

/// `base64::engine::general_purpose::STANDARD.encode` of the UTF-8 bytes of `text`:
/// standard base64 with padding.
#[verifier::external_body]
pub(crate) fn base64_encode(text: &str) -> (r: String)
    ensures
        r@ == base64_standard(text@),
{
    base64::engine::general_purpose::STANDARD.encode(text)
}

/// The `user:password` text that Basic authentication encodes.
pub open spec fn basic_credentials(username: Seq<char>, password: Seq<char>) -> Seq<char> {
    username + seq![':'] + password
}

/// The headers after authentication is applied, given the encoded Basic token.
pub open spec fn auth_headers_with_token(existing: Seq<char>, auth: AuthView, basic_token: Seq<char>) -> Seq<char> {
    match auth {
        AuthView::NoAuth => existing,
        AuthView::OAuth2 { .. } => existing,
        AuthView::Bearer { token } => existing + "\nAuthorization: Bearer "@ + crate::text::trim(token),
        AuthView::ApiKey { header_name, header_value } => existing + seq!['\n']
            + crate::text::trim(header_name) + ": "@ + crate::text::trim(header_value),
        AuthView::Basic { .. } => existing + "\nAuthorization: Basic "@ + basic_token,
    }
}

/// The headers after authentication is applied: Bearer, API key and Basic add one
/// header line; none and OAuth2 (whose token is fetched when sending) add nothing.
pub open spec fn auth_headers(existing: Seq<char>, auth: AuthView) -> Seq<char> {
    auth_headers_with_token(
        existing,
        auth,
        match auth {
            AuthView::Basic { username, password } => base64_standard(
                basic_credentials(username, password),
            ),
            _ => Seq::empty(),
        },
    )
}

/// Adds the header for `auth` to `existing`, the Basic token being already encoded.
pub fn apply_auth_headers_with_token(existing: &str, auth: &AuthState, basic_token: &str) -> (out: String)
    ensures
        out@ == auth_headers_with_token(existing@, auth@, basic_token@),
{
    let mut out = String::from_str(existing);
    match auth {
        AuthState::NoAuth | AuthState::OAuth2ClientCredentials(_) => {},
        AuthState::Bearer(bearer) => {
            push_str(&mut out, "\nAuthorization: Bearer ");
            let t = trim_string(bearer.token.as_str());
            push_str(&mut out, t.as_str());
        },
        AuthState::ApiKey(api_key) => {
            push_str(&mut out, "\n");
            let n = trim_string(api_key.header_name.as_str());
            push_str(&mut out, n.as_str());
            push_str(&mut out, ": ");
            let v = trim_string(api_key.header_value.as_str());
            push_str(&mut out, v.as_str());
            proof {
                reveal_strlit("\n");
            }
        },
        AuthState::Basic(_) => {
            push_str(&mut out, "\nAuthorization: Basic ");
            push_str(&mut out, basic_token);
        },
    }
    out
}

/// Adds the header for `auth` to `existing`.
pub fn apply_auth_headers(existing: &str, auth: &AuthState) -> (out: String)
    ensures
        out@ == auth_headers(existing@, auth@),
{
    match auth {
        AuthState::Basic(basic) => {
            let mut credentials = String::from_str(basic.username.as_str());
            push_str(&mut credentials, ":");
            push_str(&mut credentials, basic.password.as_str());
            proof {
                reveal_strlit(":");
            }
            assert(credentials@ =~= basic_credentials(basic.username@, basic.password@));
            let token = base64_encode(credentials.as_str());
            apply_auth_headers_with_token(existing, auth, token.as_str())
        },
        _ => apply_auth_headers_with_token(existing, auth, ""),
    }
}

// ---------------------------------------------------------------------------
// GraphQL bodies
// ---------------------------------------------------------------------------

#[verifier::external_type_specification]
#[verifier::external_body]
pub struct ExJsonValue(serde_json::Value);

#[verifier::external_type_specification]
#[verifier::external_body]
#[verifier::reject_recursive_types(K)]
#[verifier::reject_recursive_types(V)]
pub struct ExJsonMap<K, V>(serde_json::Map<K, V>);

/// The members of a JSON object, as `serde_json` keeps them.
pub type JsonMembers = serde_json::Map<String, serde_json::Value>;

/// A JSON value as plain values: a string by its characters, an object by its members,
/// and any other value (null, a boolean, a number, an array) by the text that
/// `serde_json::to_string` writes for it.
pub ghost enum JsonView {
    Str(Seq<char>),
    Object(Map<Seq<char>, JsonView>),
    Other(Seq<char>),
}

/// An object's members when it has none.
pub open spec fn no_members() -> Map<Seq<char>, JsonView> {
    Map::empty()
}

/// Whether `serde_json::from_str::<serde_json::Value>` accepts a text.
pub uninterp spec fn json_valid(text: Seq<char>) -> bool;

/// The value that `serde_json::from_str::<serde_json::Value>` reads from a text it accepts,
/// as plain values.
pub uninterp spec fn json_parsed(text: Seq<char>) -> JsonView;

/// A `serde_json::Value` as plain values (see `JsonView`).
pub uninterp spec fn json_view(v: serde_json::Value) -> JsonView;

/// The members of a `serde_json::Map`, each value as plain values. This build of
/// `serde_json` keeps its members in a `BTreeMap` (no `preserve_order`), so the members
/// alone make the map.
pub uninterp spec fn json_map_view(m: JsonMembers) -> Map<Seq<char>, JsonView>;

/// What `serde_json::to_string` writes for the value with a given view.
pub uninterp spec fn json_text(v: JsonView) -> Seq<char>;

/// `serde_json::from_str::<serde_json::Value>`: `Some` exactly when the text is JSON, with
/// the value it reads.
#[verifier::external_body]
pub(crate) fn json_from_str(text: &str) -> (r: Option<serde_json::Value>)
    ensures
        r is Some <==> json_valid(text@),
        r matches Some(v) ==> json_view(v) == json_parsed(text@),
{
    serde_json::from_str::<serde_json::Value>(text).ok()
}

/// `serde_json::Value::String`: the JSON string holding `s`.
#[verifier::external_body]
fn json_string(s: String) -> (r: serde_json::Value)
    ensures
        json_view(r) == JsonView::Str(s@),
{
    serde_json::Value::String(s)
}

/// `serde_json::Map::new`: an object with no members.
#[verifier::external_body]
fn json_map_new() -> (r: JsonMembers)
    ensures
        json_map_view(r) == no_members(),
{
    serde_json::Map::new()
}

/// `serde_json::Map::insert`: the member `key` now holds `value`, replacing any earlier one.
#[verifier::external_body]
fn json_map_insert(m: &mut JsonMembers, key: String, value: serde_json::Value)
    ensures
        json_map_view(*final(m)) == json_map_view(*old(m)).insert(key@, json_view(value)),
{
    m.insert(key, value);
}

/// `serde_json::Value::Object`: the object with the members of `m`.
#[verifier::external_body]
fn json_object(m: JsonMembers) -> (r: serde_json::Value)
    ensures
        json_view(r) == JsonView::Object(json_map_view(m)),
{
    serde_json::Value::Object(m)
}

/// `serde_json::Value::to_string`: the compact JSON text of a value.
#[verifier::external_body]
fn json_to_string(v: &serde_json::Value) -> (r: String)
    ensures
        r@ == json_text(json_view(*v)),
{
    v.to_string()
}

/// The GraphQL request object: the query as a string under `query`, and under
/// `variables` the value the variables text reads as, or an empty object when it is not
/// JSON.
pub open spec fn graphql_view(query: Seq<char>, variables: Seq<char>) -> JsonView {
    JsonView::Object(
        no_members().insert("query"@, JsonView::Str(query)).insert(
            "variables"@,
            if json_valid(variables) {
                json_parsed(variables)
            } else {
                JsonView::Object(no_members())
            },
        ),
    )
}

/// The JSON body of a GraphQL request; variables that are not valid JSON become `{}`.
pub fn build_graphql_body(query: &str, variables: &str) -> (body: String)
    ensures
        body@ == json_text(graphql_view(query@, variables@)),
{
    let variables_json = match json_from_str(variables) {
        Some(v) => v,
        None => json_object(json_map_new()),
    };
    let mut object = json_map_new();
    json_map_insert(&mut object, String::from_str("query"), json_string(String::from_str(query)));
    json_map_insert(&mut object, String::from_str("variables"), variables_json);
    let value = json_object(object);
    json_to_string(&value)
}

} // verus!
