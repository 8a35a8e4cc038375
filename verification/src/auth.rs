//! OAuth 2.1 authorization state: registered clients, authorization codes and access tokens,
//! and the decisions of the authorization endpoints and the bearer-token check.
//!
//! Times are milliseconds: `*_ms` values read from a monotonic clock, `*_epoch_ms` values
//! from the wall clock (milliseconds since the Unix epoch).

use vstd::prelude::*;
use vstd::utf8::*;
use crate::bindings::{
    base64_url_nopad, base64_url_nopad_of, new_uuid_string, sha256_digest, sha256_of, uuid_text,
};
use crate::keyed::{
    lemma_filter_keeps_unique,
    find_key, has_key, keys_unique, lookup, remove_by_key, remove_key, upsert,
    upsert_key, views, Keyed,
};
use crate::strings::{
    clone_opt, clone_strings, concat, contains_string, has_char, single_string, has_prefix, byte_len, byte_prefix, byte_prefix_string, chars_of, cuts_at_char, starts_with,
    string_from_chars, strip_prefix, utf8_len,
};

verus! {

broadcast use {vstd::string::group_string_axioms, vstd::utf8::group_utf8_lib};

/// How long an authorization code may be exchanged (10 minutes).
pub const AUTH_CODE_TTL_MS: u64 = 600_000;

/// Lifetime of a token issued by the token endpoint (1 hour).
pub const TOKEN_TTL_MS: u64 = 3_600_000;

/// Lifetime of a token issued by the token endpoint, in seconds.
pub const TOKEN_TTL_SECS: u64 = 3600;

/// Upper bound on the lifetime of a token minted from the admin panel (365 days).
pub const MAX_ADMIN_TOKEN_TTL_SECS: u64 = 31_536_000;

/// Client id recorded for bearer tokens minted from the admin panel. It is not the id of any
/// registered client: registration hands out UUIDs.
pub const ADMIN_TOKEN_CLIENT_ID: &'static str = "admin";

/// Time passed from `since` to `now`; zero when `now` is earlier (as `Instant::elapsed` saturates).
pub open spec fn elapsed_ms(since: u64, now: u64) -> int {
    if now >= since {
        now - since
    } else {
        0
    }
}

/// Time passed from `since` to `now`.
pub fn elapsed(since: u64, now: u64) -> (e: u64)
    ensures
        e == elapsed_ms(since, now),
{
    if now >= since {
        now - since
    } else {
        0
    }
}

/// Number of bytes of a token shown as its prefix: the first eight, or all when shorter.
pub open spec fn prefix_len(t: Seq<char>) -> int {
    if utf8_len(t) < 8 {
        utf8_len(t) as int
    } else {
        8
    }
}

/// The prefix under which a token is listed and revoked.
pub open spec fn token_prefix(t: Seq<char>) -> Seq<char> {
    byte_prefix(t, prefix_len(t))
}

/// A token whose prefix can be cut without splitting a character.
pub open spec fn prefix_cuttable(t: Seq<char>) -> bool {
    utf8_len(t) <= usize::MAX && cuts_at_char(t, prefix_len(t))
}

/// The listing prefix of a token.
pub fn token_prefix_of(t: &str) -> (p: String)
    requires
        prefix_cuttable(t@),
    ensures
        p@ == token_prefix(t@),
{
    let n = byte_len(t);
    let k: usize = if n < 8 {
        n
    } else {
        8
    };
    byte_prefix_string(t, k)
}

/// Every ASCII token of machine-representable length has a cuttable prefix.
pub proof fn lemma_ascii_prefix_cuttable(t: Seq<char>)
    requires
        is_ascii_chars(t),
        t.len() <= usize::MAX,
    ensures
        prefix_cuttable(t),
{
    let bytes = encode_utf8(t);
    assert(bytes.len() == t.len());
    let k = prefix_len(t);
    if k < bytes.len() {
        assert(bytes[k] == t[k] as u8);
        assert(!is_continuation_byte(bytes[k]));
        is_char_boundary_iff_not_is_continuation_byte(bytes, k);
    } else {
        is_char_boundary_start_end_of_seq(bytes);
    }
}

/// A client registered through dynamic client registration.
pub struct RegisteredClient {
    pub client_id: String,
    pub client_secret: String,
    pub client_name: Option<String>,
    pub redirect_uris: Vec<String>,
    pub registered_at_epoch_ms: u64,
}

/// What a registered client holds.
pub struct ClientView {
    pub client_id: Seq<char>,
    pub client_secret: Seq<char>,
    pub client_name: Option<Seq<char>>,
    pub redirect_uris: Seq<Seq<char>>,
    pub registered_at_epoch_ms: u64,
}

impl View for RegisteredClient {
    type V = ClientView;

    open spec fn view(&self) -> ClientView {
        ClientView {
            client_id: self.client_id@,
            client_secret: self.client_secret@,
            client_name: self.client_name.deep_view(),
            redirect_uris: self.redirect_uris.deep_view(),
            registered_at_epoch_ms: self.registered_at_epoch_ms,
        }
    }
}

impl Keyed for RegisteredClient {
    open spec fn key_of(v: ClientView) -> Seq<char> {
        v.client_id
    }

    fn key(&self) -> (k: &String) {
        &self.client_id
    }
}

/// An authorization code waiting to be exchanged for a token.
pub struct AuthCodeEntry {
    pub code: String,
    pub client_id: String,
    pub redirect_uri: String,
    pub code_challenge: String,
    pub created_at_ms: u64,
}

/// What an authorization code entry holds.
pub struct CodeView {
    pub code: Seq<char>,
    pub client_id: Seq<char>,
    pub redirect_uri: Seq<char>,
    pub code_challenge: Seq<char>,
    pub created_at_ms: u64,
}

impl View for AuthCodeEntry {
    type V = CodeView;

    open spec fn view(&self) -> CodeView {
        CodeView {
            code: self.code@,
            client_id: self.client_id@,
            redirect_uri: self.redirect_uri@,
            code_challenge: self.code_challenge@,
            created_at_ms: self.created_at_ms,
        }
    }
}

impl Keyed for AuthCodeEntry {
    open spec fn key_of(v: CodeView) -> Seq<char> {
        v.code
    }

    fn key(&self) -> (k: &String) {
        &self.code
    }
}

/// An access token accepted by the bearer-token check while it lives.
pub struct TokenEntry {
    pub token: String,
    pub client_id: String,
    pub label: Option<String>,
    pub created_at_ms: u64,
    pub created_at_epoch_ms: u64,
    pub expires_in_ms: u64,
}

/// What an access token entry holds.
pub struct TokenView {
    pub token: Seq<char>,
    pub client_id: Seq<char>,
    pub label: Option<Seq<char>>,
    pub created_at_ms: u64,
    pub created_at_epoch_ms: u64,
    pub expires_in_ms: u64,
}

impl View for TokenEntry {
    type V = TokenView;

    open spec fn view(&self) -> TokenView {
        TokenView {
            token: self.token@,
            client_id: self.client_id@,
            label: self.label.deep_view(),
            created_at_ms: self.created_at_ms,
            created_at_epoch_ms: self.created_at_epoch_ms,
            expires_in_ms: self.expires_in_ms,
        }
    }
}

impl Keyed for TokenEntry {
    open spec fn key_of(v: TokenView) -> Seq<char> {
        v.token
    }

    fn key(&self) -> (k: &String) {
        &self.token
    }
}

/// A token is accepted while less than its lifetime has passed since it was issued.
pub open spec fn token_live(t: TokenView, now_ms: u64) -> bool {
    elapsed_ms(t.created_at_ms, now_ms) < t.expires_in_ms
}

/// Everything the authorization server keeps.
pub struct AuthView {
    pub admin_password: Seq<char>,
    pub base_url: Seq<char>,
    pub clients: Seq<ClientView>,
    pub codes: Seq<CodeView>,
    pub tokens: Seq<TokenView>,
}

/// The authorization server's state.
pub struct OAuthState {
    admin_password: String,
    base_url: String,
    clients: Vec<RegisteredClient>,
    auth_codes: Vec<AuthCodeEntry>,
    access_tokens: Vec<TokenEntry>,
}

impl View for OAuthState {
    type V = AuthView;

    closed spec fn view(&self) -> AuthView {
        AuthView {
            admin_password: self.admin_password@,
            base_url: self.base_url@,
            clients: views(self.clients@),
            codes: views(self.auth_codes@),
            tokens: views(self.access_tokens@),
        }
    }
}

/// The invariant of the state: keys are unique in each table and every token's prefix can be cut.
pub open spec fn auth_wf(v: AuthView) -> bool {
    &&& keys_unique::<RegisteredClient>(v.clients)
    &&& keys_unique::<AuthCodeEntry>(v.codes)
    &&& keys_unique::<TokenEntry>(v.tokens)
    &&& forall|i: int| 0 <= i < v.tokens.len() ==> prefix_cuttable(#[trigger] v.tokens[i].token)
}

/// `s` without its trailing `/` characters (what `trim_end_matches('/')` returns).
pub open spec fn trim_trailing_slashes(s: Seq<char>) -> Seq<char>
    decreases s.len(),
{
    if s.len() > 0 && s.last() == '/' {
        trim_trailing_slashes(s.drop_last())
    } else {
        s
    }
}

/// `s` without its trailing `/` characters.
pub fn without_trailing_slashes(s: &str) -> (r: String)
    ensures
        r@ == trim_trailing_slashes(s@),
{
    let v = chars_of(s);
    let mut j = v.len();
    assert(v@.subrange(0, j as int) =~= v@);
    while j > 0 && v[j - 1] == '/'
        invariant
            j <= v@.len(),
            v@ == s@,
            trim_trailing_slashes(s@) == trim_trailing_slashes(v@.subrange(0, j as int)),
        decreases j,
    {
        assert(v@.subrange(0, j as int).drop_last() =~= v@.subrange(0, j - 1));
        j = j - 1;
    }
    string_from_chars(&v, 0, j)
}

impl OAuthState {
    /// The state's invariant.
    pub open spec fn wf(&self) -> bool {
        auth_wf(self@)
    }

    /// A server with no clients, codes or tokens. The base URL loses its trailing slashes.
    pub fn new(admin_password: String, base_url: String) -> (s: Self)
        ensures
            s.wf(),
            s@ == (AuthView {
                admin_password: admin_password@,
                base_url: trim_trailing_slashes(base_url@),
                clients: Seq::empty(),
                codes: Seq::empty(),
                tokens: Seq::empty(),
            }),
    {
        let base = without_trailing_slashes(base_url.as_str());
        let s = OAuthState {
            admin_password,
            base_url: base,
            clients: Vec::new(),
            auth_codes: Vec::new(),
            access_tokens: Vec::new(),
        };
        assert(s@.clients =~= Seq::empty());
        assert(s@.codes =~= Seq::empty());
        assert(s@.tokens =~= Seq::empty());
        s
    }

    /// The public base URL, without trailing slashes.
    pub fn base_url(&self) -> (r: &String)
        ensures
            r@ == self@.base_url,
    {
        &self.base_url
    }

    /// Whether `password` is the admin password.
    pub fn verify_admin_password(&self, password: &str) -> (b: bool)
        ensures
            b == (password@ == self@.admin_password),
    {
        self.admin_password.eq(&password.to_owned())
    }
}


/// Protected resource metadata (RFC 9728).
pub struct ProtectedResourceMetadata {
    pub resource: String,
    pub authorization_servers: Vec<String>,
    pub bearer_methods_supported: Vec<String>,
    pub scopes_supported: Vec<String>,
}

/// Authorization server metadata (RFC 8414).
pub struct AuthorizationServerMetadata {
    pub issuer: String,
    pub authorization_endpoint: String,
    pub token_endpoint: String,
    pub registration_endpoint: String,
    pub response_types_supported: Vec<String>,
    pub grant_types_supported: Vec<String>,
    pub code_challenge_methods_supported: Vec<String>,
    pub token_endpoint_auth_methods_supported: Vec<String>,
    pub scopes_supported: Vec<String>,
}

/// A dynamic client registration request (RFC 7591).
pub struct RegistrationRequest {
    pub client_name: Option<String>,
    pub redirect_uris: Vec<String>,
}

/// The answer to a registration: the new client's credentials and what it registered.
pub struct RegistrationResponse {
    pub client_id: String,
    pub client_secret: String,
    pub client_name: Option<String>,
    pub redirect_uris: Vec<String>,
}

/// The client that a registration records.
pub open spec fn registered_client(
    client_id: Seq<char>,
    client_secret: Seq<char>,
    req: RegistrationRequest,
    now_epoch_ms: u64,
) -> ClientView {
    ClientView {
        client_id,
        client_secret,
        client_name: req.client_name.deep_view(),
        redirect_uris: req.redirect_uris.deep_view(),
        registered_at_epoch_ms: now_epoch_ms,
    }
}

/// The query of the authorization page.
pub struct AuthorizeQuery {
    pub response_type: String,
    pub client_id: String,
    pub redirect_uri: String,
    pub state: Option<String>,
    pub code_challenge: Option<String>,
    pub code_challenge_method: Option<String>,
    pub scope: Option<String>,
}

/// The form posted from the authorization page.
pub struct AuthorizeForm {
    pub client_id: String,
    pub redirect_uri: String,
    pub state: Option<String>,
    pub code_challenge: Option<String>,
    pub code_challenge_method: Option<String>,
    pub password: String,
}

/// Why an authorization request was refused.
#[derive(PartialEq, Eq, Structural, Clone, Copy, Debug)]
pub enum AuthorizeError {
    UnsupportedResponseType,
    UnknownClient,
    RedirectUriNotRegistered,
    CodeChallengeRequired,
    ChallengeMethodNotS256,
    InvalidPassword,
}

impl AuthorizeError {
    /// The HTTP status of the refusal.
    pub fn status(&self) -> (code: u16)
        ensures
            code == (if *self == AuthorizeError::InvalidPassword {
                403u16
            } else {
                400u16
            }),
    {
        match self {
            AuthorizeError::InvalidPassword => 403,
            _ => 400,
        }
    }

    /// The text of the refusal.
    pub fn message(&self) -> (m: String)
        ensures
            m@ == authorize_error_message(*self),
    {
        match self {
            AuthorizeError::UnsupportedResponseType => "unsupported response_type".to_owned(),
            AuthorizeError::UnknownClient => "unknown client_id".to_owned(),
            AuthorizeError::RedirectUriNotRegistered => "redirect_uri not registered".to_owned(),
            AuthorizeError::CodeChallengeRequired => "code_challenge is required (PKCE is mandatory)".to_owned(),
            AuthorizeError::ChallengeMethodNotS256 => "code_challenge_method must be S256".to_owned(),
            AuthorizeError::InvalidPassword => "invalid password".to_owned(),
        }
    }
}

/// The text of each refusal.
pub open spec fn authorize_error_message(e: AuthorizeError) -> Seq<char> {
    match e {
        AuthorizeError::UnsupportedResponseType => "unsupported response_type"@,
        AuthorizeError::UnknownClient => "unknown client_id"@,
        AuthorizeError::RedirectUriNotRegistered => "redirect_uri not registered"@,
        AuthorizeError::CodeChallengeRequired => "code_challenge is required (PKCE is mandatory)"@,
        AuthorizeError::ChallengeMethodNotS256 => "code_challenge_method must be S256"@,
        AuthorizeError::InvalidPassword => "invalid password"@,
    }
}

/// Authorization page, up to the client id in its text.
pub const PAGE_HEAD: &'static str = "<!DOCTYPE html>
<html>
<head><title>MCP Server Authorization</title>
<style>
body { font-family: system-ui, sans-serif; max-width: 400px; margin: 80px auto; padding: 0 20px; }
h1 { font-size: 1.3em; }
input[type=password] { width: 100%; padding: 8px; margin: 8px 0; box-sizing: border-box; }
button { padding: 10px 20px; background: #2563eb; color: white; border: none; border-radius: 4px; cursor: pointer; }
button:hover { background: #1d4ed8; }
</style>
</head>
<body>
<h1>MCP Server Authorization</h1>
<p>Client <strong>";

/// Authorization page, between the client id and the scope note.
pub const PAGE_REQUESTING: &'static str = "</strong> is requesting access";

/// Authorization page, up to the value of the hidden `client_id` field.
pub const PAGE_FORM_CLIENT: &'static str = ".</p>
<form method=\"POST\" action=\"/authorize\">
  <input type=\"hidden\" name=\"client_id\" value=\"";

/// Authorization page, up to the value of the hidden `redirect_uri` field.
pub const PAGE_FORM_REDIRECT: &'static str = "\">
  <input type=\"hidden\" name=\"redirect_uri\" value=\"";

/// Authorization page, up to the value of the hidden `state` field.
pub const PAGE_FORM_STATE: &'static str = "\">
  <input type=\"hidden\" name=\"state\" value=\"";

/// Authorization page, up to the value of the hidden `code_challenge` field.
pub const PAGE_FORM_CHALLENGE: &'static str = "\">
  <input type=\"hidden\" name=\"code_challenge\" value=\"";

/// Authorization page, after the code challenge.
pub const PAGE_TAIL: &'static str = "\">
  <input type=\"hidden\" name=\"code_challenge_method\" value=\"S256\">
  <label>Admin Password</label>
  <input type=\"password\" name=\"password\" autofocus required>
  <button type=\"submit\">Approve</button>
</form>
</body>
</html>";

/// The note on the requested scope, if any.
pub open spec fn scope_note(scope: Option<Seq<char>>) -> Seq<char> {
    match scope {
        Some(s) => " (scope: "@ + s + ")"@,
        None => Seq::empty(),
    }
}

/// The authorization page: a password form that posts the request back.
pub open spec fn authorize_page_html(
    client_id: Seq<char>,
    redirect_uri: Seq<char>,
    state: Seq<char>,
    code_challenge: Seq<char>,
    scope: Option<Seq<char>>,
) -> Seq<char> {
    PAGE_HEAD@ + client_id + PAGE_REQUESTING@ + scope_note(scope) + PAGE_FORM_CLIENT@ + client_id
        + PAGE_FORM_REDIRECT@ + redirect_uri + PAGE_FORM_STATE@ + state + PAGE_FORM_CHALLENGE@
        + code_challenge + PAGE_TAIL@
}

/// The text of an optional string, or the empty text.
pub open spec fn or_empty(o: Option<Seq<char>>) -> Seq<char> {
    match o {
        Some(s) => s,
        None => Seq::empty(),
    }
}

/// What the authorization page answers to a query.
pub open spec fn authorize_page_result(st: AuthView, q: AuthorizeQuery) -> Result<
    Seq<char>,
    AuthorizeError,
> {
    if q.response_type@ != "code"@ {
        Err(AuthorizeError::UnsupportedResponseType)
    } else if !has_key::<RegisteredClient>(st.clients, q.client_id@) {
        Err(AuthorizeError::UnknownClient)
    } else if !lookup::<RegisteredClient>(st.clients, q.client_id@).unwrap().redirect_uris.contains(
        q.redirect_uri@,
    ) {
        Err(AuthorizeError::RedirectUriNotRegistered)
    } else if or_empty(q.code_challenge.deep_view()).len() == 0 {
        Err(AuthorizeError::CodeChallengeRequired)
    } else if q.code_challenge_method.deep_view() != Some("S256"@) {
        Err(AuthorizeError::ChallengeMethodNotS256)
    } else {
        Ok(
            authorize_page_html(
                q.client_id@,
                q.redirect_uri@,
                or_empty(q.state.deep_view()),
                or_empty(q.code_challenge.deep_view()),
                q.scope.deep_view(),
            ),
        )
    }
}

/// Where the browser is sent after approval: the redirect URI with the code (and state) added.
pub open spec fn redirect_with_code(
    redirect_uri: Seq<char>,
    code: Seq<char>,
    state: Option<Seq<char>>,
) -> Seq<char> {
    redirect_uri + (if redirect_uri.contains('?') {
        "&"@
    } else {
        "?"@
    }) + "code="@ + code + match state {
        Some(s) => "&state="@ + s,
        None => Seq::empty(),
    }
}

/// The code entry that an approval records.
pub open spec fn approved_code(form: AuthorizeForm, code: Seq<char>, now_ms: u64) -> CodeView {
    CodeView {
        code,
        client_id: form.client_id@,
        redirect_uri: form.redirect_uri@,
        code_challenge: or_empty(form.code_challenge.deep_view()),
        created_at_ms: now_ms,
    }
}

/// A token request at the token endpoint.
pub struct TokenRequest {
    pub grant_type: String,
    pub code: String,
    pub client_id: String,
    pub redirect_uri: Option<String>,
    pub code_verifier: Option<String>,
}

/// A successful answer of the token endpoint.
pub struct TokenResponse {
    pub access_token: String,
    pub token_type: String,
    pub expires_in: u64,
}

/// Why the token endpoint refused a request.
#[derive(PartialEq, Eq, Structural, Clone, Copy, Debug)]
pub enum TokenFailure {
    UnsupportedGrantType,
    UnknownCode,
    CodeExpired,
    ClientIdMismatch,
    RedirectUriMismatch,
    VerifierMissing,
    PkceFailed,
}

/// The OAuth error code of each refusal.
pub open spec fn token_failure_code(f: TokenFailure) -> Seq<char> {
    if f == TokenFailure::UnsupportedGrantType {
        "unsupported_grant_type"@
    } else {
        "invalid_grant"@
    }
}

/// The description of each refusal.
pub open spec fn token_failure_description(f: TokenFailure) -> Seq<char> {
    match f {
        TokenFailure::UnsupportedGrantType => "only authorization_code is supported"@,
        TokenFailure::UnknownCode => "invalid or expired authorization code"@,
        TokenFailure::CodeExpired => "authorization code expired"@,
        TokenFailure::ClientIdMismatch => "client_id mismatch"@,
        TokenFailure::RedirectUriMismatch => "redirect_uri mismatch"@,
        TokenFailure::VerifierMissing => "code_verifier is required (PKCE is mandatory)"@,
        TokenFailure::PkceFailed => "PKCE verification failed"@,
    }
}

impl TokenFailure {
    /// The HTTP status of every refusal (400).
    pub fn status(&self) -> (code: u16)
        ensures
            code == 400,
    {
        400
    }

    /// The OAuth error code.
    pub fn error_code(&self) -> (s: String)
        ensures
            s@ == token_failure_code(*self),
    {
        match self {
            TokenFailure::UnsupportedGrantType => "unsupported_grant_type".to_owned(),
            _ => "invalid_grant".to_owned(),
        }
    }

    /// The error description.
    pub fn description(&self) -> (s: String)
        ensures
            s@ == token_failure_description(*self),
    {
        match self {
            TokenFailure::UnsupportedGrantType => "only authorization_code is supported".to_owned(),
            TokenFailure::UnknownCode => "invalid or expired authorization code".to_owned(),
            TokenFailure::CodeExpired => "authorization code expired".to_owned(),
            TokenFailure::ClientIdMismatch => "client_id mismatch".to_owned(),
            TokenFailure::RedirectUriMismatch => "redirect_uri mismatch".to_owned(),
            TokenFailure::VerifierMissing => "code_verifier is required (PKCE is mandatory)".to_owned(),
            TokenFailure::PkceFailed => "PKCE verification failed".to_owned(),
        }
    }
}

/// Whether `verifier` hashes (SHA-256, then unpadded URL-safe Base64) to `challenge`.
pub open spec fn pkce_matches(verifier: Seq<char>, challenge: Seq<char>) -> bool {
    base64_url_nopad_of(sha256_of(encode_utf8(verifier))) == challenge
}

/// PKCE S256 check of a code verifier against the stored code challenge.
pub fn verify_pkce(code_verifier: &str, code_challenge: &str) -> (b: bool)
    ensures
        b == pkce_matches(code_verifier@, code_challenge@),
{
    let hash = sha256_digest(code_verifier.as_bytes());
    let computed = base64_url_nopad(hash.as_slice());
    computed.eq(&code_challenge.to_owned())
}

/// Why the token endpoint refuses `req`, or `None` when it issues a token.
pub open spec fn token_refusal(st: AuthView, req: TokenRequest, now_ms: u64) -> Option<TokenFailure> {
    if req.grant_type@ != "authorization_code"@ {
        Some(TokenFailure::UnsupportedGrantType)
    } else {
        match lookup::<AuthCodeEntry>(st.codes, req.code@) {
            None => Some(TokenFailure::UnknownCode),
            Some(e) => if elapsed_ms(e.created_at_ms, now_ms) > AUTH_CODE_TTL_MS {
                Some(TokenFailure::CodeExpired)
            } else if e.client_id != req.client_id@ {
                Some(TokenFailure::ClientIdMismatch)
            } else if req.redirect_uri.deep_view() is Some && req.redirect_uri.deep_view()
                != Some(e.redirect_uri) {
                Some(TokenFailure::RedirectUriMismatch)
            } else if req.code_verifier is None {
                Some(TokenFailure::VerifierMissing)
            } else if !pkce_matches(or_empty(req.code_verifier.deep_view()), e.code_challenge) {
                Some(TokenFailure::PkceFailed)
            } else {
                None
            },
        }
    }
}

/// The token that a successful exchange records.
pub open spec fn issued_token(
    token: Seq<char>,
    client_id: Seq<char>,
    now_ms: u64,
    now_epoch_ms: u64,
) -> TokenView {
    TokenView {
        token,
        client_id,
        label: None,
        created_at_ms: now_ms,
        created_at_epoch_ms: now_epoch_ms,
        expires_in_ms: TOKEN_TTL_MS,
    }
}

/// The state after the token endpoint handles `req`: a well-formed request consumes its code,
/// whether or not a token is issued; a token is recorded only when nothing refuses it.
pub open spec fn after_token_request(
    st: AuthView,
    req: TokenRequest,
    now_ms: u64,
    now_epoch_ms: u64,
    token: Seq<char>,
) -> AuthView {
    if req.grant_type@ != "authorization_code"@ {
        st
    } else if token_refusal(st, req, now_ms) is Some {
        AuthView { codes: remove_key::<AuthCodeEntry>(st.codes, req.code@), ..st }
    } else {
        AuthView {
            codes: remove_key::<AuthCodeEntry>(st.codes, req.code@),
            tokens: upsert::<TokenEntry>(
                st.tokens,
                issued_token(token, req.client_id@, now_ms, now_epoch_ms),
            ),
            ..st
        }
    }
}

/// The suffix of the resource-metadata URL.
pub const RESOURCE_METADATA_PATH: &'static str = "/.well-known/oauth-protected-resource";

/// The `WWW-Authenticate` challenge sent with a refusal; `invalid` marks a rejected token.
pub open spec fn bearer_challenge(base_url: Seq<char>, invalid: bool) -> Seq<char> {
    (if invalid {
        "Bearer error=\"invalid_token\", resource_metadata=\""@
    } else {
        "Bearer resource_metadata=\""@
    }) + base_url + RESOURCE_METADATA_PATH@ + "\""@
}

/// The token carried by an `Authorization` header, if it is a bearer header.
pub open spec fn bearer_token(header: Option<Seq<char>>) -> Option<Seq<char>> {
    match header {
        Some(h) => if starts_with(h, "Bearer "@) {
            Some(h.subrange("Bearer "@.len() as int, h.len() as int))
        } else {
            None
        },
        None => None,
    }
}

/// Whether the state holds `token` and it still lives.
pub open spec fn token_admitted(st: AuthView, token: Seq<char>, now_ms: u64) -> bool {
    match lookup::<TokenEntry>(st.tokens, token) {
        Some(t) => token_live(t, now_ms),
        None => false,
    }
}

/// What the bearer-token check decides for a request to the protected endpoint.
pub enum AuthDecision {
    /// The request goes on.
    Allow,
    /// The request is answered 401 with this challenge and body.
    Deny { www_authenticate: String, body: String },
}

/// The decision of the bearer-token check, as views.
pub open spec fn auth_decision_spec(
    st: AuthView,
    header: Option<Seq<char>>,
    now_ms: u64,
) -> Option<(Seq<char>, Seq<char>)> {
    match bearer_token(header) {
        None => Some((bearer_challenge(st.base_url, false), "authentication required"@)),
        Some(t) => if token_admitted(st, t, now_ms) {
            None
        } else {
            Some((bearer_challenge(st.base_url, true), "invalid or expired token"@))
        },
    }
}

/// The decision as views: `None` to allow, else the challenge and the body.
pub open spec fn decision_view(d: AuthDecision) -> Option<(Seq<char>, Seq<char>)> {
    match d {
        AuthDecision::Allow => None,
        AuthDecision::Deny { www_authenticate, body } => Some((www_authenticate@, body@)),
    }
}

impl OAuthState {
    /// Protected resource metadata for this server.
    pub fn protected_resource_metadata(&self) -> (m: ProtectedResourceMetadata)
        ensures
            m.resource@ == self@.base_url,
            m.authorization_servers.deep_view() == seq![self@.base_url],
            m.bearer_methods_supported.deep_view() == seq!["header"@],
            m.scopes_supported.deep_view() == seq!["mcp"@],
    {
        ProtectedResourceMetadata {
            resource: self.base_url.clone(),
            authorization_servers: single_string(self.base_url.as_str()),
            bearer_methods_supported: single_string("header"),
            scopes_supported: single_string("mcp"),
        }
    }

    /// Authorization server metadata for this server.
    pub fn authorization_server_metadata(&self) -> (m: AuthorizationServerMetadata)
        ensures
            m.issuer@ == self@.base_url,
            m.authorization_endpoint@ == self@.base_url + "/authorize"@,
            m.token_endpoint@ == self@.base_url + "/token"@,
            m.registration_endpoint@ == self@.base_url + "/register"@,
            m.response_types_supported.deep_view() == seq!["code"@],
            m.grant_types_supported.deep_view() == seq!["authorization_code"@],
            m.code_challenge_methods_supported.deep_view() == seq!["S256"@],
            m.token_endpoint_auth_methods_supported.deep_view() == seq!["client_secret_post"@],
            m.scopes_supported.deep_view() == seq!["mcp"@],
    {
        let base = self.base_url.as_str();
        AuthorizationServerMetadata {
            issuer: self.base_url.clone(),
            authorization_endpoint: concat(base, "/authorize"),
            token_endpoint: concat(base, "/token"),
            registration_endpoint: concat(base, "/register"),
            response_types_supported: single_string("code"),
            grant_types_supported: single_string("authorization_code"),
            code_challenge_methods_supported: single_string("S256"),
            token_endpoint_auth_methods_supported: single_string("client_secret_post"),
            scopes_supported: single_string("mcp"),
        }
    }

    /// Records a client under the given credentials (replacing a client with the same id).
    pub fn register_client(
        &mut self,
        req: RegistrationRequest,
        client_id: String,
        client_secret: String,
        now_epoch_ms: u64,
    ) -> (resp: RegistrationResponse)
        requires
            old(self).wf(),
        ensures
            final(self).wf(),
            final(self)@ == (AuthView {
                clients: upsert::<RegisteredClient>(
                    old(self)@.clients,
                    registered_client(client_id@, client_secret@, req, now_epoch_ms),
                ),
                ..old(self)@
            }),
            resp.client_id@ == client_id@,
            resp.client_secret@ == client_secret@,
            resp.client_name.deep_view() == req.client_name.deep_view(),
            resp.redirect_uris.deep_view() == req.redirect_uris.deep_view(),
    {
        let record = RegisteredClient {
            client_id: client_id.clone(),
            client_secret: client_secret.clone(),
            client_name: clone_opt(&req.client_name),
            redirect_uris: clone_strings(&req.redirect_uris),
            registered_at_epoch_ms: now_epoch_ms,
        };
        upsert_key(&mut self.clients, record);
        RegistrationResponse {
            client_id,
            client_secret,
            client_name: req.client_name,
            redirect_uris: req.redirect_uris,
        }
    }

    /// Registers a client under a fresh random id and secret.
    pub fn register(&mut self, req: RegistrationRequest, now_epoch_ms: u64) -> (resp:
        RegistrationResponse)
        requires
            old(self).wf(),
        ensures
            final(self).wf(),
            final(self)@ == (AuthView {
                clients: upsert::<RegisteredClient>(
                    old(self)@.clients,
                    registered_client(resp.client_id@, resp.client_secret@, req, now_epoch_ms),
                ),
                ..old(self)@
            }),
            uuid_text(resp.client_id@),
            uuid_text(resp.client_secret@),
            resp.client_name.deep_view() == req.client_name.deep_view(),
            resp.redirect_uris.deep_view() == req.redirect_uris.deep_view(),
    {
        let client_id = new_uuid_string();
        let client_secret = new_uuid_string();
        self.register_client(req, client_id, client_secret, now_epoch_ms)
    }

    /// The authorization page for `q`, or why it is refused.
    pub fn authorize_page(&self, q: &AuthorizeQuery) -> (r: Result<String, AuthorizeError>)
        requires
            self.wf(),
        ensures
            match (r, authorize_page_result(self@, *q)) {
                (Ok(html), Ok(expected)) => html@ == expected,
                (Err(e), Err(expected)) => e == expected,
                _ => false,
            },
    {
        if !q.response_type.eq(&"code".to_owned()) {
            return Err(AuthorizeError::UnsupportedResponseType);
        }
        let i = match find_key(&self.clients, &q.client_id) {
            Some(i) => i,
            None => return Err(AuthorizeError::UnknownClient),
        };
        assert(views(self.clients@)[i as int] == self.clients@[i as int]@);
        if !contains_string(&self.clients[i].redirect_uris, &q.redirect_uri) {
            return Err(AuthorizeError::RedirectUriNotRegistered);
        }
        let code_challenge: &String = match &q.code_challenge {
            Some(c) => {
                if c.as_str().is_empty() {
                    return Err(AuthorizeError::CodeChallengeRequired);
                }
                c
            },
            None => return Err(AuthorizeError::CodeChallengeRequired),
        };
        let method_ok = match &q.code_challenge_method {
            Some(m) => m.eq(&"S256".to_owned()),
            None => false,
        };
        if !method_ok {
            return Err(AuthorizeError::ChallengeMethodNotS256);
        }
        let mut html = PAGE_HEAD.to_owned();
        html.append(q.client_id.as_str());
        html.append(PAGE_REQUESTING);
        match &q.scope {
            Some(scope) => {
                html.append(" (scope: ");
                html.append(scope.as_str());
                html.append(")");
            },
            None => {},
        }
        html.append(PAGE_FORM_CLIENT);
        html.append(q.client_id.as_str());
        html.append(PAGE_FORM_REDIRECT);
        html.append(q.redirect_uri.as_str());
        html.append(PAGE_FORM_STATE);
        match &q.state {
            Some(state) => html.append(state.as_str()),
            None => {},
        }
        html.append(PAGE_FORM_CHALLENGE);
        html.append(code_challenge.as_str());
        html.append(PAGE_TAIL);
        Ok(html)
    }

    /// Approves an authorization request under the given code: with the admin password, records
    /// the code and answers the redirect URL; otherwise refuses.
    pub fn approve_with_code(&mut self, form: AuthorizeForm, code: String, now_ms: u64) -> (r:
        Result<String, AuthorizeError>)
        requires
            old(self).wf(),
        ensures
            final(self).wf(),
            form.password@ != old(self)@.admin_password ==> r == Err::<String, AuthorizeError>(
                AuthorizeError::InvalidPassword,
            ) && final(self)@ == old(self)@,
            form.password@ == old(self)@.admin_password ==> r is Ok && final(self)@ == (AuthView {
                codes: upsert::<AuthCodeEntry>(
                    old(self)@.codes,
                    approved_code(form, code@, now_ms),
                ),
                ..old(self)@
            }),
            r matches Ok(url) ==> url@ == redirect_with_code(
                form.redirect_uri@,
                code@,
                form.state.deep_view(),
            ),
    {
        if !self.admin_password.eq(&form.password) {
            return Err(AuthorizeError::InvalidPassword);
        }
        let challenge = match &form.code_challenge {
            Some(c) => c.clone(),
            None => String::new(),
        };
        let entry = AuthCodeEntry {
            code: code.clone(),
            client_id: form.client_id,
            redirect_uri: form.redirect_uri.clone(),
            code_challenge: challenge,
            created_at_ms: now_ms,
        };
        upsert_key(&mut self.auth_codes, entry);
        let mut url = form.redirect_uri.clone();
        if has_char(form.redirect_uri.as_str(), '?') {
            url.append("&");
        } else {
            url.append("?");
        }
        url.append("code=");
        url.append(code.as_str());
        match &form.state {
            Some(state) => {
                url.append("&state=");
                url.append(state.as_str());
            },
            None => {},
        }
        Ok(url)
    }

    /// Approves an authorization request under a fresh random code.
    pub fn approve(&mut self, form: AuthorizeForm, now_ms: u64) -> (r: Result<
        String,
        AuthorizeError,
    >)
        requires
            old(self).wf(),
        ensures
            final(self).wf(),
            form.password@ != old(self)@.admin_password ==> r == Err::<String, AuthorizeError>(
                AuthorizeError::InvalidPassword,
            ) && final(self)@ == old(self)@,
            form.password@ == old(self)@.admin_password ==> exists|code: Seq<char>|
                #![trigger approved_code(form, code, now_ms)]
                {
                    &&& uuid_text(code)
                    &&& final(self)@ == (AuthView {
                        codes: upsert::<AuthCodeEntry>(
                            old(self)@.codes,
                            approved_code(form, code, now_ms),
                        ),
                        ..old(self)@
                    })
                    &&& (r matches Ok(url) && url@ == redirect_with_code(
                        form.redirect_uri@,
                        code,
                        form.state.deep_view(),
                    ))
                },
    {
        let code = new_uuid_string();
        let ghost c = code@;
        let r = self.approve_with_code(form, code, now_ms);
        assert(form.password@ == old(self)@.admin_password ==> uuid_text(c) && final(self)@ == (AuthView {
            codes: upsert::<AuthCodeEntry>(old(self)@.codes, approved_code(form, c, now_ms)),
            ..old(self)@
        }));
        r
    }

    /// Handles a token request with `access_token` as the token to issue.
    pub fn exchange_code(
        &mut self,
        req: TokenRequest,
        now_ms: u64,
        now_epoch_ms: u64,
        access_token: String,
    ) -> (r: Result<TokenResponse, TokenFailure>)
        requires
            old(self).wf(),
            prefix_cuttable(access_token@),
        ensures
            final(self).wf(),
            final(self)@ == after_token_request(
                old(self)@,
                req,
                now_ms,
                now_epoch_ms,
                access_token@,
            ),
            match r {
                Ok(resp) => token_refusal(old(self)@, req, now_ms) is None
                    && resp.access_token@ == access_token@ && resp.token_type@ == "bearer"@
                    && resp.expires_in == TOKEN_TTL_SECS,
                Err(f) => token_refusal(old(self)@, req, now_ms) == Some(f),
            },
    {
        if !req.grant_type.eq(&"authorization_code".to_owned()) {
            return Err(TokenFailure::UnsupportedGrantType);
        }
        let ghost before = self@;
        let entry = match remove_by_key(&mut self.auth_codes, &req.code) {
            Some(e) => e,
            None => return Err(TokenFailure::UnknownCode),
        };
        assert(self@ == (AuthView { codes: remove_key::<AuthCodeEntry>(before.codes, req.code@), ..before }));
        if elapsed(entry.created_at_ms, now_ms) > AUTH_CODE_TTL_MS {
            return Err(TokenFailure::CodeExpired);
        }
        if !entry.client_id.eq(&req.client_id) {
            return Err(TokenFailure::ClientIdMismatch);
        }
        match &req.redirect_uri {
            Some(uri) => {
                if !uri.eq(&entry.redirect_uri) {
                    return Err(TokenFailure::RedirectUriMismatch);
                }
            },
            None => {},
        }
        let verifier = match &req.code_verifier {
            Some(v) => v,
            None => return Err(TokenFailure::VerifierMissing),
        };
        if !verify_pkce(verifier.as_str(), entry.code_challenge.as_str()) {
            return Err(TokenFailure::PkceFailed);
        }
        let token = TokenEntry {
            token: access_token.clone(),
            client_id: req.client_id.clone(),
            label: None,
            created_at_ms: now_ms,
            created_at_epoch_ms: now_epoch_ms,
            expires_in_ms: TOKEN_TTL_MS,
        };
        let ghost mid = views(self.access_tokens@);
        upsert_key(&mut self.access_tokens, token);
        proof {
            lemma_upsert_keeps_cuttable(mid, issued_token(access_token@, req.client_id@, now_ms, now_epoch_ms));
        }
        Ok(TokenResponse { access_token, token_type: "bearer".to_owned(), expires_in: TOKEN_TTL_SECS })
    }

    /// Handles a token request, issuing a fresh random token on success.
    pub fn exchange(&mut self, req: TokenRequest, now_ms: u64, now_epoch_ms: u64) -> (r: Result<
        TokenResponse,
        TokenFailure,
    >)
        requires
            old(self).wf(),
        ensures
            final(self).wf(),
            match r {
                Ok(resp) => token_refusal(old(self)@, req, now_ms) is None
                    && uuid_text(resp.access_token@) && resp.token_type@ == "bearer"@
                    && resp.expires_in == TOKEN_TTL_SECS && final(self)@ == after_token_request(
                    old(self)@,
                    req,
                    now_ms,
                    now_epoch_ms,
                    resp.access_token@,
                ),
                Err(f) => token_refusal(old(self)@, req, now_ms) == Some(f) && final(self)@
                    == after_token_request(old(self)@, req, now_ms, now_epoch_ms, Seq::empty()),
            },
    {
        let access_token = new_uuid_string();
        proof {
            lemma_ascii_prefix_cuttable(access_token@);
        }
        self.exchange_code(req, now_ms, now_epoch_ms, access_token)
    }

    /// The bearer-token check of a request to the protected endpoint.
    pub fn check_bearer(&self, authorization: Option<&str>, now_ms: u64) -> (d: AuthDecision)
        requires
            self.wf(),
        ensures
            decision_view(d) == auth_decision_spec(self@, authorization.deep_view(), now_ms),
    {
        let token = match authorization {
            Some(h) => strip_prefix(h, "Bearer "),
            None => None,
        };
        match token {
            None => AuthDecision::Deny {
                www_authenticate: self.challenge(false),
                body: "authentication required".to_owned(),
            },
            Some(t) => {
                let admitted = match find_key(&self.access_tokens, &t) {
                    Some(i) => {
                        assert(views(self.access_tokens@)[i as int] == self.access_tokens@[i as int]@);
                        let e = &self.access_tokens[i];
                        elapsed(e.created_at_ms, now_ms) < e.expires_in_ms
                    },
                    None => false,
                };
                if admitted {
                    AuthDecision::Allow
                } else {
                    AuthDecision::Deny {
                        www_authenticate: self.challenge(true),
                        body: "invalid or expired token".to_owned(),
                    }
                }
            },
        }
    }

    /// The `WWW-Authenticate` challenge for this server.
    pub fn challenge(&self, invalid: bool) -> (s: String)
        ensures
            s@ == bearer_challenge(self@.base_url, invalid),
    {
        let mut s = if invalid {
            "Bearer error=\"invalid_token\", resource_metadata=\"".to_owned()
        } else {
            "Bearer resource_metadata=\"".to_owned()
        };
        s.append(self.base_url.as_str());
        s.append(RESOURCE_METADATA_PATH);
        s.append("\"");
        s
    }
}

/// Storing a token with a cuttable prefix keeps every stored prefix cuttable.
proof fn lemma_upsert_keeps_cuttable(s: Seq<TokenView>, t: TokenView)
    requires
        forall|i: int| 0 <= i < s.len() ==> prefix_cuttable(#[trigger] s[i].token),
        prefix_cuttable(t.token),
    ensures
        forall|i: int|
            0 <= i < upsert::<TokenEntry>(s, t).len() ==> prefix_cuttable(
                #[trigger] upsert::<TokenEntry>(s, t)[i].token,
            ),
{
}

/// The test that keeps live tokens.
pub open spec fn live_at(now_ms: u64) -> spec_fn(TokenView) -> bool {
    |t: TokenView| token_live(t, now_ms)
}

/// The test that keeps tokens of other clients than `client_id`.
pub open spec fn not_of_client(client_id: Seq<char>) -> spec_fn(TokenView) -> bool {
    |t: TokenView| t.client_id != client_id
}

/// The test that keeps codes that can still be exchanged.
pub open spec fn code_fresh_at(now_ms: u64) -> spec_fn(CodeView) -> bool {
    |c: CodeView| elapsed_ms(c.created_at_ms, now_ms) <= AUTH_CODE_TTL_MS
}

/// Number of live tokens issued to `client_id`.
pub open spec fn live_tokens_of(tokens: Seq<TokenView>, client_id: Seq<char>, now_ms: u64) -> nat
    decreases tokens.len(),
{
    if tokens.len() == 0 {
        0
    } else {
        live_tokens_of(tokens.drop_last(), client_id, now_ms) + if tokens.last().client_id
            == client_id && token_live(tokens.last(), now_ms) {
            1nat
        } else {
            0nat
        }
    }
}

/// A registered client as the admin panel lists it.
pub struct ClientInfo {
    pub client_id: String,
    pub client_name: Option<String>,
    pub redirect_uris: Vec<String>,
    pub registered_at_epoch_ms: u64,
    pub active_tokens: usize,
}

/// What a client listing holds.
pub struct ClientInfoView {
    pub client_id: Seq<char>,
    pub client_name: Option<Seq<char>>,
    pub redirect_uris: Seq<Seq<char>>,
    pub registered_at_epoch_ms: u64,
    pub active_tokens: nat,
}

impl View for ClientInfo {
    type V = ClientInfoView;

    open spec fn view(&self) -> ClientInfoView {
        ClientInfoView {
            client_id: self.client_id@,
            client_name: self.client_name.deep_view(),
            redirect_uris: self.redirect_uris.deep_view(),
            registered_at_epoch_ms: self.registered_at_epoch_ms,
            active_tokens: self.active_tokens as nat,
        }
    }
}

/// The listing of each client.
pub open spec fn client_info_at(tokens: Seq<TokenView>, now_ms: u64) -> spec_fn(ClientView) -> ClientInfoView {
    |c: ClientView| client_info(c, tokens, now_ms)
}

/// The listing of client `c`.
pub open spec fn client_info(c: ClientView, tokens: Seq<TokenView>, now_ms: u64) -> ClientInfoView {
    ClientInfoView {
        client_id: c.client_id,
        client_name: c.client_name,
        redirect_uris: c.redirect_uris,
        registered_at_epoch_ms: c.registered_at_epoch_ms,
        active_tokens: live_tokens_of(tokens, c.client_id, now_ms),
    }
}

/// A live access token as the admin panel lists it.
pub struct TokenInfo {
    pub token_prefix: String,
    pub client_id: String,
    pub label: Option<String>,
    pub created_at_epoch_ms: u64,
    pub expires_in_secs: u64,
    pub remaining_secs: u64,
}

/// What a token listing holds.
pub struct TokenInfoView {
    pub token_prefix: Seq<char>,
    pub client_id: Seq<char>,
    pub label: Option<Seq<char>>,
    pub created_at_epoch_ms: u64,
    pub expires_in_secs: u64,
    pub remaining_secs: u64,
}

impl View for TokenInfo {
    type V = TokenInfoView;

    open spec fn view(&self) -> TokenInfoView {
        TokenInfoView {
            token_prefix: self.token_prefix@,
            client_id: self.client_id@,
            label: self.label.deep_view(),
            created_at_epoch_ms: self.created_at_epoch_ms,
            expires_in_secs: self.expires_in_secs,
            remaining_secs: self.remaining_secs,
        }
    }
}

/// The listing of a live token `t` (whole seconds, rounded down).
pub open spec fn token_info(t: TokenView, now_ms: u64) -> TokenInfoView {
    TokenInfoView {
        token_prefix: token_prefix(t.token),
        client_id: t.client_id,
        label: t.label,
        created_at_epoch_ms: t.created_at_epoch_ms,
        expires_in_secs: t.expires_in_ms / 1000,
        remaining_secs: ((t.expires_in_ms - elapsed_ms(t.created_at_ms, now_ms)) / 1000) as u64,
    }
}

/// The listing maps of the live tokens.
pub open spec fn token_infos(tokens: Seq<TokenView>, now_ms: u64) -> Seq<TokenInfoView> {
    tokens.filter(live_at(now_ms)).map_values(token_info_at(now_ms))
}

/// The listing of each live token.
pub open spec fn token_info_at(now_ms: u64) -> spec_fn(TokenView) -> TokenInfoView {
    |t: TokenView| token_info(t, now_ms)
}

/// A bearer token minted from the admin panel.
pub struct CreatedAdminToken {
    pub access_token: String,
    pub token_prefix: String,
    pub label: Option<String>,
    pub expires_in_secs: u64,
}

/// An admin token's lifetime in seconds: the requested one, at most 365 days.
pub open spec fn admin_ttl_secs(requested_secs: u64) -> u64 {
    if requested_secs < MAX_ADMIN_TOKEN_TTL_SECS {
        requested_secs
    } else {
        MAX_ADMIN_TOKEN_TTL_SECS
    }
}

/// The token entry an admin mint records.
pub open spec fn admin_token(
    token: Seq<char>,
    label: Option<Seq<char>>,
    requested_secs: u64,
    now_ms: u64,
    now_epoch_ms: u64,
) -> TokenView {
    TokenView {
        token,
        client_id: ADMIN_TOKEN_CLIENT_ID@,
        label,
        created_at_ms: now_ms,
        created_at_epoch_ms: now_epoch_ms,
        expires_in_ms: (admin_ttl_secs(requested_secs) * 1000) as u64,
    }
}

/// Whether some stored token starts with `prefix`, and the first one that does sits at `i`.
pub open spec fn first_prefix_match(tokens: Seq<TokenView>, prefix: Seq<char>, i: int) -> bool {
    &&& 0 <= i < tokens.len()
    &&& starts_with(tokens[i].token, prefix)
    &&& forall|j: int| 0 <= j < i ==> !starts_with(#[trigger] tokens[j].token, prefix)
}

/// Keeps the live tokens of `v`, in order.
fn keep_live(v: Vec<TokenEntry>, now_ms: u64) -> (r: Vec<TokenEntry>)
    ensures
        views(r@) == views(v@).filter(live_at(now_ms)),
{
    let ghost all = views(v@);
    let mut r: Vec<TokenEntry> = Vec::new();
    for t in it: v.into_iter()
        invariant
            it.seq() == v@,
            all == views(v@),
            views(r@) == all.take(it.index() as int).filter(live_at(now_ms)),
    {
        let ghost k = it.index() as int;
        proof {
            assert(all.take(k + 1) =~= all.take(k).push(t@));
            all.take(k).lemma_filter_push(t@, live_at(now_ms));
        }
        if elapsed(t.created_at_ms, now_ms) < t.expires_in_ms {
            r.push(t);
            assert(views(r@) =~= all.take(k).filter(live_at(now_ms)).push(t@));
        }
    }
    assert(all.take(all.len() as int) =~= all);
    r
}

/// Keeps the tokens of `v` not issued to `client_id`, in order.
fn keep_other_clients(v: Vec<TokenEntry>, client_id: &String) -> (r: Vec<TokenEntry>)
    ensures
        views(r@) == views(v@).filter(not_of_client(client_id@)),
{
    let ghost all = views(v@);
    let mut r: Vec<TokenEntry> = Vec::new();
    for t in it: v.into_iter()
        invariant
            it.seq() == v@,
            all == views(v@),
            views(r@) == all.take(it.index() as int).filter(not_of_client(client_id@)),
    {
        let ghost k = it.index() as int;
        proof {
            assert(all.take(k + 1) =~= all.take(k).push(t@));
            all.take(k).lemma_filter_push(t@, not_of_client(client_id@));
        }
        if !t.client_id.eq(client_id) {
            r.push(t);
            assert(views(r@) =~= all.take(k).filter(not_of_client(client_id@)).push(t@));
        }
    }
    assert(all.take(all.len() as int) =~= all);
    r
}

/// Keeps the codes of `v` that can still be exchanged, in order.
fn keep_fresh_codes(v: Vec<AuthCodeEntry>, now_ms: u64) -> (r: Vec<AuthCodeEntry>)
    ensures
        views(r@) == views(v@).filter(code_fresh_at(now_ms)),
{
    let ghost all = views(v@);
    let mut r: Vec<AuthCodeEntry> = Vec::new();
    for c in it: v.into_iter()
        invariant
            it.seq() == v@,
            all == views(v@),
            views(r@) == all.take(it.index() as int).filter(code_fresh_at(now_ms)),
    {
        let ghost k = it.index() as int;
        proof {
            assert(all.take(k + 1) =~= all.take(k).push(c@));
            all.take(k).lemma_filter_push(c@, code_fresh_at(now_ms));
        }
        if elapsed(c.created_at_ms, now_ms) <= AUTH_CODE_TTL_MS {
            r.push(c);
            assert(views(r@) =~= all.take(k).filter(code_fresh_at(now_ms)).push(c@));
        }
    }
    assert(all.take(all.len() as int) =~= all);
    r
}

/// Filtering keeps every token prefix cuttable.
proof fn lemma_filter_keeps_cuttable(s: Seq<TokenView>, p: spec_fn(TokenView) -> bool)
    requires
        forall|i: int| 0 <= i < s.len() ==> prefix_cuttable(#[trigger] s[i].token),
    ensures
        forall|i: int| 0 <= i < s.filter(p).len() ==> prefix_cuttable(#[trigger] s.filter(p)[i].token),
{
    assert forall|i: int| 0 <= i < s.filter(p).len() implies prefix_cuttable(#[trigger] s.filter(p)[i].token) by {
        assert(s.filter(p).contains(s.filter(p)[i]));
        s.lemma_filter_contains_rev(p, s.filter(p)[i]);
        assert(s.contains(s.filter(p)[i]));
    }
}

/// Removing an entry keeps keys unique and token prefixes cuttable.
proof fn lemma_remove_keeps_wf(st: AuthView, i: int)
    requires
        auth_wf(st),
        0 <= i < st.tokens.len(),
    ensures
        auth_wf(AuthView { tokens: st.tokens.remove(i), ..st }),
{
    let t = st.tokens.remove(i);
    assert forall|a: int, b: int| 0 <= a < t.len() && 0 <= b < t.len() && a != b implies
        TokenEntry::key_of(t[a]) != TokenEntry::key_of(t[b]) by {
        let a0 = if a < i { a } else { a + 1 };
        let b0 = if b < i { b } else { b + 1 };
        assert(t[a] == st.tokens[a0]);
        assert(t[b] == st.tokens[b0]);
    }
    assert forall|a: int| 0 <= a < t.len() implies prefix_cuttable(#[trigger] t[a].token) by {
        let a0 = if a < i { a } else { a + 1 };
        assert(t[a] == st.tokens[a0]);
    }
}

impl OAuthState {
    /// Number of live tokens issued to `client_id`.
    fn count_live_of(&self, client_id: &String, now_ms: u64) -> (n: usize)
        ensures
            n == live_tokens_of(self@.tokens, client_id@, now_ms),
    {
        let ghost all = self@.tokens;
        let m = self.access_tokens.len();
        let mut count: usize = 0;
        let mut j: usize = 0;
        while j < m
            invariant
                m == self.access_tokens@.len(),
                all == self@.tokens,
                j <= m,
                count <= j,
                count == live_tokens_of(all.take(j as int), client_id@, now_ms),
            decreases m - j,
        {
            let t = &self.access_tokens[j];
            assert(all[j as int] == t@);
            assert(all.take(j + 1).drop_last() =~= all.take(j as int));
            if t.client_id.eq(client_id) && elapsed(t.created_at_ms, now_ms) < t.expires_in_ms {
                count = count + 1;
            }
            j = j + 1;
        }
        assert(all.take(m as int) =~= all);
        count
    }

    /// The registered clients, each with its number of live tokens.
    pub fn list_clients(&self, now_ms: u64) -> (r: Vec<ClientInfo>)
        requires
            self.wf(),
        ensures
            views(r@) == self@.clients.map_values(client_info_at(self@.tokens, now_ms)),
    {
        let ghost f = client_info_at(self@.tokens, now_ms);
        let ghost all = self@.clients;
        let n = self.clients.len();
        let mut r: Vec<ClientInfo> = Vec::new();
        let mut i: usize = 0;
        while i < n
            invariant
                n == self.clients@.len(),
                all == self@.clients,
                f == client_info_at(self@.tokens, now_ms),
                i <= n,
                views(r@) == all.take(i as int).map_values(f),
            decreases n - i,
        {
            let c = &self.clients[i];
            assert(all[i as int] == c@);
            let count = self.count_live_of(&c.client_id, now_ms);
            let info = ClientInfo {
                client_id: c.client_id.clone(),
                client_name: clone_opt(&c.client_name),
                redirect_uris: clone_strings(&c.redirect_uris),
                registered_at_epoch_ms: c.registered_at_epoch_ms,
                active_tokens: count,
            };
            assert(f(c@) == info@);
            let ghost prev = views(r@);
            r.push(info);
            assert(views(r@) =~= prev.push(info@));
            assert(all.take(i + 1) =~= all.take(i as int).push(c@));
            i = i + 1;
            assert(views(r@) =~= all.take(i as int).map_values(f));
        }
        assert(all.take(n as int) =~= all);
        r
    }

    /// The live tokens, in store order.
    pub fn list_tokens(&self, now_ms: u64) -> (r: Vec<TokenInfo>)
        requires
            self.wf(),
        ensures
            views(r@) == token_infos(self@.tokens, now_ms),
    {
        let ghost all = self@.tokens;
        let ghost p = live_at(now_ms);
        let ghost f = token_info_at(now_ms);
        let n = self.access_tokens.len();
        let mut r: Vec<TokenInfo> = Vec::new();
        let mut i: usize = 0;
        while i < n
            invariant
                n == self.access_tokens@.len(),
                all == self@.tokens,
                auth_wf(self@),
                p == live_at(now_ms),
                f == token_info_at(now_ms),
                i <= n,
                views(r@) == all.take(i as int).filter(p).map_values(f),
            decreases n - i,
        {
            let t = &self.access_tokens[i];
            assert(all[i as int] == t@);
            proof {
                assert(all.take(i + 1) =~= all.take(i as int).push(t@));
                all.take(i as int).lemma_filter_push(t@, p);
            }
            let e = elapsed(t.created_at_ms, now_ms);
            if e < t.expires_in_ms {
                assert(prefix_cuttable(all[i as int].token));
                let info = TokenInfo {
                    token_prefix: token_prefix_of(t.token.as_str()),
                    client_id: t.client_id.clone(),
                    label: clone_opt(&t.label),
                    created_at_epoch_ms: t.created_at_epoch_ms,
                    expires_in_secs: t.expires_in_ms / 1000,
                    remaining_secs: (t.expires_in_ms - e) / 1000,
                };
                let ghost prev = views(r@);
                r.push(info);
                assert(p(t@));
                assert(all.take(i + 1).filter(p) == all.take(i as int).filter(p).push(t@));
                assert(f(t@) == info@);
                assert(views(r@) =~= prev.push(info@));
                assert(views(r@) =~= all.take(i + 1).filter(p).map_values(f));
            }
            i = i + 1;
        }
        assert(all.take(n as int) =~= all);
        r
    }

    /// Number of registered clients.
    pub fn active_client_count(&self) -> (n: usize)
        ensures
            n == self@.clients.len(),
    {
        self.clients.len()
    }

    /// Number of live tokens.
    pub fn active_token_count(&self, now_ms: u64) -> (n: usize)
        ensures
            n == self@.tokens.filter(live_at(now_ms)).len(),
    {
        let ghost all = self@.tokens;
        let ghost p = live_at(now_ms);
        let m = self.access_tokens.len();
        let mut count: usize = 0;
        let mut j: usize = 0;
        while j < m
            invariant
                m == self.access_tokens@.len(),
                all == self@.tokens,
                p == live_at(now_ms),
                j <= m,
                count == all.take(j as int).filter(p).len(),
                count <= j,
            decreases m - j,
        {
            let t = &self.access_tokens[j];
            assert(all[j as int] == t@);
            proof {
                assert(all.take(j + 1) =~= all.take(j as int).push(t@));
                all.take(j as int).lemma_filter_push(t@, p);
            }
            if elapsed(t.created_at_ms, now_ms) < t.expires_in_ms {
                count = count + 1;
            }
            j = j + 1;
        }
        assert(all.take(m as int) =~= all);
        count
    }

    /// Mints a bearer token `access_token` from the admin panel; its lifetime is the requested
    /// one, at most 365 days.
    pub fn create_admin_token_with(
        &mut self,
        label: Option<String>,
        ttl_secs: u64,
        now_ms: u64,
        now_epoch_ms: u64,
        access_token: String,
    ) -> (created: CreatedAdminToken)
        requires
            old(self).wf(),
            prefix_cuttable(access_token@),
        ensures
            final(self).wf(),
            final(self)@ == (AuthView {
                tokens: upsert::<TokenEntry>(
                    old(self)@.tokens,
                    admin_token(access_token@, label.deep_view(), ttl_secs, now_ms, now_epoch_ms),
                ),
                ..old(self)@
            }),
            created.access_token@ == access_token@,
            created.token_prefix@ == token_prefix(access_token@),
            created.label.deep_view() == label.deep_view(),
            created.expires_in_secs == admin_ttl_secs(ttl_secs),
    {
        let ttl: u64 = if ttl_secs < MAX_ADMIN_TOKEN_TTL_SECS {
            ttl_secs
        } else {
            MAX_ADMIN_TOKEN_TTL_SECS
        };
        let token_prefix = token_prefix_of(access_token.as_str());
        let entry = TokenEntry {
            token: access_token.clone(),
            client_id: ADMIN_TOKEN_CLIENT_ID.to_owned(),
            label: clone_opt(&label),
            created_at_ms: now_ms,
            created_at_epoch_ms: now_epoch_ms,
            expires_in_ms: ttl * 1000,
        };
        let ghost mid = views(self.access_tokens@);
        upsert_key(&mut self.access_tokens, entry);
        proof {
            lemma_upsert_keeps_cuttable(
                mid,
                admin_token(access_token@, label.deep_view(), ttl_secs, now_ms, now_epoch_ms),
            );
        }
        CreatedAdminToken { access_token, token_prefix, label, expires_in_secs: ttl }
    }

    /// Mints a fresh random bearer token from the admin panel.
    pub fn create_admin_token(
        &mut self,
        label: Option<String>,
        ttl_secs: u64,
        now_ms: u64,
        now_epoch_ms: u64,
    ) -> (created: CreatedAdminToken)
        requires
            old(self).wf(),
        ensures
            final(self).wf(),
            final(self)@ == (AuthView {
                tokens: upsert::<TokenEntry>(
                    old(self)@.tokens,
                    admin_token(
                        created.access_token@,
                        label.deep_view(),
                        ttl_secs,
                        now_ms,
                        now_epoch_ms,
                    ),
                ),
                ..old(self)@
            }),
            uuid_text(created.access_token@),
            created.token_prefix@ == token_prefix(created.access_token@),
            created.label.deep_view() == label.deep_view(),
            created.expires_in_secs == admin_ttl_secs(ttl_secs),
    {
        let access_token = new_uuid_string();
        proof {
            lemma_ascii_prefix_cuttable(access_token@);
        }
        self.create_admin_token_with(label, ttl_secs, now_ms, now_epoch_ms, access_token)
    }

    /// Removes a client and, if it was registered, every token issued to it.
    pub fn revoke_client(&mut self, client_id: &str) -> (removed: bool)
        requires
            old(self).wf(),
        ensures
            final(self).wf(),
            removed == has_key::<RegisteredClient>(old(self)@.clients, client_id@),
            removed ==> final(self)@ == (AuthView {
                clients: remove_key::<RegisteredClient>(old(self)@.clients, client_id@),
                tokens: old(self)@.tokens.filter(not_of_client(client_id@)),
                ..old(self)@
            }),
            !removed ==> final(self)@ == old(self)@,
    {
        let id = client_id.to_owned();
        let ghost before = self@;
        match remove_by_key(&mut self.clients, &id) {
            None => false,
            Some(_) => {
                let mut tokens: Vec<TokenEntry> = Vec::new();
                std::mem::swap(&mut tokens, &mut self.access_tokens);
                self.access_tokens = keep_other_clients(tokens, &id);
                proof {
                    lemma_filter_keeps_unique::<TokenEntry>(before.tokens, not_of_client(id@));
                    lemma_filter_keeps_cuttable(before.tokens, not_of_client(id@));
                }
                true
            },
        }
    }

    /// Removes the first stored token that starts with `token_prefix`, if any.
    pub fn revoke_token(&mut self, token_prefix: &str) -> (removed: bool)
        requires
            old(self).wf(),
        ensures
            final(self).wf(),
            removed == exists|i: int| 0 <= i < old(self)@.tokens.len() && starts_with(
                #[trigger] old(self)@.tokens[i].token,
                token_prefix@,
            ),
            removed ==> exists|i: int|
                first_prefix_match(old(self)@.tokens, token_prefix@, i) && final(self)@ == (
                AuthView { tokens: old(self)@.tokens.remove(i), ..old(self)@ }),
            !removed ==> final(self)@ == old(self)@,
    {
        let pv = chars_of(token_prefix);
        let n = self.access_tokens.len();
        let ghost all = self@.tokens;
        let mut i: usize = 0;
        while i < n
            invariant
                n == self.access_tokens@.len(),
                all == self@.tokens,
                self@ == old(self)@,
                auth_wf(self@),
                pv@ == token_prefix@,
                i <= n,
                forall|j: int| 0 <= j < i ==> !starts_with(#[trigger] all[j].token, token_prefix@),
            decreases n - i,
        {
            let kv = chars_of(self.access_tokens[i].token.as_str());
            assert(all[i as int] == self.access_tokens@[i as int]@);
            if has_prefix(&kv, &pv) {
                proof {
                    lemma_remove_keeps_wf(self@, i as int);
                }
                let _gone = self.access_tokens.remove(i);
                assert(views(self.access_tokens@) =~= all.remove(i as int));
                assert(first_prefix_match(all, token_prefix@, i as int));
                return true;
            }
            i = i + 1;
        }
        false
    }

    /// Drops codes that can no longer be exchanged and tokens that no longer live; answers how
    /// many of each were dropped.
    pub fn evict_expired(&mut self, now_ms: u64) -> (counts: (usize, usize))
        requires
            old(self).wf(),
        ensures
            final(self).wf(),
            final(self)@ == (AuthView {
                codes: old(self)@.codes.filter(code_fresh_at(now_ms)),
                tokens: old(self)@.tokens.filter(live_at(now_ms)),
                ..old(self)@
            }),
            counts.0 == old(self)@.codes.len() - final(self)@.codes.len(),
            counts.1 == old(self)@.tokens.len() - final(self)@.tokens.len(),
    {
        let ghost before = self@;
        let codes_before = self.auth_codes.len();
        let tokens_before = self.access_tokens.len();
        let mut codes: Vec<AuthCodeEntry> = Vec::new();
        std::mem::swap(&mut codes, &mut self.auth_codes);
        self.auth_codes = keep_fresh_codes(codes, now_ms);
        let mut tokens: Vec<TokenEntry> = Vec::new();
        std::mem::swap(&mut tokens, &mut self.access_tokens);
        self.access_tokens = keep_live(tokens, now_ms);
        proof {
            lemma_filter_keeps_unique::<AuthCodeEntry>(before.codes, code_fresh_at(now_ms));
            lemma_filter_keeps_unique::<TokenEntry>(before.tokens, live_at(now_ms));
            lemma_filter_keeps_cuttable(before.tokens, live_at(now_ms));
            before.codes.lemma_filter_len(code_fresh_at(now_ms));
            before.tokens.lemma_filter_len(live_at(now_ms));
        }
        (codes_before - self.auth_codes.len(), tokens_before - self.access_tokens.len())
    }
}

} // verus!
