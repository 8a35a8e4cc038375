use mcp_web_search::auth::{
    token_prefix_of, verify_pkce, without_trailing_slashes, AuthDecision, AuthorizeError,
    AuthorizeForm, AuthorizeQuery, OAuthState, RegistrationRequest, TokenFailure, TokenRequest,
    AUTH_CODE_TTL_MS, TOKEN_TTL_MS,
};

const VERIFIER: &str = "dBjftJeZ4CVP-mB92K27uhbUJU1p1r_wW1gFWFOEjXk";
const CHALLENGE: &str = "E9Melhoa2OwvFrEMTJguCHaoeK1t8URWbuGJSstw-cM";
const REDIRECT: &str = "https://client.example/callback";

fn server() -> OAuthState {
    OAuthState::new("secret".to_string(), "https://mcp.example.com//".to_string())
}

fn register(st: &mut OAuthState) -> String {
    let resp = st.register(
        RegistrationRequest {
            client_name: Some("Test Client".to_string()),
            redirect_uris: vec![REDIRECT.to_string()],
        },
        1_700_000_000_000,
    );
    resp.client_id
}

fn form(client_id: &str, password: &str, state: Option<&str>) -> AuthorizeForm {
    AuthorizeForm {
        client_id: client_id.to_string(),
        redirect_uri: REDIRECT.to_string(),
        state: state.map(|s| s.to_string()),
        code_challenge: Some(CHALLENGE.to_string()),
        code_challenge_method: Some("S256".to_string()),
        password: password.to_string(),
    }
}

fn code_of(url: &str) -> String {
    let start = url.find("code=").unwrap() + 5;
    let rest = &url[start..];
    match rest.find('&') {
        Some(end) => rest[..end].to_string(),
        None => rest.to_string(),
    }
}

fn token_request(code: &str, client_id: &str, verifier: Option<&str>) -> TokenRequest {
    TokenRequest {
        grant_type: "authorization_code".to_string(),
        code: code.to_string(),
        client_id: client_id.to_string(),
        redirect_uri: Some(REDIRECT.to_string()),
        code_verifier: verifier.map(|v| v.to_string()),
    }
}

fn issue_token(st: &mut OAuthState, now_ms: u64) -> (String, String) {
    let client_id = register(st);
    let url = st.approve(form(&client_id, "secret", None), now_ms).unwrap();
    let code = code_of(&url);
    let resp = st
        .exchange(token_request(&code, &client_id, Some(VERIFIER)), now_ms, 1_700_000_000_000)
        .unwrap();
    (client_id, resp.access_token)
}

fn bearer(token: &str) -> String {
    format!("Bearer {token}")
}

#[test]
fn pkce_accepts_the_rfc_7636_example() {
    assert!(verify_pkce(VERIFIER, CHALLENGE));
    assert!(!verify_pkce("wrong-verifier", CHALLENGE));
    assert!(!verify_pkce(VERIFIER, VERIFIER));
}

#[test]
fn base_url_loses_trailing_slashes() {
    assert_eq!(without_trailing_slashes("https://a.example///"), "https://a.example");
    assert_eq!(without_trailing_slashes("https://a.example"), "https://a.example");
    assert_eq!(without_trailing_slashes("///"), "");
    let st = server();
    assert_eq!(st.base_url(), "https://mcp.example.com");
}

#[test]
fn metadata_points_at_the_endpoints() {
    let st = server();
    let m = st.authorization_server_metadata();
    assert_eq!(m.issuer, "https://mcp.example.com");
    assert_eq!(m.authorization_endpoint, "https://mcp.example.com/authorize");
    assert_eq!(m.token_endpoint, "https://mcp.example.com/token");
    assert_eq!(m.registration_endpoint, "https://mcp.example.com/register");
    assert_eq!(m.response_types_supported, vec!["code".to_string()]);
    assert_eq!(m.grant_types_supported, vec!["authorization_code".to_string()]);
    assert_eq!(m.code_challenge_methods_supported, vec!["S256".to_string()]);
    assert_eq!(m.token_endpoint_auth_methods_supported, vec!["client_secret_post".to_string()]);
    assert_eq!(m.scopes_supported, vec!["mcp".to_string()]);
    let r = st.protected_resource_metadata();
    assert_eq!(r.resource, "https://mcp.example.com");
    assert_eq!(r.authorization_servers, vec!["https://mcp.example.com".to_string()]);
    assert_eq!(r.bearer_methods_supported, vec!["header".to_string()]);
    assert_eq!(r.scopes_supported, vec!["mcp".to_string()]);
}

#[test]
fn registration_answers_fresh_credentials() {
    let mut st = server();
    let resp = st.register(
        RegistrationRequest {
            client_name: Some("Desk".to_string()),
            redirect_uris: vec![REDIRECT.to_string(), "http://localhost/cb".to_string()],
        },
        42,
    );
    assert_eq!(resp.client_id.len(), 36);
    assert_eq!(resp.client_secret.len(), 36);
    assert_ne!(resp.client_id, resp.client_secret);
    assert_eq!(resp.client_name, Some("Desk".to_string()));
    assert_eq!(resp.redirect_uris.len(), 2);
    assert_eq!(st.active_client_count(), 1);
    let clients = st.list_clients(0);
    assert_eq!(clients.len(), 1);
    assert_eq!(clients[0].client_id, resp.client_id);
    assert_eq!(clients[0].registered_at_epoch_ms, 42);
    assert_eq!(clients[0].active_tokens, 0);
}

#[test]
fn authorization_page_shows_the_request() {
    let mut st = server();
    let client_id = register(&mut st);
    let q = AuthorizeQuery {
        response_type: "code".to_string(),
        client_id: client_id.clone(),
        redirect_uri: REDIRECT.to_string(),
        state: Some("xyz".to_string()),
        code_challenge: Some(CHALLENGE.to_string()),
        code_challenge_method: Some("S256".to_string()),
        scope: Some("mcp".to_string()),
    };
    let html = st.authorize_page(&q).unwrap();
    assert!(html.starts_with("<!DOCTYPE html>\n<html>\n<head><title>MCP Server Authorization</title>"));
    assert!(html.contains(&format!(
        "<p>Client <strong>{client_id}</strong> is requesting access (scope: mcp).</p>"
    )));
    assert!(html.contains(&format!(
        "  <input type=\"hidden\" name=\"client_id\" value=\"{client_id}\">\n"
    )));
    assert!(html.contains(&format!(
        "  <input type=\"hidden\" name=\"redirect_uri\" value=\"{REDIRECT}\">\n"
    )));
    assert!(html.contains("  <input type=\"hidden\" name=\"state\" value=\"xyz\">\n"));
    assert!(html.contains(&format!(
        "  <input type=\"hidden\" name=\"code_challenge\" value=\"{CHALLENGE}\">\n"
    )));
    assert!(html.ends_with("</form>\n</body>\n</html>"));

    let no_scope = AuthorizeQuery { scope: None, state: None, ..q };
    let html = st.authorize_page(&no_scope).unwrap();
    assert!(html.contains("</strong> is requesting access.</p>"));
    assert!(html.contains("  <input type=\"hidden\" name=\"state\" value=\"\">\n"));
}

#[test]
fn authorization_refusals() {
    let mut st = server();
    let client_id = register(&mut st);
    let good = AuthorizeQuery {
        response_type: "code".to_string(),
        client_id: client_id.clone(),
        redirect_uri: REDIRECT.to_string(),
        state: None,
        code_challenge: Some(CHALLENGE.to_string()),
        code_challenge_method: Some("S256".to_string()),
        scope: None,
    };
    let q = AuthorizeQuery { response_type: "token".to_string(), ..clone_query(&good) };
    assert_eq!(st.authorize_page(&q), Err(AuthorizeError::UnsupportedResponseType));
    let q = AuthorizeQuery { client_id: "nobody".to_string(), ..clone_query(&good) };
    assert_eq!(st.authorize_page(&q), Err(AuthorizeError::UnknownClient));
    let q = AuthorizeQuery { redirect_uri: "https://evil.example/".to_string(), ..clone_query(&good) };
    assert_eq!(st.authorize_page(&q), Err(AuthorizeError::RedirectUriNotRegistered));
    let q = AuthorizeQuery { code_challenge: None, ..clone_query(&good) };
    assert_eq!(st.authorize_page(&q), Err(AuthorizeError::CodeChallengeRequired));
    let q = AuthorizeQuery { code_challenge: Some(String::new()), ..clone_query(&good) };
    assert_eq!(st.authorize_page(&q), Err(AuthorizeError::CodeChallengeRequired));
    let q = AuthorizeQuery { code_challenge_method: Some("plain".to_string()), ..clone_query(&good) };
    assert_eq!(st.authorize_page(&q), Err(AuthorizeError::ChallengeMethodNotS256));
    let q = AuthorizeQuery { code_challenge_method: None, ..clone_query(&good) };
    assert_eq!(st.authorize_page(&q), Err(AuthorizeError::ChallengeMethodNotS256));

    assert_eq!(AuthorizeError::UnsupportedResponseType.message(), "unsupported response_type");
    assert_eq!(AuthorizeError::UnknownClient.message(), "unknown client_id");
    assert_eq!(AuthorizeError::RedirectUriNotRegistered.message(), "redirect_uri not registered");
    assert_eq!(
        AuthorizeError::CodeChallengeRequired.message(),
        "code_challenge is required (PKCE is mandatory)"
    );
    assert_eq!(AuthorizeError::ChallengeMethodNotS256.message(), "code_challenge_method must be S256");
    assert_eq!(AuthorizeError::InvalidPassword.message(), "invalid password");
    assert_eq!(AuthorizeError::UnknownClient.status(), 400);
    assert_eq!(AuthorizeError::InvalidPassword.status(), 403);
}

fn clone_query(q: &AuthorizeQuery) -> AuthorizeQuery {
    AuthorizeQuery {
        response_type: q.response_type.clone(),
        client_id: q.client_id.clone(),
        redirect_uri: q.redirect_uri.clone(),
        state: q.state.clone(),
        code_challenge: q.code_challenge.clone(),
        code_challenge_method: q.code_challenge_method.clone(),
        scope: q.scope.clone(),
    }
}

#[test]
fn approval_redirects_with_code_and_state() {
    let mut st = server();
    let client_id = register(&mut st);
    let url = st.approve(form(&client_id, "secret", Some("xyz")), 1000).unwrap();
    let code = code_of(&url);
    assert_eq!(code.len(), 36);
    assert_eq!(url, format!("{REDIRECT}?code={code}&state=xyz"));

    let with_query = AuthorizeForm {
        redirect_uri: "https://client.example/cb?x=1".to_string(),
        ..form(&client_id, "secret", None)
    };
    let url = st.approve(with_query, 1000).unwrap();
    assert_eq!(url, format!("https://client.example/cb?x=1&code={}", code_of(&url)));
}

#[test]
fn approval_with_wrong_password_is_refused() {
    let mut st = server();
    let client_id = register(&mut st);
    assert_eq!(
        st.approve(form(&client_id, "guess", None), 1000),
        Err(AuthorizeError::InvalidPassword)
    );
    let r = st.approve_with_code(form(&client_id, "guess", None), "c1".to_string(), 1000);
    assert_eq!(r, Err(AuthorizeError::InvalidPassword));
    // No code was recorded: exchanging it fails as unknown.
    let r = st.exchange(token_request("c1", &client_id, Some(VERIFIER)), 1000, 0);
    assert_eq!(r.err(), Some(TokenFailure::UnknownCode));
}

#[test]
fn full_flow_issues_a_token_that_is_admitted() {
    let mut st = server();
    let client_id = register(&mut st);
    let url = st.approve(form(&client_id, "secret", Some("s")), 5_000).unwrap();
    let code = code_of(&url);
    let resp = st
        .exchange(token_request(&code, &client_id, Some(VERIFIER)), 6_000, 1_700_000_000_000)
        .unwrap();
    assert_eq!(resp.token_type, "bearer");
    assert_eq!(resp.expires_in, 3600);
    assert_eq!(resp.access_token.len(), 36);
    let header = bearer(&resp.access_token);
    assert!(matches!(st.check_bearer(Some(&header), 6_000), AuthDecision::Allow));
    assert!(matches!(st.check_bearer(Some(&header), 6_000 + TOKEN_TTL_MS - 1), AuthDecision::Allow));
    assert_eq!(st.active_token_count(6_000), 1);
    let clients = st.list_clients(6_000);
    assert_eq!(clients[0].active_tokens, 1);
}

#[test]
fn token_expires_after_one_hour() {
    let mut st = server();
    let (_client, token) = issue_token(&mut st, 10_000);
    let header = bearer(&token);
    match st.check_bearer(Some(&header), 10_000 + TOKEN_TTL_MS) {
        AuthDecision::Deny { www_authenticate, body } => {
            assert_eq!(
                www_authenticate,
                "Bearer error=\"invalid_token\", resource_metadata=\"https://mcp.example.com/.well-known/oauth-protected-resource\""
            );
            assert_eq!(body, "invalid or expired token");
        }
        AuthDecision::Allow => panic!("expired token admitted"),
    }
    assert_eq!(st.active_token_count(10_000 + TOKEN_TTL_MS), 0);
    assert!(st.list_tokens(10_000 + TOKEN_TTL_MS).is_empty());
}

#[test]
fn missing_bearer_header_is_challenged() {
    let st = server();
    for header in [None, Some("Basic abc"), Some("bearer abc")] {
        match st.check_bearer(header, 0) {
            AuthDecision::Deny { www_authenticate, body } => {
                assert_eq!(
                    www_authenticate,
                    "Bearer resource_metadata=\"https://mcp.example.com/.well-known/oauth-protected-resource\""
                );
                assert_eq!(body, "authentication required");
            }
            AuthDecision::Allow => panic!("request without token admitted"),
        }
    }
    match st.check_bearer(Some("Bearer unknown"), 0) {
        AuthDecision::Deny { body, .. } => assert_eq!(body, "invalid or expired token"),
        AuthDecision::Allow => panic!("unknown token admitted"),
    }
    assert_eq!(
        st.challenge(false),
        "Bearer resource_metadata=\"https://mcp.example.com/.well-known/oauth-protected-resource\""
    );
}

#[test]
fn code_is_single_use() {
    let mut st = server();
    let client_id = register(&mut st);
    let code = code_of(&st.approve(form(&client_id, "secret", None), 0).unwrap());
    assert!(st.exchange(token_request(&code, &client_id, Some(VERIFIER)), 1, 1).is_ok());
    let again = st.exchange(token_request(&code, &client_id, Some(VERIFIER)), 2, 2);
    assert_eq!(again.err(), Some(TokenFailure::UnknownCode));
}

#[test]
fn code_expires_after_ten_minutes() {
    let mut st = server();
    let client_id = register(&mut st);
    let code = code_of(&st.approve(form(&client_id, "secret", None), 0).unwrap());
    let r = st.exchange(token_request(&code, &client_id, Some(VERIFIER)), AUTH_CODE_TTL_MS + 1, 0);
    assert_eq!(r.err(), Some(TokenFailure::CodeExpired));
    let code = code_of(&st.approve(form(&client_id, "secret", None), 0).unwrap());
    let r = st.exchange(token_request(&code, &client_id, Some(VERIFIER)), AUTH_CODE_TTL_MS, 0);
    assert!(r.is_ok());
}

#[test]
fn token_refusals_consume_the_code() {
    let mut st = server();
    let client_id = register(&mut st);

    let bad_grant = TokenRequest {
        grant_type: "client_credentials".to_string(),
        ..token_request("x", &client_id, Some(VERIFIER))
    };
    assert_eq!(st.exchange(bad_grant, 0, 0).err(), Some(TokenFailure::UnsupportedGrantType));

    let code = code_of(&st.approve(form(&client_id, "secret", None), 0).unwrap());
    let r = st.exchange(token_request(&code, "other-client", Some(VERIFIER)), 1, 0);
    assert_eq!(r.err(), Some(TokenFailure::ClientIdMismatch));
    let r = st.exchange(token_request(&code, &client_id, Some(VERIFIER)), 1, 0);
    assert_eq!(r.err(), Some(TokenFailure::UnknownCode));

    let code = code_of(&st.approve(form(&client_id, "secret", None), 0).unwrap());
    let wrong_uri = TokenRequest {
        redirect_uri: Some("https://elsewhere.example/".to_string()),
        ..token_request(&code, &client_id, Some(VERIFIER))
    };
    assert_eq!(st.exchange(wrong_uri, 1, 0).err(), Some(TokenFailure::RedirectUriMismatch));

    let code = code_of(&st.approve(form(&client_id, "secret", None), 0).unwrap());
    let r = st.exchange(token_request(&code, &client_id, None), 1, 0);
    assert_eq!(r.err(), Some(TokenFailure::VerifierMissing));

    let code = code_of(&st.approve(form(&client_id, "secret", None), 0).unwrap());
    let r = st.exchange(token_request(&code, &client_id, Some("not-the-verifier")), 1, 0);
    assert_eq!(r.err(), Some(TokenFailure::PkceFailed));

    let code = code_of(&st.approve(form(&client_id, "secret", None), 0).unwrap());
    let no_uri = TokenRequest { redirect_uri: None, ..token_request(&code, &client_id, Some(VERIFIER)) };
    assert!(st.exchange(no_uri, 1, 0).is_ok());
    assert_eq!(st.active_token_count(1), 1);
}

#[test]
fn token_failure_texts() {
    assert_eq!(TokenFailure::UnsupportedGrantType.error_code(), "unsupported_grant_type");
    assert_eq!(TokenFailure::UnsupportedGrantType.description(), "only authorization_code is supported");
    assert_eq!(TokenFailure::UnknownCode.error_code(), "invalid_grant");
    assert_eq!(TokenFailure::UnknownCode.description(), "invalid or expired authorization code");
    assert_eq!(TokenFailure::CodeExpired.description(), "authorization code expired");
    assert_eq!(TokenFailure::ClientIdMismatch.description(), "client_id mismatch");
    assert_eq!(TokenFailure::RedirectUriMismatch.description(), "redirect_uri mismatch");
    assert_eq!(
        TokenFailure::VerifierMissing.description(),
        "code_verifier is required (PKCE is mandatory)"
    );
    assert_eq!(TokenFailure::PkceFailed.description(), "PKCE verification failed");
    assert_eq!(TokenFailure::PkceFailed.error_code(), "invalid_grant");
    assert_eq!(TokenFailure::PkceFailed.status(), 400);
}

#[test]
fn exchange_code_issues_the_given_token() {
    let mut st = server();
    let client_id = register(&mut st);
    st.approve_with_code(form(&client_id, "secret", None), "code-1".to_string(), 0).unwrap();
    let resp = st
        .exchange_code(
            token_request("code-1", &client_id, Some(VERIFIER)),
            100,
            1_700_000_000_000,
            "tok-0123456789".to_string(),
        )
        .unwrap();
    assert_eq!(resp.access_token, "tok-0123456789");
    let tokens = st.list_tokens(100);
    assert_eq!(tokens.len(), 1);
    assert_eq!(tokens[0].token_prefix, "tok-0123");
    assert_eq!(tokens[0].client_id, client_id);
    assert_eq!(tokens[0].label, None);
    assert_eq!(tokens[0].created_at_epoch_ms, 1_700_000_000_000);
    assert_eq!(tokens[0].expires_in_secs, 3600);
    assert_eq!(tokens[0].remaining_secs, 3600);
    let later = st.list_tokens(100 + 1_500);
    assert_eq!(later[0].remaining_secs, 3598);
}

#[test]
fn revoking_a_client_refuses_its_tokens() {
    let mut st = server();
    let (client_id, token) = issue_token(&mut st, 0);
    let (_other, other_token) = issue_token(&mut st, 0);
    assert!(st.revoke_client(&client_id));
    assert!(!st.revoke_client(&client_id));
    assert!(matches!(st.check_bearer(Some(&bearer(&token)), 1), AuthDecision::Deny { .. }));
    assert!(matches!(st.check_bearer(Some(&bearer(&other_token)), 1), AuthDecision::Allow));
    assert_eq!(st.active_client_count(), 1);
}

#[test]
fn revoking_a_token_by_prefix() {
    let mut st = server();
    let (_client, token) = issue_token(&mut st, 0);
    let prefix = token_prefix_of(&token);
    assert_eq!(prefix, token[..8]);
    assert!(st.revoke_token(&prefix));
    assert!(!st.revoke_token(&prefix));
    assert!(matches!(st.check_bearer(Some(&bearer(&token)), 1), AuthDecision::Deny { .. }));
    assert!(!st.revoke_token("zzzz"));
}

#[test]
fn admin_tokens_are_capped_at_a_year() {
    let mut st = server();
    let created = st.create_admin_token(Some("ci".to_string()), 400 * 24 * 3600, 0, 5);
    assert_eq!(created.expires_in_secs, 31_536_000);
    assert_eq!(created.label, Some("ci".to_string()));
    assert_eq!(created.access_token.len(), 36);
    assert_eq!(created.token_prefix, created.access_token[..8]);
    let tokens = st.list_tokens(0);
    assert_eq!(tokens.len(), 1);
    assert_eq!(tokens[0].client_id, "admin");
    assert_eq!(tokens[0].label, Some("ci".to_string()));
    assert_eq!(tokens[0].expires_in_secs, 31_536_000);
    assert!(matches!(st.check_bearer(Some(&bearer(&created.access_token)), 1), AuthDecision::Allow));

    let short = st.create_admin_token_with(None, 60, 0, 5, "admintok-1".to_string());
    assert_eq!(short.expires_in_secs, 60);
    assert_eq!(short.token_prefix, "admintok");
    assert!(matches!(st.check_bearer(Some("Bearer admintok-1"), 59_999), AuthDecision::Allow));
    assert!(matches!(st.check_bearer(Some("Bearer admintok-1"), 60_000), AuthDecision::Deny { .. }));
}

#[test]
fn eviction_drops_only_dead_entries() {
    let mut st = server();
    let client_id = register(&mut st);
    st.approve_with_code(form(&client_id, "secret", None), "old-code".to_string(), 0).unwrap();
    st.approve_with_code(form(&client_id, "secret", None), "new-code".to_string(), 500_000).unwrap();
    st.create_admin_token_with(None, 60, 0, 0, "short-lived".to_string());
    st.create_admin_token_with(None, 3600, 0, 0, "long-lived".to_string());
    let (codes, tokens) = st.evict_expired(AUTH_CODE_TTL_MS + 1);
    assert_eq!((codes, tokens), (1, 1));
    assert!(matches!(st.check_bearer(Some("Bearer long-lived"), AUTH_CODE_TTL_MS + 1), AuthDecision::Allow));
    let r = st.exchange(token_request("new-code", &client_id, Some(VERIFIER)), AUTH_CODE_TTL_MS + 1, 0);
    assert!(r.is_ok());
    assert_eq!(st.evict_expired(AUTH_CODE_TTL_MS + 1), (0, 0));
}

#[test]
fn admin_password_check() {
    let st = server();
    assert!(st.verify_admin_password("secret"));
    assert!(!st.verify_admin_password("Secret"));
    assert!(!st.verify_admin_password(""));
}

#[test]
fn token_prefix_of_short_tokens_is_the_whole_token() {
    assert_eq!(token_prefix_of("abc"), "abc");
    assert_eq!(token_prefix_of("abcdefghij"), "abcdefgh");
    assert_eq!(token_prefix_of(""), "");
}
