use mcp_web_search::admin::{
    bearer_token_prefix, create_token_request, parse_admin_session_cookie, session_cookie,
    AdminState, CreateTokenRequest, LoggedCall, ADMIN_SESSION_TTL_MS, LOGOUT_COOKIE,
    MAX_LOG_ENTRIES, ZERO_LIFETIME_ERROR,
};
use mcp_web_search::auth::{AuthDecision, OAuthState};

fn call(method: &str) -> LoggedCall {
    LoggedCall {
        method: Some(method.to_string()),
        tool_name: Some("fetch".to_string()),
        params_summary: Some("{\"url\":\"https://example.com\"}".to_string()),
    }
}

fn oauth() -> OAuthState {
    OAuthState::new("pw".to_string(), "https://mcp.example.com".to_string())
}

#[test]
fn log_records_calls_with_a_method() {
    let mut admin = AdminState::new(0);
    admin.log_request(call("tools/call"), 12, true, Some("abcdefgh".to_string()), 1_000);
    admin.log_request(
        LoggedCall { method: None, tool_name: None, params_summary: None },
        5,
        true,
        None,
        2_000,
    );
    admin.log_request(call("tools/list"), 3, false, None, 3_000);
    let page = admin.logs_page(None, None);
    assert_eq!(page.total, 2);
    assert_eq!(page.entries.len(), 2);
    assert_eq!(page.entries[0].method, "tools/list");
    assert_eq!(page.entries[0].id, 2);
    assert!(!page.entries[0].success);
    assert_eq!(page.entries[0].timestamp_epoch_ms, 3_000);
    assert_eq!(page.entries[1].method, "tools/call");
    assert_eq!(page.entries[1].id, 1);
    assert_eq!(page.entries[1].duration_ms, 12);
    assert_eq!(page.entries[1].token_prefix, Some("abcdefgh".to_string()));
    assert_eq!(page.entries[1].tool_name, Some("fetch".to_string()));
    assert_eq!(
        page.entries[1].params_summary,
        Some("{\"url\":\"https://example.com\"}".to_string())
    );
}

#[test]
fn log_keeps_the_newest_thousand_entries() {
    let mut admin = AdminState::new(0);
    for i in 0..(MAX_LOG_ENTRIES as u64 + 5) {
        admin.log_request(call("tools/call"), i, true, None, i);
    }
    let page = admin.logs_page(Some(1000), None);
    assert_eq!(page.total, 1000);
    assert_eq!(page.entries.len(), 200);
    assert_eq!(page.entries[0].id, 1005);
    let last = admin.logs_page(Some(10), Some(995));
    assert_eq!(last.entries.len(), 5);
    assert_eq!(last.entries[4].id, 6);
}

#[test]
fn logs_page_defaults_and_offsets() {
    let mut admin = AdminState::new(0);
    for i in 0..120u64 {
        admin.log_request(call("m"), 0, true, None, i);
    }
    let page = admin.logs_page(None, None);
    assert_eq!(page.entries.len(), 50);
    assert_eq!(page.entries[0].id, 120);
    assert_eq!(page.entries[49].id, 71);
    let page = admin.logs_page(Some(10), Some(20));
    assert_eq!(page.entries.len(), 10);
    assert_eq!(page.entries[0].id, 100);
    let page = admin.logs_page(Some(10), Some(500));
    assert!(page.entries.is_empty());
    assert_eq!(page.total, 120);
    let page = admin.logs_page(Some(0), None);
    assert!(page.entries.is_empty());
}

#[test]
fn requests_in_the_last_minute() {
    let mut admin = AdminState::new(0);
    admin.log_request(call("a"), 0, true, None, 10_000);
    admin.log_request(call("b"), 0, true, None, 100_000);
    admin.log_request(call("c"), 0, true, None, 150_000);
    admin.log_request(call("d"), 0, true, None, 160_000);
    assert_eq!(admin.requests_last_minute(160_000), 3);
    assert_eq!(admin.requests_last_minute(200_000), 2);
    assert_eq!(admin.requests_last_minute(1_000_000), 0);
    assert_eq!(AdminState::new(0).requests_last_minute(5), 0);
}

#[test]
fn dashboard_figures() {
    let mut st = oauth();
    st.create_admin_token_with(None, 60, 0, 0, "tok-aaaaaaaa".to_string());
    let mut admin = AdminState::new(1_000);
    admin.log_request(call("a"), 0, true, None, 50_000);
    let d = admin.dashboard(&st, 31_500, 60_000);
    assert_eq!(d.total_requests, 1);
    assert_eq!(d.active_clients, 0);
    assert_eq!(d.active_tokens, 1);
    assert_eq!(d.requests_last_minute, 1);
    assert_eq!(d.uptime_secs, 30);
}

#[test]
fn login_opens_a_session_for_a_day() {
    let st = oauth();
    let mut admin = AdminState::new(0);
    assert_eq!(admin.login(&st, "wrong", 0), None);
    let cookie = admin.login(&st, "pw", 1_000).unwrap();
    assert!(cookie.starts_with("admin_session="));
    assert!(cookie.ends_with("; HttpOnly; SameSite=Strict; Path=/admin"));
    let sid = &cookie["admin_session=".len()..cookie.len() - "; HttpOnly; SameSite=Strict; Path=/admin".len()];
    assert_eq!(sid.len(), 36);
    assert!(sid.chars().all(|c| c.is_ascii_digit() || ('a'..='f').contains(&c) || c == '-'));
    assert_eq!(
        parse_admin_session_cookie(&format!("a=1; admin_session={sid}; b=2")),
        Some(sid.to_string())
    );
    let header = format!("theme=dark; admin_session={sid}");
    assert!(admin.session_valid(Some(&header), 1_000));
    assert!(admin.session_valid(Some(&header), 1_000 + ADMIN_SESSION_TTL_MS - 1));
    assert!(!admin.session_valid(Some(&header), 1_000 + ADMIN_SESSION_TTL_MS));
    assert!(!admin.session_valid(None, 1_000));
    assert!(!admin.session_valid(Some("admin_session=nope"), 1_000));
}

#[test]
fn logout_ends_the_session() {
    let st = oauth();
    let mut admin = AdminState::new(0);
    assert!(admin.login_with(&st, "pw", "s-1".to_string(), 0));
    assert!(!admin.login_with(&st, "bad", "s-2".to_string(), 0));
    assert!(admin.session_valid(Some("admin_session=s-1"), 5));
    assert!(!admin.session_valid(Some("admin_session=s-2"), 5));
    admin.logout(Some("admin_session=s-1"));
    assert!(!admin.session_valid(Some("admin_session=s-1"), 5));
    assert_eq!(LOGOUT_COOKIE, "admin_session=; HttpOnly; SameSite=Strict; Path=/admin; Max-Age=0");
}

#[test]
fn session_eviction() {
    let st = oauth();
    let mut admin = AdminState::new(0);
    admin.login_with(&st, "pw", "early".to_string(), 0);
    admin.login_with(&st, "pw", "late".to_string(), 50_000_000);
    assert_eq!(admin.evict_expired_sessions(ADMIN_SESSION_TTL_MS), 1);
    assert!(admin.session_valid(Some("admin_session=late"), ADMIN_SESSION_TTL_MS));
    assert!(!admin.session_valid(Some("admin_session=early"), ADMIN_SESSION_TTL_MS));
    assert_eq!(admin.evict_expired_sessions(ADMIN_SESSION_TTL_MS), 0);
}

#[test]
fn session_cookie_header_round_trip() {
    assert_eq!(
        session_cookie("abc"),
        "admin_session=abc; HttpOnly; SameSite=Strict; Path=/admin"
    );
    assert_eq!(parse_admin_session_cookie("admin_session=abc"), Some("abc".to_string()));
    assert_eq!(
        parse_admin_session_cookie("a=1;  admin_session=xyz ; b=2"),
        Some("xyz".to_string())
    );
    assert_eq!(
        parse_admin_session_cookie("admin_session=first; admin_session=second"),
        Some("first".to_string())
    );
    assert_eq!(parse_admin_session_cookie("admin_session="), Some(String::new()));
    assert_eq!(parse_admin_session_cookie("other=1; x_admin_session=2"), None);
    assert_eq!(parse_admin_session_cookie(""), None);
}

#[test]
fn logged_token_prefix() {
    assert_eq!(
        bearer_token_prefix(Some("Bearer 0123456789abcdef")),
        Some("01234567".to_string())
    );
    assert_eq!(bearer_token_prefix(Some("Bearer abc")), Some("abc".to_string()));
    assert_eq!(bearer_token_prefix(Some("Basic abc")), None);
    assert_eq!(bearer_token_prefix(None), None);
}

#[test]
fn minting_tokens_from_the_panel() {
    let mut st = oauth();
    let refused = create_token_request(
        &mut st,
        CreateTokenRequest { label: Some("x".to_string()), expires_in_secs: Some(0) },
        0,
        0,
    );
    assert!(refused.is_none());
    assert_eq!(ZERO_LIFETIME_ERROR, "expires_in_secs must be > 0");
    assert_eq!(st.active_token_count(0), 0);

    let created = create_token_request(
        &mut st,
        CreateTokenRequest { label: Some("  laptop  ".to_string()), expires_in_secs: None },
        0,
        7,
    )
    .unwrap();
    assert_eq!(created.label, Some("laptop".to_string()));
    assert_eq!(created.expires_in_secs, 3600);
    let header = format!("Bearer {}", created.access_token);
    assert!(matches!(st.check_bearer(Some(&header), 3_599_999), AuthDecision::Allow));

    let blank = create_token_request(
        &mut st,
        CreateTokenRequest { label: Some("   ".to_string()), expires_in_secs: Some(99_999_999_999) },
        0,
        7,
    )
    .unwrap();
    assert_eq!(blank.label, None);
    assert_eq!(blank.expires_in_secs, 31_536_000);
    assert_eq!(st.list_tokens(0).len(), 2);
}

#[test]
fn session_cookie_among_other_cookies() {
    let sid = "2f1c0d7e-6b7a-4c1e-9a55-0b1f3f6d9c21";
    assert_eq!(
        parse_admin_session_cookie(&format!("theme=dark; admin_session={sid}; lang=en")),
        Some(sid.to_string())
    );
    assert_eq!(
        parse_admin_session_cookie(&format!("theme=dark; lang=en; admin_session={sid}")),
        Some(sid.to_string())
    );
    assert_eq!(
        parse_admin_session_cookie(&format!("admin_session={sid}; lang=en")),
        Some(sid.to_string())
    );
}

#[test]
fn logout_undoes_the_login() {
    let st = oauth();
    let mut admin = AdminState::new(0);
    assert!(admin.login_with(&st, "pw", "keep".to_string(), 0));
    assert!(admin.login_with(&st, "pw", "brief".to_string(), 0));
    admin.logout(Some("theme=dark; admin_session=brief"));
    assert!(!admin.session_valid(Some("admin_session=brief"), 1));
    assert!(admin.session_valid(Some("admin_session=keep"), 1));
    assert_eq!(admin.evict_expired_sessions(1), 0);
}

#[test]
fn log_ids_rise_from_oldest_to_newest() {
    let mut admin = AdminState::new(0);
    for i in 0..(MAX_LOG_ENTRIES as u64 + 30) {
        admin.log_request(call("m"), 0, true, None, i);
    }
    let mut ids: Vec<u64> = Vec::new();
    let mut offset = 0;
    loop {
        let page = admin.logs_page(Some(200), Some(offset));
        if page.entries.is_empty() {
            break;
        }
        ids.extend(page.entries.iter().map(|e| e.id));
        offset += page.entries.len();
    }
    ids.reverse();
    assert_eq!(ids.len(), MAX_LOG_ENTRIES);
    assert!(ids.windows(2).all(|w| w[0] < w[1]));
    assert_eq!(ids[0], 31);
}
