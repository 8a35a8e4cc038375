use mcp_web_search::browser::{
    action_steps, challenge_wait, is_cloudflare_challenge, resolve_timeout, search_url,
    should_relaunch, step_error, ActionType, BrowserStep, ChallengeWait, Error, PageAction,
    DEFAULT_TIMEOUT_SECS, SCROLL_SCRIPT,
};

fn action(kind: ActionType) -> PageAction {
    PageAction { action_type: kind, selector: None, text: None, key: None, delay_ms: None }
}

fn describe(steps: &[BrowserStep]) -> Vec<String> {
    steps
        .iter()
        .map(|s| match s {
            BrowserStep::FindElement { selector } => format!("find {selector}"),
            BrowserStep::ClickElement => "click".to_string(),
            BrowserStep::TypeIntoElement { text } => format!("type {text}"),
            BrowserStep::PressKey { key } => format!("key {key}"),
            BrowserStep::RunScript { script } => format!("script {script}"),
            BrowserStep::Sleep { ms } => format!("sleep {ms}"),
        })
        .collect()
}

fn missing_selector(r: Result<Vec<BrowserStep>, Error>) -> bool {
    matches!(r, Err(Error::ElementNotFound { selector }) if selector == "(no selector provided)")
}

#[test]
fn click_finds_clicks_and_settles() {
    let a = PageAction { selector: Some("#go".to_string()), ..action(ActionType::Click) };
    let steps = action_steps(&a).unwrap();
    assert_eq!(describe(&steps), vec!["find #go", "click", "sleep 300"]);
    assert!(missing_selector(action_steps(&action(ActionType::Click))));
}

#[test]
fn typing_clicks_types_and_presses_the_key() {
    let a = PageAction {
        selector: Some("input[name='q']".to_string()),
        text: Some("hello".to_string()),
        key: Some("Enter".to_string()),
        ..action(ActionType::TypeText)
    };
    let steps = action_steps(&a).unwrap();
    assert_eq!(
        describe(&steps),
        vec!["find input[name='q']", "click", "type hello", "key Enter", "sleep 500"]
    );
    let no_text = PageAction { selector: Some("#q".to_string()), ..action(ActionType::TypeText) };
    assert_eq!(describe(&action_steps(&no_text).unwrap()), vec!["find #q", "click", "type "]);
    assert!(missing_selector(action_steps(&action(ActionType::TypeText))));
}

#[test]
fn wait_scroll_and_key_press() {
    assert_eq!(describe(&action_steps(&action(ActionType::Wait)).unwrap()), vec!["sleep 1000"]);
    let w = PageAction { delay_ms: Some(2000), ..action(ActionType::Wait) };
    assert_eq!(describe(&action_steps(&w).unwrap()), vec!["sleep 2000"]);
    assert_eq!(
        describe(&action_steps(&action(ActionType::Scroll)).unwrap()),
        vec![format!("script {SCROLL_SCRIPT}"), "sleep 300".to_string()]
    );
    assert_eq!(SCROLL_SCRIPT, "window.scrollBy(0, window.innerHeight)");
    assert_eq!(
        describe(&action_steps(&action(ActionType::PressKey)).unwrap()),
        vec!["key Enter", "sleep 300"]
    );
    let tab = PageAction { key: Some("Tab".to_string()), ..action(ActionType::PressKey) };
    assert_eq!(describe(&action_steps(&tab).unwrap()), vec!["key Tab", "sleep 300"]);
}

#[test]
fn step_failures_become_errors() {
    let e = step_error(&BrowserStep::FindElement { selector: "#x".to_string() }, "gone".to_string());
    assert_eq!(e.message(), "element not found: #x");
    let e = step_error(&BrowserStep::ClickElement, "detached".to_string());
    assert_eq!(e.message(), "navigation failed for : detached");
}

#[test]
fn timeouts_default_to_ten_seconds() {
    assert_eq!(resolve_timeout(None, DEFAULT_TIMEOUT_SECS), 10);
    assert_eq!(resolve_timeout(Some(3), DEFAULT_TIMEOUT_SECS), 3);
}

#[test]
fn cloudflare_pages_are_recognised() {
    assert!(is_cloudflare_challenge(Some("Just a moment..."), false));
    assert!(is_cloudflare_challenge(Some("JUST A MOMENT"), false));
    assert!(is_cloudflare_challenge(Some("Attention Required! | Cloudflare"), false));
    assert!(!is_cloudflare_challenge(Some("Example Domain"), false));
    assert!(is_cloudflare_challenge(Some("Example Domain"), true));
    assert!(is_cloudflare_challenge(None, true));
    assert!(!is_cloudflare_challenge(None, false));
}

#[test]
fn challenge_wait_decisions() {
    assert_eq!(challenge_wait(false, 99_999, 10), ChallengeWait::Proceed);
    assert_eq!(challenge_wait(true, 10_000, 10), ChallengeWait::Retry);
    assert_eq!(challenge_wait(true, 10_001, 10), ChallengeWait::GiveUp);
    assert_eq!(challenge_wait(true, 0, 0), ChallengeWait::Retry);
    assert_eq!(challenge_wait(true, 1, 0), ChallengeWait::GiveUp);
}

#[test]
fn only_the_first_to_see_a_dead_browser_relaunches() {
    assert!(should_relaunch(4, 4));
    assert!(!should_relaunch(5, 4));
}

#[test]
fn search_urls_are_percent_encoded() {
    assert_eq!(search_url("rust"), "https://html.duckduckgo.com/html/?q=rust");
    assert_eq!(
        search_url("rust lang & more"),
        "https://html.duckduckgo.com/html/?q=rust%20lang%20%26%20more"
    );
    assert_eq!(search_url("a-b_c.d~e"), "https://html.duckduckgo.com/html/?q=a-b_c.d~e");
    assert_eq!(search_url("é"), "https://html.duckduckgo.com/html/?q=%C3%A9");
}
