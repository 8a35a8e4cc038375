//! Decisions of the headless-browser tools: what each page action does, when to give up
//! waiting for a Cloudflare challenge, how errors read, and how results are assembled.
//! The browser itself is driven elsewhere; these functions take what it reported.

use vstd::prelude::*;
use crate::bindings::{
    base64_standard, base64_standard_of, lowercase_of, percent_encoded, to_lowercase,
    url_encode,
};
use crate::strings::{chars_of, contains_chars, contains_seq, decimal, decimal_string};
use vstd::utf8::encode_utf8;

verus! {

broadcast use vstd::string::group_string_axioms;

/// Seconds to wait for a Cloudflare challenge when the caller names no timeout.
pub const DEFAULT_TIMEOUT_SECS: u64 = 10;

/// The user agent the browser presents.
pub const USER_AGENT: &'static str = "Mozilla/5.0 (Windows NT 10.0; Win64; x64) AppleWebKit/537.36 (KHTML, like Gecko) Chrome/131.0.0.0 Safari/537.36";

/// The `Accept-Language` the browser presents.
pub const ACCEPT_LANGUAGE: &'static str = "en-US,en;q=0.9";

/// The platform the browser presents.
pub const PLATFORM: &'static str = "Win32";

/// Script run in each new tab to hide the signs of automation.
pub const ANTI_DETECTION_SCRIPT: &'static str = "
        Object.defineProperty(navigator, 'webdriver', { get: () => undefined });
        Object.defineProperty(navigator, 'plugins', { get: () => [1, 2, 3, 4, 5] });
        Object.defineProperty(navigator, 'languages', { get: () => ['en-US', 'en'] });
        window.chrome = { runtime: {} };
        ";

/// Script that tells whether the page shows a Cloudflare verification element.
pub const CHALLENGE_PROBE_SCRIPT: &'static str = "
        !!(document.getElementById('cf-browser-verification')
           || document.getElementById('challenge-running')
           || document.querySelector('.cf-browser-verification'))
        ";

/// Script that scrolls the page down by one screen.
pub const SCROLL_SCRIPT: &'static str = "window.scrollBy(0, window.innerHeight)";

/// Pause between two checks for a Cloudflare challenge, and after it clears.
pub const CHALLENGE_POLL_MS: u64 = 500;

/// Pause after the last page action, before the page is read.
pub const SETTLE_MS: u64 = 500;

/// The search page whose results the search tool reads.
pub const SEARCH_URL_PREFIX: &'static str = "https://html.duckduckgo.com/html/?q=";

/// Selector text reported when a click or typing action names no selector.
pub const NO_SELECTOR: &'static str = "(no selector provided)";

/// What a browser tool can fail with. Errors of the browser library are kept as their text.
#[derive(Debug)]
pub enum Error {
    BrowserLaunch(String),
    Navigation { url: String, source: String },
    CloudflareTimeout { timeout_secs: u64 },
    ElementNotFound { selector: String },
    Extraction(String),
    Screenshot(String),
    TaskJoin,
    Other(String),
}

/// The text of each error.
pub open spec fn error_message(e: Error) -> Seq<char> {
    match e {
        Error::BrowserLaunch(s) => "browser launch failed: "@ + s@,
        Error::Navigation { url, source } => "navigation failed for "@ + url@ + ": "@ + source@,
        Error::CloudflareTimeout { timeout_secs } => "cloudflare challenge did not resolve within "@
            + decimal(timeout_secs as nat) + "s"@,
        Error::ElementNotFound { selector } => "element not found: "@ + selector@,
        Error::Extraction(s) => "content extraction failed: "@ + s@,
        Error::Screenshot(s) => "screenshot failed: "@ + s@,
        Error::TaskJoin => "browser task panicked"@,
        Error::Other(s) => s@,
    }
}

impl Error {
    /// The error's text.
    pub fn message(&self) -> (m: String)
        ensures
            m@ == error_message(*self),
    {
        match self {
            Error::BrowserLaunch(s) => {
                let mut m = "browser launch failed: ".to_owned();
                m.append(s.as_str());
                m
            },
            Error::Navigation { url, source } => {
                let mut m = "navigation failed for ".to_owned();
                m.append(url.as_str());
                m.append(": ");
                m.append(source.as_str());
                m
            },
            Error::CloudflareTimeout { timeout_secs } => {
                let mut m = "cloudflare challenge did not resolve within ".to_owned();
                let n = decimal_string(*timeout_secs);
                m.append(n.as_str());
                m.append("s");
                m
            },
            Error::ElementNotFound { selector } => {
                let mut m = "element not found: ".to_owned();
                m.append(selector.as_str());
                m
            },
            Error::Extraction(s) => {
                let mut m = "content extraction failed: ".to_owned();
                m.append(s.as_str());
                m
            },
            Error::Screenshot(s) => {
                let mut m = "screenshot failed: ".to_owned();
                m.append(s.as_str());
                m
            },
            Error::TaskJoin => "browser task panicked".to_owned(),
            Error::Other(s) => s.clone(),
        }
    }
}

/// The kind of a page action.
#[derive(PartialEq, Eq, Structural, Clone, Copy, Debug)]
pub enum ActionType {
    Click,
    TypeText,
    Wait,
    Scroll,
    PressKey,
}

/// One action to perform on a page.
pub struct PageAction {
    pub action_type: ActionType,
    pub selector: Option<String>,
    pub text: Option<String>,
    pub key: Option<String>,
    pub delay_ms: Option<u64>,
}

/// What an interaction with a page produced.
pub struct InteractResult {
    pub html: String,
    pub final_url: String,
    pub screenshot_b64: Option<String>,
}

/// One step of driving the browser.
pub enum BrowserStep {
    /// Wait for the element matching the selector and keep it as the current element.
    FindElement { selector: String },
    /// Click the current element.
    ClickElement,
    /// Type the text into the current element.
    TypeIntoElement { text: String },
    /// Press the key.
    PressKey { key: String },
    /// Evaluate the script in the page.
    RunScript { script: String },
    /// Pause.
    Sleep { ms: u64 },
}

/// What a step holds.
pub enum StepView {
    FindElement(Seq<char>),
    ClickElement,
    TypeIntoElement(Seq<char>),
    PressKey(Seq<char>),
    RunScript(Seq<char>),
    Sleep(u64),
}

impl View for BrowserStep {
    type V = StepView;

    open spec fn view(&self) -> StepView {
        match self {
            BrowserStep::FindElement { selector } => StepView::FindElement(selector@),
            BrowserStep::ClickElement => StepView::ClickElement,
            BrowserStep::TypeIntoElement { text } => StepView::TypeIntoElement(text@),
            BrowserStep::PressKey { key } => StepView::PressKey(key@),
            BrowserStep::RunScript { script } => StepView::RunScript(script@),
            BrowserStep::Sleep { ms } => StepView::Sleep(*ms),
        }
    }
}

/// The views of a sequence of steps.
pub open spec fn step_views(s: Seq<BrowserStep>) -> Seq<StepView> {
    s.map_values(|b: BrowserStep| b@)
}

/// The steps that perform an action, or `None` when the action lacks the selector it needs.
pub open spec fn action_plan(a: PageAction) -> Option<Seq<StepView>> {
    match a.action_type {
        ActionType::Click => match a.selector {
            Some(sel) => Some(
                seq![StepView::FindElement(sel@), StepView::ClickElement, StepView::Sleep(300)],
            ),
            None => None,
        },
        ActionType::TypeText => match a.selector {
            Some(sel) => {
                let text = match a.text {
                    Some(t) => t@,
                    None => Seq::empty(),
                };
                let typing = seq![
                    StepView::FindElement(sel@),
                    StepView::ClickElement,
                    StepView::TypeIntoElement(text),
                ];
                match a.key {
                    Some(k) => Some(typing + seq![StepView::PressKey(k@), StepView::Sleep(500)]),
                    None => Some(typing),
                }
            },
            None => None,
        },
        ActionType::Wait => Some(
            seq![
                StepView::Sleep(
                    match a.delay_ms {
                        Some(d) => d,
                        None => 1000,
                    },
                ),
            ],
        ),
        ActionType::Scroll => Some(seq![StepView::RunScript(SCROLL_SCRIPT@), StepView::Sleep(300)]),
        ActionType::PressKey => Some(
            seq![
                StepView::PressKey(
                    match a.key {
                        Some(k) => k@,
                        None => "Enter"@,
                    },
                ),
                StepView::Sleep(300),
            ],
        ),
    }
}

/// The steps that perform `action`; an action that needs a selector and names none fails
/// with `ElementNotFound` for the text `(no selector provided)`.
pub fn action_steps(action: &PageAction) -> (r: Result<Vec<BrowserStep>, Error>)
    ensures
        match (r, action_plan(*action)) {
            (Ok(steps), Some(plan)) => step_views(steps@) == plan,
            (Err(e), None) => e matches Error::ElementNotFound { selector } && selector@
                == NO_SELECTOR@,
            _ => false,
        },
{
    let mut steps: Vec<BrowserStep> = Vec::new();
    match action.action_type {
        ActionType::Click => {
            let sel = match &action.selector {
                Some(s) => s.clone(),
                None => return Err(Error::ElementNotFound { selector: NO_SELECTOR.to_owned() }),
            };
            steps.push(BrowserStep::FindElement { selector: sel });
            steps.push(BrowserStep::ClickElement);
            steps.push(BrowserStep::Sleep { ms: 300 });
        },
        ActionType::TypeText => {
            let sel = match &action.selector {
                Some(s) => s.clone(),
                None => return Err(Error::ElementNotFound { selector: NO_SELECTOR.to_owned() }),
            };
            let text = match &action.text {
                Some(t) => t.clone(),
                None => String::new(),
            };
            steps.push(BrowserStep::FindElement { selector: sel });
            steps.push(BrowserStep::ClickElement);
            steps.push(BrowserStep::TypeIntoElement { text });
            match &action.key {
                Some(k) => {
                    steps.push(BrowserStep::PressKey { key: k.clone() });
                    steps.push(BrowserStep::Sleep { ms: 500 });
                },
                None => {},
            }
        },
        ActionType::Wait => {
            let ms = match action.delay_ms {
                Some(d) => d,
                None => 1000,
            };
            steps.push(BrowserStep::Sleep { ms });
        },
        ActionType::Scroll => {
            steps.push(BrowserStep::RunScript { script: SCROLL_SCRIPT.to_owned() });
            steps.push(BrowserStep::Sleep { ms: 300 });
        },
        ActionType::PressKey => {
            let key = match &action.key {
                Some(k) => k.clone(),
                None => "Enter".to_owned(),
            };
            steps.push(BrowserStep::PressKey { key });
            steps.push(BrowserStep::Sleep { ms: 300 });
        },
    }
    assert(step_views(steps@) =~= action_plan(*action).unwrap());
    Ok(steps)
}

/// The error for `step` failing with the browser's `reason`.
pub fn step_error(step: &BrowserStep, reason: String) -> (e: Error)
    ensures
        match step@ {
            StepView::FindElement(sel) => e matches Error::ElementNotFound { selector } && selector@
                == sel,
            _ => e matches Error::Navigation { url, source } && url@.len() == 0 && source@
                == reason@,
        },
{
    match step {
        BrowserStep::FindElement { selector } => Error::ElementNotFound { selector: selector.clone() },
        _ => Error::Navigation { url: String::new(), source: reason },
    }
}

/// The timeout in seconds: the requested one, or the default.
pub fn resolve_timeout(timeout_secs: Option<u64>, default_secs: u64) -> (t: u64)
    ensures
        t == match timeout_secs {
            Some(s) => s,
            None => default_secs,
        },
{
    match timeout_secs {
        Some(s) => s,
        None => default_secs,
    }
}

/// Whether a page title marks a Cloudflare challenge page.
pub open spec fn challenge_title(title: Seq<char>) -> bool {
    contains_seq(lowercase_of(title), "just a moment"@) || contains_seq(
        lowercase_of(title),
        "attention required"@,
    )
}

/// Whether the page shows a Cloudflare challenge: its title (when it could be read) says so
/// once lowercased, or the verification element probe reported `true`.
pub fn is_cloudflare_challenge(title: Option<&str>, verification_element: bool) -> (b: bool)
    ensures
        b == ((title matches Some(t) && challenge_title(t@)) || verification_element),
{
    match title {
        Some(t) => {
            let lower = chars_of(to_lowercase(t).as_str());
            if contains_chars(&lower, &chars_of("just a moment")) || contains_chars(
                &lower,
                &chars_of("attention required"),
            ) {
                return true;
            }
        },
        None => {},
    }
    verification_element
}

/// What to do while a challenge may be showing.
#[derive(PartialEq, Eq, Structural, Clone, Copy, Debug)]
pub enum ChallengeWait {
    /// No challenge shows: go on.
    Proceed,
    /// A challenge shows and time remains: pause and check again.
    Retry,
    /// A challenge shows and more than the timeout has passed: fail.
    GiveUp,
}

/// The decision after `elapsed_ms` of waiting with a timeout of `timeout_secs`.
pub fn challenge_wait(challenge: bool, elapsed_ms: u64, timeout_secs: u64) -> (w: ChallengeWait)
    ensures
        w == if !challenge {
            ChallengeWait::Proceed
        } else if elapsed_ms > timeout_secs * 1000 {
            ChallengeWait::GiveUp
        } else {
            ChallengeWait::Retry
        },
{
    if !challenge {
        ChallengeWait::Proceed
    } else if timeout_secs <= u64::MAX / 1000 && elapsed_ms > timeout_secs * 1000 {
        ChallengeWait::GiveUp
    } else {
        ChallengeWait::Retry
    }
}

/// Whether the thread that saw a dead browser at generation `snapshot` should relaunch it:
/// only if no other thread did so since (the generation is unchanged).
pub fn should_relaunch(current_generation: u64, snapshot_generation: u64) -> (b: bool)
    ensures
        b == (current_generation == snapshot_generation),
{
    current_generation == snapshot_generation
}

/// The search page for `query`.
pub open spec fn search_url_spec(query: Seq<char>) -> Seq<char> {
    SEARCH_URL_PREFIX@ + percent_encoded(encode_utf8(query))
}

/// The search page for `query`, with the query percent-encoded.
pub fn search_url(query: &str) -> (u: String)
    ensures
        u@ == search_url_spec(query@),
{
    let mut u = SEARCH_URL_PREFIX.to_owned();
    let q = url_encode(query);
    u.append(q.as_str());
    u
}

/// The result of an interaction: the page's HTML and URL, and its screenshot (if one was
/// taken) in standard Base64.
pub fn interact_result(html: String, final_url: String, screenshot: Option<Vec<u8>>) -> (r:
    InteractResult)
    requires
        screenshot matches Some(png) ==> png@.len() <= usize::MAX / 2,
    ensures
        r.html@ == html@,
        r.final_url@ == final_url@,
        match screenshot {
            Some(png) => r.screenshot_b64 matches Some(b) && b@ == base64_standard_of(png@),
            None => r.screenshot_b64 is None,
        },
{
    let screenshot_b64 = match screenshot {
        Some(png) => Some(base64_standard(png.as_slice())),
        None => None,
    };
    InteractResult { html, final_url, screenshot_b64 }
}

} // verus!
