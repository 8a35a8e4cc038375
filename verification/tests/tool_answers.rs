use mcp_web_search::browser::{interact_result, Error, InteractResult};
use mcp_web_search::extraction::{html_to_text, parse_duckduckgo_results, SearchResult};
use mcp_web_search::tools::{
    error_output, fetch_output, format_search_results, interact_output,
    screenshot_output, search_output, text_output, truncate_text, ToolContent, ToolOutput,
    MAX_TEXT_LENGTH, NO_RESULTS, PNG_MIME,
};

const RESULTS_PAGE: &str = r#"<html><body>
<div class="result"><a class="result__a" href="https://example.com/">  Example Domain  </a>
<a class="result__snippet" href="https://example.com/">An <b>example</b> snippet.</a></div>
<div class="result"><a class="result__a" href="https://empty.example/">   </a></div>
<div class="result"><a class="result__a">No link here</a></div>
<div class="result"><span>no title at all</span></div>
<div class="result"><a class="result__a" href="https://rust-lang.org/">Rust</a>
<div class="result__snippet">  A language.  </div></div>
</body></html>"#;

fn texts(o: &ToolOutput) -> Vec<String> {
    o.content
        .iter()
        .map(|c| match c {
            ToolContent::Text(t) => t.clone(),
            ToolContent::Image { data, mime_type } => format!("image:{mime_type}:{data}"),
        })
        .collect()
}

#[test]
fn short_text_is_not_truncated() {
    assert_eq!(truncate_text("hello".to_string()), "hello");
    let exact = "a".repeat(MAX_TEXT_LENGTH);
    assert_eq!(truncate_text(exact.clone()), exact);
}

#[test]
fn long_text_is_truncated_with_its_length() {
    let long = "a".repeat(MAX_TEXT_LENGTH + 1);
    let cut = truncate_text(long);
    assert_eq!(cut, format!("{}...\n[truncated, 50001 total chars]", "a".repeat(50_000)));
}

#[test]
fn truncation_counts_characters() {
    let two_byte = "é".repeat(25_001);
    assert_eq!(truncate_text(two_byte.clone()), two_byte);
    let three_byte = "€".repeat(16_667);
    assert_eq!(truncate_text(three_byte.clone()), three_byte);
    let at_cap = "€".repeat(MAX_TEXT_LENGTH);
    assert_eq!(truncate_text(at_cap.clone()), at_cap);
    let over = "é".repeat(MAX_TEXT_LENGTH + 1);
    assert_eq!(
        truncate_text(over),
        format!("{}...\n[truncated, 50001 total chars]", "é".repeat(50_000))
    );
    let mut mixed = "a".repeat(MAX_TEXT_LENGTH - 1);
    mixed.push('é');
    mixed.push_str("tail");
    assert_eq!(
        truncate_text(mixed),
        format!("{}é...\n[truncated, 50004 total chars]", "a".repeat(49_999))
    );
}

#[test]
fn search_results_are_listed() {
    let results = vec![
        SearchResult {
            title: "One".to_string(),
            url: "https://one.example/".to_string(),
            snippet: "First.".to_string(),
        },
        SearchResult {
            title: "Two".to_string(),
            url: "https://two.example/".to_string(),
            snippet: "Second.".to_string(),
        },
    ];
    assert_eq!(
        format_search_results(&results),
        "1. One\n   URL: https://one.example/\n   First.\n\n2. Two\n   URL: https://two.example/\n   Second."
    );
    assert_eq!(format_search_results(&Vec::new()), "");
}

#[test]
fn duckduckgo_results_are_parsed() {
    let results = parse_duckduckgo_results(RESULTS_PAGE);
    assert_eq!(results.len(), 3);
    assert_eq!(results[0].title, "Example Domain");
    assert_eq!(results[0].url, "https://example.com/");
    assert_eq!(results[0].snippet, "An example snippet.");
    assert_eq!(results[1].title, "No link here");
    assert_eq!(results[1].url, "");
    assert_eq!(results[1].snippet, "");
    assert_eq!(results[2].title, "Rust");
    assert_eq!(results[2].snippet, "A language.");
    assert!(parse_duckduckgo_results("<p>nothing</p>").is_empty());
}

#[test]
fn search_answer_respects_the_maximum() {
    let all = search_output(Ok(RESULTS_PAGE.to_string()), None);
    assert!(!all.is_error);
    assert_eq!(
        texts(&all),
        vec![
            "1. Example Domain\n   URL: https://example.com/\n   An example snippet.\n\n\
             2. No link here\n   URL: \n   \n\n\
             3. Rust\n   URL: https://rust-lang.org/\n   A language."
                .to_string()
        ]
    );
    let one = search_output(Ok(RESULTS_PAGE.to_string()), Some(1));
    assert_eq!(
        texts(&one),
        vec!["1. Example Domain\n   URL: https://example.com/\n   An example snippet.".to_string()]
    );
    let none = search_output(Ok(RESULTS_PAGE.to_string()), Some(0));
    assert_eq!(texts(&none), vec![NO_RESULTS.to_string()]);
    let empty = search_output(Ok("<html></html>".to_string()), None);
    assert_eq!(texts(&empty), vec!["No results found.".to_string()]);
}

#[test]
fn errors_become_error_answers() {
    let e = Error::CloudflareTimeout { timeout_secs: 10 };
    assert_eq!(e.message(), "cloudflare challenge did not resolve within 10s");
    let o = error_output(&e);
    assert!(o.is_error);
    assert_eq!(texts(&o), vec!["cloudflare challenge did not resolve within 10s".to_string()]);
    let o = search_output(Err(Error::Extraction("boom".to_string())), None);
    assert!(o.is_error);
    assert_eq!(texts(&o), vec!["content extraction failed: boom".to_string()]);
    let o = fetch_output(Err(Error::TaskJoin));
    assert_eq!(texts(&o), vec!["browser task panicked".to_string()]);
    let o = screenshot_output(Err(Error::Screenshot("no tab".to_string())));
    assert_eq!(texts(&o), vec!["screenshot failed: no tab".to_string()]);
    let o = interact_output(Err(Error::ElementNotFound { selector: "#go".to_string() }));
    assert!(o.is_error);
    assert_eq!(texts(&o), vec!["element not found: #go".to_string()]);
}

#[test]
fn error_texts() {
    assert_eq!(Error::BrowserLaunch("no chrome".to_string()).message(), "browser launch failed: no chrome");
    assert_eq!(
        Error::Navigation { url: "https://x.example".to_string(), source: "timeout".to_string() }
            .message(),
        "navigation failed for https://x.example: timeout"
    );
    assert_eq!(Error::Other("plain".to_string()).message(), "plain");
    assert_eq!(Error::CloudflareTimeout { timeout_secs: 0 }.message(), "cloudflare challenge did not resolve within 0s");
}

#[test]
fn fetch_answer_is_the_page_text() {
    let o = fetch_output(Ok("<p>Hello world</p>".to_string()));
    assert!(!o.is_error);
    assert_eq!(texts(&o), vec![html_to_text("<p>Hello world</p>", 80)]);
    assert_eq!(html_to_text("<p>Hello world</p>", 80), "Hello world\n");
    let long = format!("<p>{}</p>", "word ".repeat(20_000));
    let o = fetch_output(Ok(long));
    assert!(texts(&o)[0].ends_with(" total chars]"));
    let accented = format!("<p>{}</p>", "é".repeat(30_000));
    let o = fetch_output(Ok(accented.clone()));
    assert!(!o.is_error);
    assert_eq!(texts(&o), vec![html_to_text(&accented, 80)]);
    assert!(!texts(&o)[0].ends_with(" total chars]"));
}

#[test]
fn screenshot_answer_is_base64_png() {
    let o = screenshot_output(Ok(vec![0x89, b'P', b'N', b'G']));
    assert!(!o.is_error);
    assert_eq!(texts(&o), vec![format!("image:{PNG_MIME}:iVBORw==")]);
}

#[test]
fn interaction_answer_has_text_and_screenshot() {
    let r = interact_result(
        "<p>Done</p>".to_string(),
        "https://example.com/after".to_string(),
        Some(vec![1, 2, 3]),
    );
    assert_eq!(r.screenshot_b64, Some("AQID".to_string()));
    let o = interact_output(Ok(r));
    assert!(!o.is_error);
    assert_eq!(
        texts(&o),
        vec![
            format!("Final URL: https://example.com/after\n\n{}", html_to_text("<p>Done</p>", 80)),
            "image:image/png:AQID".to_string(),
        ]
    );
    let r = InteractResult {
        html: "<p>x</p>".to_string(),
        final_url: "u".to_string(),
        screenshot_b64: None,
    };
    let o = interact_output(Ok(r));
    assert_eq!(o.content.len(), 1);
    let r = interact_result("h".to_string(), "u".to_string(), None);
    assert_eq!(r.screenshot_b64, None);
}

#[test]
fn text_answers() {
    let o = text_output(false, "fine".to_string());
    assert!(!o.is_error);
    assert_eq!(texts(&o), vec!["fine".to_string()]);
}
