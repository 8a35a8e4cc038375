use mcp_web_search::jsonrpc::{
    parse_jsonrpc_for_logging, parse_text, string_value, summarize, JsonShape, MAX_SUMMARY_BYTES,
};

#[test]
fn tool_calls_are_summarized() {
    let body = br#"{"jsonrpc":"2.0","id":1,"method":"tools/call","params":{"name":"fetch","arguments":{"url":"https://example.com","timeout_secs":5}}}"#;
    let c = parse_jsonrpc_for_logging(body);
    assert_eq!(c.method, Some("tools/call".to_string()));
    assert_eq!(c.tool_name, Some("fetch".to_string()));
    assert_eq!(
        c.params_summary,
        Some(r#"{"timeout_secs":5,"url":"https://example.com"}"#.to_string())
    );
}

#[test]
fn bodies_that_are_no_json_record_nothing() {
    for body in [&b"not json"[..], &b""[..], &b"{\"method\":"[..]] {
        let c = parse_jsonrpc_for_logging(body);
        assert_eq!(c.method, None);
        assert_eq!(c.tool_name, None);
        assert_eq!(c.params_summary, None);
    }
}

#[test]
fn calls_without_params() {
    let c = parse_jsonrpc_for_logging(br#"{"jsonrpc":"2.0","id":2,"method":"tools/list"}"#);
    assert_eq!(c.method, Some("tools/list".to_string()));
    assert_eq!(c.tool_name, None);
    assert_eq!(c.params_summary, None);
}

#[test]
fn non_string_members_are_not_names() {
    let c = parse_jsonrpc_for_logging(br#"{"method":3,"params":{"name":7,"arguments":[1, 2]}}"#);
    assert_eq!(c.method, None);
    assert_eq!(c.tool_name, None);
    assert_eq!(c.params_summary, Some("[1,2]".to_string()));
    let c = parse_jsonrpc_for_logging(b"[1,2,3]");
    assert_eq!(c.method, None);
    let c = parse_jsonrpc_for_logging(br#"{"method":"m","params":"text"}"#);
    assert_eq!(c.method, Some("m".to_string()));
    assert_eq!(c.tool_name, None);
    assert_eq!(c.params_summary, None);
}

#[test]
fn escaped_strings_are_read() {
    let c = parse_jsonrpc_for_logging(br#"{"method":"a\"b\u00e9","params":{"name":"x\ny"}}"#);
    assert_eq!(c.method, Some("a\"bé".to_string()));
    assert_eq!(c.tool_name, Some("x\ny".to_string()));
    assert_eq!(string_value(r#""plain""#), Some("plain".to_string()));
    assert_eq!(string_value("12"), None);
}

#[test]
fn parsed_values_hold_text_and_members() {
    let v = parse_text(r#"{ "b" : [1, 2], "a" : "x" }"#).unwrap();
    assert_eq!(v.text, r#"{"a":"x","b":[1,2]}"#);
    match v.shape {
        JsonShape::Object(members) => {
            let pairs: Vec<(String, String)> =
                members.into_iter().map(|m| (m.key, m.text)).collect();
            assert_eq!(
                pairs,
                vec![
                    ("a".to_string(), "\"x\"".to_string()),
                    ("b".to_string(), "[1,2]".to_string())
                ]
            );
        }
        _ => panic!("object expected"),
    }
    assert!(parse_text("nope").is_none());
}

#[test]
fn long_arguments_are_cut_at_two_hundred_bytes() {
    let arg = "x".repeat(300);
    let body = format!(r#"{{"method":"tools/call","params":{{"name":"fetch","arguments":{{"q":"{arg}"}}}}}}"#);
    let c = parse_jsonrpc_for_logging(body.as_bytes());
    let text = format!(r#"{{"q":"{arg}"}}"#);
    let summary = c.params_summary.unwrap();
    assert_eq!(summary, format!("{}...", &text[..200]));
    assert_eq!(summary.len(), MAX_SUMMARY_BYTES + 3);
}

#[test]
fn summaries_cut_at_a_character_boundary() {
    let mut text = "a".repeat(199);
    text.push('é');
    assert_eq!(summarize(&text), format!("{}...", "a".repeat(199)));
    let body = format!(r#"{{"method":"m","params":{{"arguments":"{}"}}}}"#, "é".repeat(150));
    let c = parse_jsonrpc_for_logging(body.as_bytes());
    assert_eq!(c.params_summary, Some(format!("\"{}...", "é".repeat(99))));
    let mut exact = "a".repeat(198);
    exact.push('é');
    exact.push_str("tail");
    assert_eq!(summarize(&exact), format!("{}é...", "a".repeat(198)));
    assert_eq!(summarize("short"), "short");
    let two_hundred = "b".repeat(200);
    assert_eq!(summarize(&two_hundred), two_hundred);
    let wide = "😀".repeat(60);
    assert_eq!(summarize(&wide), format!("{}...", "😀".repeat(50)));
}
