//! The MCP tools' answers: fetched text, formatted search results, screenshots and
//! interaction reports, built from what the browser returned.

use vstd::prelude::*;
use crate::bindings::{base64_standard, base64_standard_of};
use crate::browser::{error_message, Error, InteractResult, PageAction};
use crate::extraction::{
    html_text, html_to_text, page_results, parse_duckduckgo_results, result_views,
    SearchResult, SearchResultView,
};
use crate::strings::{chars_of, decimal, decimal_string, string_from_chars};

verus! {

broadcast use vstd::string::group_string_axioms;

/// Longest text (in characters) a tool returns before it is cut.
pub const MAX_TEXT_LENGTH: usize = 50_000;

/// Column width of rendered page text.
pub const TEXT_WIDTH: usize = 80;

/// Number of search results returned when the caller names no maximum.
pub const DEFAULT_MAX_RESULTS: usize = 10;

/// The answer to a search without results.
pub const NO_RESULTS: &'static str = "No results found.";

/// The MIME type of screenshots.
pub const PNG_MIME: &'static str = "image/png";

/// Instructions the server gives to MCP clients.
pub const SERVER_INSTRUCTIONS: &'static str = "Web access server with Cloudflare bypass. Provides tools to fetch web pages, search the web, take screenshots, and interact with pages. Handles JavaScript rendering and Cloudflare challenges automatically using a headless browser.";

/// Parameters of the `fetch` tool.
pub struct FetchParams {
    pub url: String,
    pub timeout_secs: Option<u64>,
}

/// Parameters of the `search` tool.
pub struct SearchParams {
    pub query: String,
    pub max_results: Option<usize>,
}

/// Parameters of the `screenshot` tool.
pub struct ScreenshotParams {
    pub url: String,
    pub timeout_secs: Option<u64>,
}

/// Parameters of the `interact` tool.
pub struct InteractParams {
    pub url: String,
    pub actions: Vec<PageAction>,
    pub timeout_secs: Option<u64>,
}

/// One part of a tool's answer.
pub enum ToolContent {
    Text(String),
    Image { data: String, mime_type: String },
}

/// What a part of an answer holds.
pub enum ContentView {
    Text(Seq<char>),
    Image(Seq<char>, Seq<char>),
}

impl View for ToolContent {
    type V = ContentView;

    open spec fn view(&self) -> ContentView {
        match self {
            ToolContent::Text(t) => ContentView::Text(t@),
            ToolContent::Image { data, mime_type } => ContentView::Image(data@, mime_type@),
        }
    }
}

/// A tool's answer: its parts, and whether it reports an error.
pub struct ToolOutput {
    pub is_error: bool,
    pub content: Vec<ToolContent>,
}

/// The views of the parts of an answer.
pub open spec fn content_views(c: Seq<ToolContent>) -> Seq<ContentView> {
    c.map_values(|x: ToolContent| x@)
}

/// A text cut to its first `MAX_TEXT_LENGTH` characters, with a note of its full length in
/// characters, when it is longer.
pub open spec fn truncated_text(text: Seq<char>) -> Seq<char> {
    if text.len() > MAX_TEXT_LENGTH {
        text.take(MAX_TEXT_LENGTH as int) + "...\n[truncated, "@ + decimal(text.len()) + " total chars]"@
    } else {
        text
    }
}

/// Cuts a text longer than `MAX_TEXT_LENGTH` characters and notes its full length.
pub fn truncate_text(text: String) -> (r: String)
    ensures
        r@ == truncated_text(text@),
{
    let chars = chars_of(text.as_str());
    let n = chars.len();
    if n > MAX_TEXT_LENGTH {
        let mut r = string_from_chars(&chars, 0, MAX_TEXT_LENGTH);
        r.append("...\n[truncated, ");
        let total = decimal_string(n as u64);
        r.append(total.as_str());
        r.append(" total chars]");
        proof {
            assert(chars@.subrange(0, MAX_TEXT_LENGTH as int) =~= text@.take(MAX_TEXT_LENGTH as int));
        }
        r
    } else {
        text
    }
}

/// One search result as listed: `<n>. <title>`, then the URL and the snippet on indented lines.
pub open spec fn listed_result(n: nat, r: SearchResultView) -> Seq<char> {
    decimal(n) + ". "@ + r.title + "\n   URL: "@ + r.url + "\n   "@ + r.snippet
}

/// The search results as listed, numbered from 1 and separated by blank lines.
pub open spec fn listed_results(rs: Seq<SearchResultView>) -> Seq<char>
    decreases rs.len(),
{
    if rs.len() == 0 {
        Seq::empty()
    } else if rs.len() == 1 {
        listed_result(1, rs[0])
    } else {
        listed_results(rs.drop_last()) + "\n\n"@ + listed_result(rs.len(), rs.last())
    }
}

/// Lists search results, numbered from 1 and separated by blank lines.
pub fn format_search_results(results: &Vec<SearchResult>) -> (s: String)
    ensures
        s@ == listed_results(result_views(results@)),
{
    let ghost rv = result_views(results@);
    let n = results.len();
    let mut s = String::new();
    let mut i: usize = 0;
    while i < n
        invariant
            n == results@.len(),
            rv == result_views(results@),
            i <= n,
            s@ == listed_results(rv.take(i as int)),
        decreases n - i,
    {
        let r = &results[i];
        assert(rv[i as int] == r@);
        if i > 0 {
            s.append("\n\n");
        }
        let num = decimal_string((i + 1) as u64);
        s.append(num.as_str());
        s.append(". ");
        s.append(r.title.as_str());
        s.append("\n   URL: ");
        s.append(r.url.as_str());
        s.append("\n   ");
        s.append(r.snippet.as_str());
        proof {
            assert(rv.take(i + 1).drop_last() =~= rv.take(i as int));
            assert(rv.take(i + 1).last() == rv[i as int]);
            if i == 0 {
                assert(rv.take(0) =~= Seq::<SearchResultView>::empty());
            }
        }
        i = i + 1;
    }
    assert(rv.take(n as int) =~= rv);
    s
}

/// An answer holding one text.
pub open spec fn text_answer(is_error: bool, text: Seq<char>) -> (bool, Seq<ContentView>) {
    (is_error, seq![ContentView::Text(text)])
}

/// The answer as views.
pub open spec fn output_view(o: ToolOutput) -> (bool, Seq<ContentView>) {
    (o.is_error, content_views(o.content@))
}

/// An answer holding one text.
pub fn text_output(is_error: bool, text: String) -> (o: ToolOutput)
    ensures
        output_view(o) == text_answer(is_error, text@),
{
    let mut content: Vec<ToolContent> = Vec::new();
    content.push(ToolContent::Text(text));
    assert(content_views(content@) =~= seq![ContentView::Text(text@)]);
    ToolOutput { is_error, content }
}

/// The error answer for a failed browser call.
pub fn error_output(e: &Error) -> (o: ToolOutput)
    ensures
        output_view(o) == text_answer(true, error_message(*e)),
{
    text_output(true, e.message())
}

/// The `fetch` tool's answer: the page rendered as text (cut when long), or the error.
pub fn fetch_output(result: Result<String, Error>) -> (o: ToolOutput)
    ensures
        match result {
            Ok(html) => output_view(o) == text_answer(
                false,
                truncated_text(html_text(html@, TEXT_WIDTH)),
            ),
            Err(e) => output_view(o) == text_answer(true, error_message(e)),
        },
{
    match result {
        Ok(html) => {
            let text = html_to_text(html.as_str(), TEXT_WIDTH);
            text_output(false, truncate_text(text))
        },
        Err(e) => error_output(&e),
    }
}

/// The number of results a search answers: the requested maximum, or 10.
pub open spec fn result_limit(max_results: Option<usize>) -> nat {
    match max_results {
        Some(m) => m as nat,
        None => DEFAULT_MAX_RESULTS as nat,
    }
}

/// The first results of a search, at most `limit`.
pub open spec fn first_results(rs: Seq<SearchResultView>, limit: nat) -> Seq<SearchResultView> {
    if rs.len() <= limit {
        rs
    } else {
        rs.take(limit as int)
    }
}

/// The text of a search answer for these results.
pub open spec fn search_answer_text(rs: Seq<SearchResultView>) -> Seq<char> {
    if rs.len() == 0 {
        NO_RESULTS@
    } else {
        listed_results(rs)
    }
}

/// The `search` tool's answer for a results page: its first results (10 unless another
/// maximum is named), listed, or a note that there were none; or the error.
pub fn search_output(result: Result<String, Error>, max_results: Option<usize>) -> (o: ToolOutput)
    ensures
        match result {
            Ok(html) => output_view(o) == text_answer(
                false,
                search_answer_text(
                    first_results(
                        page_results(html@),
                        result_limit(max_results),
                    ),
                ),
            ),
            Err(e) => output_view(o) == text_answer(true, error_message(e)),
        },
{
    match result {
        Ok(html) => {
            let mut results = parse_duckduckgo_results(html.as_str());
            let max = match max_results {
                Some(m) => m,
                None => DEFAULT_MAX_RESULTS,
            };
            let ghost all = result_views(results@);
            results.truncate(max);
            assert(result_views(results@) =~= first_results(all, max as nat));
            if results.len() == 0 {
                return text_output(false, NO_RESULTS.to_owned());
            }
            text_output(false, format_search_results(&results))
        },
        Err(e) => error_output(&e),
    }
}

/// The `screenshot` tool's answer: the PNG in standard Base64 as an image, or the error.
pub fn screenshot_output(result: Result<Vec<u8>, Error>) -> (o: ToolOutput)
    requires
        result matches Ok(png) ==> png@.len() <= usize::MAX / 2,
    ensures
        match result {
            Ok(png) => output_view(o) == (
                false,
                seq![ContentView::Image(base64_standard_of(png@), PNG_MIME@)],
            ),
            Err(e) => output_view(o) == text_answer(true, error_message(e)),
        },
{
    match result {
        Ok(png) => {
            let data = base64_standard(png.as_slice());
            let mut content: Vec<ToolContent> = Vec::new();
            content.push(ToolContent::Image { data, mime_type: PNG_MIME.to_owned() });
            assert(content_views(content@) =~= seq![
                ContentView::Image(base64_standard_of(png@), PNG_MIME@),
            ]);
            ToolOutput { is_error: false, content }
        },
        Err(e) => error_output(&e),
    }
}

/// The text part of an interaction report: the final URL, a blank line, and the page text.
pub open spec fn interaction_text(final_url: Seq<char>, html: Seq<char>) -> Seq<char> {
    "Final URL: "@ + final_url + "\n\n"@ + html_text(html, TEXT_WIDTH)
}

/// The image part of an interaction report: the screenshot, if one was taken.
pub open spec fn screenshot_part(shot: Option<String>) -> Seq<ContentView> {
    match shot {
        Some(b) => seq![ContentView::Image(b@, PNG_MIME@)],
        None => Seq::empty(),
    }
}

/// The `interact` tool's answer: the final URL and page text (cut when long), then the
/// screenshot if one was taken; or the error.
pub fn interact_output(result: Result<InteractResult, Error>) -> (o: ToolOutput)
    ensures
        match result {
            Ok(r) => !o.is_error && content_views(o.content@) == seq![
                ContentView::Text(truncated_text(interaction_text(r.final_url@, r.html@))),
            ] + screenshot_part(r.screenshot_b64),
            Err(e) => output_view(o) == text_answer(true, error_message(e)),
        },
{
    match result {
        Ok(r) => {
            let page = html_to_text(r.html.as_str(), TEXT_WIDTH);
            let mut text = "Final URL: ".to_owned();
            text.append(r.final_url.as_str());
            text.append("\n\n");
            text.append(page.as_str());
            let ghost expected = seq![
                ContentView::Text(truncated_text(interaction_text(r.final_url@, r.html@))),
            ] + screenshot_part(r.screenshot_b64);
            let mut content: Vec<ToolContent> = Vec::new();
            content.push(ToolContent::Text(truncate_text(text)));
            match r.screenshot_b64 {
                Some(b) => {
                    content.push(ToolContent::Image { data: b, mime_type: PNG_MIME.to_owned() });
                },
                None => {},
            }
            assert(content_views(content@) =~= expected);
            ToolOutput { is_error: false, content }
        },
        Err(e) => error_output(&e),
    }
}

} // verus!
