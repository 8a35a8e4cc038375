//! What the request log reads of a JSON-RPC request body: the method, the tool's name, and a
//! short summary of the tool's arguments.
//!
//! A body is parsed one level at a time: a parsed value holds its compact JSON text and, for
//! an object, each member's key and compact JSON text, which is parsed again when the log
//! reads inside it.

use vstd::prelude::*;
use vstd::utf8::encode_utf8;
use crate::admin::LoggedCall;
use crate::bindings::{json_parse_of, parse_json};
use crate::strings::{byte_len, chars_within, prefix_within, utf8_len};

verus! {

broadcast use vstd::string::group_string_axioms;

/// Longest summary of a call's arguments (in bytes, before the `...` mark) once it is cut.
pub const MAX_SUMMARY_BYTES: usize = 200;

/// A parsed JSON value: its compact JSON text, and the contents of a string or the members
/// of an object.
pub struct JsonValue {
    pub text: String,
    pub shape: JsonShape,
}

/// The kind of a JSON value, with the contents the log reads.
pub enum JsonShape {
    Str(String),
    Object(Vec<JsonMember>),
    Other,
}

/// One member of a JSON object: its key and the compact JSON text of its value.
pub struct JsonMember {
    pub key: String,
    pub text: String,
}

/// What a parsed JSON value holds.
pub struct JsonValueView {
    pub text: Seq<char>,
    pub shape: JsonShapeView,
}

/// What the kind of a parsed JSON value holds; an object's members are (key, text) pairs.
pub enum JsonShapeView {
    Str(Seq<char>),
    Object(Seq<(Seq<char>, Seq<char>)>),
    Other,
}

/// The (key, text) pairs of members.
pub open spec fn member_views(members: Seq<JsonMember>) -> Seq<(Seq<char>, Seq<char>)> {
    members.map_values(|m: JsonMember| (m.key@, m.text@))
}

impl View for JsonValue {
    type V = JsonValueView;

    open spec fn view(&self) -> JsonValueView {
        JsonValueView {
            text: self.text@,
            shape: match self.shape {
                JsonShape::Str(s) => JsonShapeView::Str(s@),
                JsonShape::Object(members) => JsonShapeView::Object(member_views(members@)),
                JsonShape::Other => JsonShapeView::Other,
            },
        }
    }
}

/// An optional parsed value, as a view.
pub open spec fn json_view(v: Option<JsonValue>) -> Option<JsonValueView> {
    match v {
        Some(x) => Some(x@),
        None => None,
    }
}

/// The JSON text `text` parsed.
pub open spec fn parsed(text: Seq<char>) -> Option<JsonValueView> {
    json_parse_of(encode_utf8(text))
}

/// The text of the first member named `key`.
pub open spec fn member_text(members: Seq<(Seq<char>, Seq<char>)>, key: Seq<char>) -> Option<
    Seq<char>,
>
    decreases members.len(),
{
    if members.len() == 0 {
        None
    } else if members[0].0 == key {
        Some(members[0].1)
    } else {
        member_text(members.drop_first(), key)
    }
}

/// The text of member `key` of an object; `None` for a missing member or a value that is no
/// object.
pub open spec fn json_get(v: JsonValueView, key: Seq<char>) -> Option<Seq<char>> {
    match v.shape {
        JsonShapeView::Object(members) => member_text(members, key),
        _ => None,
    }
}

/// The contents of the JSON text `text` when it is a string.
pub open spec fn string_in(text: Seq<char>) -> Option<Seq<char>> {
    match parsed(text) {
        Some(v) => match v.shape {
            JsonShapeView::Str(s) => Some(s),
            _ => None,
        },
        None => None,
    }
}

/// The string member `key` of `v`, if there is one.
pub open spec fn str_member(v: JsonValueView, key: Seq<char>) -> Option<Seq<char>> {
    match json_get(v, key) {
        Some(t) => string_in(t),
        None => None,
    }
}

/// The `params` member of a body, parsed.
pub open spec fn params_of(body: Seq<u8>) -> Option<JsonValueView> {
    match json_parse_of(body) {
        Some(v) => match json_get(v, "params"@) {
            Some(t) => parsed(t),
            None => None,
        },
        None => None,
    }
}

/// The method a body names (`method`, a string).
pub open spec fn logged_method(body: Seq<u8>) -> Option<Seq<char>> {
    match json_parse_of(body) {
        Some(v) => str_member(v, "method"@),
        None => None,
    }
}

/// The tool a body names (`params.name`, a string).
pub open spec fn logged_tool(body: Seq<u8>) -> Option<Seq<char>> {
    match params_of(body) {
        Some(p) => str_member(p, "name"@),
        None => None,
    }
}

/// The JSON text of a body's arguments (`params.arguments`, of any kind).
pub open spec fn arguments_text(body: Seq<u8>) -> Option<Seq<char>> {
    match params_of(body) {
        Some(p) => json_get(p, "arguments"@),
        None => None,
    }
}

/// A text longer than `MAX_SUMMARY_BYTES` bytes cut to its longest prefix, in whole
/// characters, of at most `MAX_SUMMARY_BYTES` bytes and marked with `...`; a shorter text as
/// it is.
pub open spec fn summary_of(text: Seq<char>) -> Seq<char> {
    if utf8_len(text) > MAX_SUMMARY_BYTES {
        text.take(chars_within(text, MAX_SUMMARY_BYTES as int) as int) + "..."@
    } else {
        text
    }
}

/// The summary of a body's arguments.
pub open spec fn logged_summary(body: Seq<u8>) -> Option<Seq<char>> {
    match arguments_text(body) {
        Some(t) => Some(summary_of(t)),
        None => None,
    }
}

/// The text of the first member named `key`.
fn find_member<'a>(members: &'a Vec<JsonMember>, key: &String) -> (r: Option<&'a String>)
    ensures
        match r {
            Some(t) => member_text(member_views(members@), key@) == Some(t@),
            None => member_text(member_views(members@), key@) is None,
        },
{
    let ghost mv = member_views(members@);
    let n = members.len();
    let mut i: usize = 0;
    assert(mv.skip(0) =~= mv);
    while i < n
        invariant
            n == members@.len(),
            mv == member_views(members@),
            i <= n,
            member_text(mv, key@) == member_text(mv.skip(i as int), key@),
        decreases n - i,
    {
        let m = &members[i];
        assert(mv.skip(i as int)[0] == (m.key@, m.text@));
        if m.key.eq(key) {
            return Some(&m.text);
        }
        assert(mv.skip(i as int).drop_first() =~= mv.skip(i + 1));
        i = i + 1;
    }
    assert(mv.skip(n as int).len() == 0);
    None
}

/// The text of member `key` of an object value.
pub fn get_member<'a>(v: &'a JsonValue, key: &str) -> (r: Option<&'a String>)
    ensures
        match r {
            Some(t) => json_get(v@, key@) == Some(t@),
            None => json_get(v@, key@) is None,
        },
{
    match &v.shape {
        JsonShape::Object(members) => find_member(members, &key.to_owned()),
        _ => None,
    }
}

/// The JSON text `text` parsed.
pub fn parse_text(text: &str) -> (r: Option<JsonValue>)
    ensures
        json_view(r) == parsed(text@),
{
    parse_json(text.as_bytes())
}

/// The contents of the JSON text `text` when it is a string.
pub fn string_value(text: &str) -> (r: Option<String>)
    ensures
        r.deep_view() == string_in(text@),
{
    match parse_text(text) {
        Some(v) => match v.shape {
            JsonShape::Str(s) => Some(s),
            _ => None,
        },
        None => None,
    }
}

/// `text`, cut to whole characters within `MAX_SUMMARY_BYTES` bytes and marked with `...`
/// when it is longer.
pub fn summarize(text: &str) -> (r: String)
    ensures
        r@ == summary_of(text@),
{
    if byte_len(text) > MAX_SUMMARY_BYTES {
        let mut r = prefix_within(text, MAX_SUMMARY_BYTES);
        r.append("...");
        r
    } else {
        text.to_owned()
    }
}

/// The fields the log reads of a body, before the arguments are summarized: the method, the
/// tool's name and the arguments' JSON text.
fn read_body(body: &[u8]) -> (r: (Option<String>, Option<String>, Option<String>))
    ensures
        r.0.deep_view() == logged_method(body@),
        r.1.deep_view() == logged_tool(body@),
        r.2.deep_view() == arguments_text(body@),
{
    let v = match parse_json(body) {
        Some(v) => v,
        None => return (None, None, None),
    };
    let method = match get_member(&v, "method") {
        Some(t) => string_value(t.as_str()),
        None => None,
    };
    let params = match get_member(&v, "params") {
        Some(t) => parse_text(t.as_str()),
        None => None,
    };
    let (tool_name, arguments) = match &params {
        Some(p) => {
            let tool = match get_member(p, "name") {
                Some(t) => string_value(t.as_str()),
                None => None,
            };
            let args = match get_member(p, "arguments") {
                Some(t) => Some(t.clone()),
                None => None,
            };
            (tool, args)
        },
        None => (None, None),
    };
    (method, tool_name, arguments)
}

/// What the log records of a request body: the method, the tool's name, and the tool's
/// arguments as JSON text, cut to whole characters within `MAX_SUMMARY_BYTES` bytes. A body
/// that is no JSON, or no object, records none of them.
pub fn parse_jsonrpc_for_logging(body: &[u8]) -> (c: LoggedCall)
    ensures
        c.method.deep_view() == logged_method(body@),
        c.tool_name.deep_view() == logged_tool(body@),
        c.params_summary.deep_view() == logged_summary(body@),
{
    let (method, tool_name, arguments) = read_body(body);
    let params_summary = match arguments {
        Some(a) => Some(summarize(a.as_str())),
        None => None,
    };
    LoggedCall { method, tool_name, params_summary }
}

} // verus!
