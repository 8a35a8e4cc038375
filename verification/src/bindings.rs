//! Calls into outside crates, each behind a contract that Verus takes on trust.
//!
//! Every item here names the outside function it calls and says what its contract claims.

use vstd::prelude::*;
use vstd::utf8::*;
use base64::Engine;
use sha2::Digest;
use html2text::Error as RenderError;
use crate::extraction::{blocks_view, ResultBlock, ResultBlockView, ResultLink};
use crate::jsonrpc::{json_view, JsonMember, JsonShape, JsonValue, JsonValueView};

verus! {

/// Name for the SHA-256 digest of a byte sequence (`sha2::Sha256::digest`).
pub uninterp spec fn sha256_of(data: Seq<u8>) -> Seq<u8>;

/// Name for the unpadded URL-safe Base64 text of a byte sequence
/// (`base64::engine::general_purpose::URL_SAFE_NO_PAD.encode`).
pub uninterp spec fn base64_url_nopad_of(data: Seq<u8>) -> Seq<char>;

/// Name for the padded standard Base64 text of a byte sequence
/// (`base64::engine::general_purpose::STANDARD.encode`).
pub uninterp spec fn base64_standard_of(data: Seq<u8>) -> Seq<char>;

/// A character of the hyphenated lower-case form of a UUID: a hexadecimal digit or `-`.
pub open spec fn uuid_char(c: char) -> bool {
    ||| '0' <= c <= '9'
    ||| 'a' <= c <= 'f'
    ||| c == '-'
}

/// Text in the hyphenated lower-case form of a UUID: 36 hexadecimal digits and hyphens.
pub open spec fn uuid_text(s: Seq<char>) -> bool {
    &&& s.len() == 36
    &&& forall|i: int| 0 <= i < s.len() ==> uuid_char(#[trigger] s[i])
}

/// Calls `uuid::Uuid::new_v4()` and formats it with `to_string`.
/// Claimed: the text is the hyphenated form of a UUID, 36 ASCII characters, each a
/// lower-case hexadecimal digit or `-` (the `Display` of `Uuid` writes lower-case hex).
/// The value itself is random and nothing else is claimed of it.
#[verifier::external_body]
pub(crate) fn new_uuid_string() -> (s: String)
    ensures
        uuid_text(s@),
        is_ascii_chars(s@),
{
    uuid::Uuid::new_v4().to_string()
}

/// Calls `sha2::Sha256::digest` on `data` and copies the digest into a vector.
/// Claimed: the result is the digest named by `sha256_of`, 32 bytes long (SHA-256 has a
/// 256-bit output).
#[verifier::external_body]
pub(crate) fn sha256_digest(data: &[u8]) -> (d: Vec<u8>)
    ensures
        d@ == sha256_of(data@),
        d@.len() == 32,
{
    sha2::Sha256::digest(data).to_vec()
}

/// Calls `base64::engine::general_purpose::URL_SAFE_NO_PAD.encode` on `data`.
/// Claimed: the result is the text named by `base64_url_nopad_of`.
/// The length bound keeps the crate's output-size computation from overflowing (it panics then).
#[verifier::external_body]
pub(crate) fn base64_url_nopad(data: &[u8]) -> (s: String)
    requires
        data@.len() <= usize::MAX / 2,
    ensures
        s@ == base64_url_nopad_of(data@),
{
    base64::engine::general_purpose::URL_SAFE_NO_PAD.encode(data)
}

/// Calls `base64::engine::general_purpose::STANDARD.encode` on `data`.
/// Claimed: the result is the text named by `base64_standard_of`.
/// The length bound keeps the crate's output-size computation from overflowing (it panics then).
#[verifier::external_body]
pub(crate) fn base64_standard(data: &[u8]) -> (s: String)
    requires
        data@.len() <= usize::MAX / 2,
    ensures
        s@ == base64_standard_of(data@),
{
    base64::engine::general_purpose::STANDARD.encode(data)
}

/// Name for the lowercase mapping of a string (`str::to_lowercase`, Unicode full case mapping).
pub uninterp spec fn lowercase_of(s: Seq<char>) -> Seq<char>;

/// Calls `str::to_lowercase`.
/// Claimed: the result is the text named by `lowercase_of`.
#[verifier::external_body]
pub(crate) fn to_lowercase(s: &str) -> (r: String)
    ensures
        r@ == lowercase_of(s@),
{
    s.to_lowercase()
}

/// Bytes that `urlencoding::encode` leaves as they are: ASCII letters and digits, `-`, `.`,
/// `_` and `~`.
pub open spec fn url_safe_byte(b: u8) -> bool {
    ||| 48 <= b <= 57
    ||| 65 <= b <= 90
    ||| 97 <= b <= 122
    ||| b == 45
    ||| b == 46
    ||| b == 95
    ||| b == 126
}

/// The upper-case hexadecimal digit for `d < 16`.
pub open spec fn hex_digit_upper(d: u8) -> char {
    if d < 10 {
        (48 + d) as char
    } else {
        (55 + d) as char
    }
}

/// Percent-encoding of a byte sequence: safe bytes stay, every other byte becomes `%XY` with
/// upper-case hexadecimal digits.
pub open spec fn percent_encoded(bytes: Seq<u8>) -> Seq<char>
    decreases bytes.len(),
{
    if bytes.len() == 0 {
        Seq::empty()
    } else {
        let b = bytes[0];
        (if url_safe_byte(b) {
            seq![b as char]
        } else {
            seq!['%', hex_digit_upper(b / 16), hex_digit_upper(b % 16)]
        }) + percent_encoded(bytes.drop_first())
    }
}

/// Calls `urlencoding::encode` and takes ownership of its result.
/// Claimed: every byte of the UTF-8 encoding of `data` is kept when it is an ASCII letter or
/// digit or one of `-._~`, and otherwise written as `%` and two upper-case hexadecimal digits,
/// as the crate's documentation and source show.
#[verifier::external_body]
pub(crate) fn url_encode(data: &str) -> (r: String)
    ensures
        r@ == percent_encoded(encode_utf8(data@)),
{
    urlencoding::encode(data).into_owned()
}

/// The error type of `html2text`.
#[verifier::external_type_specification]
#[verifier::external_body]
pub struct ExHtml2TextError(RenderError);

/// Name for what `html2text::from_read` renders from an HTML text at a width, or `None`
/// when it fails.
pub uninterp spec fn html2text_of(html: Seq<char>, width: usize) -> Option<Seq<char>>;

/// Calls `html2text::from_read` on the bytes of `html`.
/// Claimed: it succeeds exactly when `html2text_of` is `Some`, with that text.
#[verifier::external_body]
pub(crate) fn html2text_render(html: &str, width: usize) -> (r: Result<String, RenderError>)
    ensures
        r is Ok <==> html2text_of(html@, width) is Some,
        r matches Ok(s) ==> html2text_of(html@, width) == Some(s@),
{
    html2text::from_read(html.as_bytes(), width)
}

/// Name for what `scraper` selects in an HTML text: for each element matching
/// `block_selector` (in document order), every element within it matching `title_selector`,
/// with its text and `href`, and every element within it matching `snippet_selector`, with
/// its text; `None` when a selector does not parse.
pub uninterp spec fn css_blocks_of(
    html: Seq<char>,
    block_selector: Seq<char>,
    title_selector: Seq<char>,
    snippet_selector: Seq<char>,
) -> Option<Seq<ResultBlockView>>;

/// Calls `scraper::Html::parse_document` on `html` and `scraper::Selector::parse` on the three
/// selectors, selects the blocks and, in each, the title and snippet elements, and copies out
/// their text (all descendant text nodes, concatenated) and the links' `href`.
/// Claimed: the result is the one named by `css_blocks_of`.
#[verifier::external_body]
pub(crate) fn select_blocks(
    html: &str,
    block_selector: &str,
    title_selector: &str,
    snippet_selector: &str,
) -> (r: Option<Vec<ResultBlock>>)
    ensures
        blocks_view(r) == css_blocks_of(html@, block_selector@, title_selector@, snippet_selector@),
{
    let block = scraper::Selector::parse(block_selector).ok()?;
    let title = scraper::Selector::parse(title_selector).ok()?;
    let snippet = scraper::Selector::parse(snippet_selector).ok()?;
    let doc = scraper::Html::parse_document(html);
    Some(doc.select(&block).map(|b| ResultBlock {
        titles: b.select(&title).map(|e| ResultLink {
            text: e.text().collect(),
            href: e.value().attr("href").map(String::from),
        }).collect(),
        snippets: b.select(&snippet).map(|e| e.text().collect()).collect(),
    }).collect())
}

/// Name for what `serde_json::from_slice::<serde_json::Value>` parses from a byte sequence
/// (`None` when it is no JSON), one level deep: the value's compact JSON text (`to_string`),
/// and the contents of a string or each member's key and compact JSON text of an object, in
/// the order of `serde_json::Map`.
pub uninterp spec fn json_parse_of(bytes: Seq<u8>) -> Option<JsonValueView>;

/// Calls `serde_json::from_slice::<serde_json::Value>` on `bytes` and copies out the value's
/// compact text and, for a string or an object, its contents (members as key and compact
/// text).
/// Claimed: the result is the one named by `json_parse_of`.
#[verifier::external_body]
pub(crate) fn parse_json(bytes: &[u8]) -> (r: Option<JsonValue>)
    ensures
        json_view(r) == json_parse_of(bytes@),
{
    let v = serde_json::from_slice::<serde_json::Value>(bytes).ok()?;
    let text = v.to_string();
    let shape = match v {
        serde_json::Value::String(s) => JsonShape::Str(s),
        serde_json::Value::Object(m) => JsonShape::Object(
            m.into_iter().map(|(key, x)| JsonMember { key, text: x.to_string() }).collect(),
        ),
        serde_json::Value::Null | serde_json::Value::Bool(_) | serde_json::Value::Number(_)
        | serde_json::Value::Array(_) => JsonShape::Other,
    };
    Some(JsonValue { text, shape })
}

} // verus!
