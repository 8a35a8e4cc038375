//! Properties of the tools' answers that hold for every input.

use vstd::prelude::*;
use crate::extraction::SearchResultView;
use crate::jsonrpc::{summary_of, MAX_SUMMARY_BYTES};
use crate::strings::{
    byte_prefix, chars_within, cuts_at_char, lemma_chars_within, lemma_chars_within_boundary,
    starts_with, utf8_len,
};
use crate::browser::{action_plan, ActionType, PageAction, StepView, SCROLL_SCRIPT};
use crate::tools::{first_results, result_limit, truncated_text, MAX_TEXT_LENGTH};

verus! {

/// A text of at most `MAX_TEXT_LENGTH` characters is answered as it is; a longer one is
/// answered by its first `MAX_TEXT_LENGTH` characters, followed by a note.
pub proof fn law_truncation_keeps_head(text: Seq<char>)
    ensures
        text.len() <= MAX_TEXT_LENGTH ==> truncated_text(text) == text,
        text.len() > MAX_TEXT_LENGTH ==> {
            &&& truncated_text(text).len() > MAX_TEXT_LENGTH
            &&& truncated_text(text).take(MAX_TEXT_LENGTH as int) == text.take(
                MAX_TEXT_LENGTH as int,
            )
        },
{
    if text.len() > MAX_TEXT_LENGTH {
        let t = truncated_text(text);
        assert(t.take(MAX_TEXT_LENGTH as int) =~= text.take(MAX_TEXT_LENGTH as int));
    }
}

/// A search answers at most the requested number of results, and they are the first ones
/// found, in order.
pub proof fn law_search_keeps_first_results(rs: Seq<SearchResultView>, limit: nat)
    ensures
        first_results(rs, limit).len() <= limit,
        first_results(rs, limit).len() <= rs.len(),
        first_results(rs, limit) == rs.subrange(0, first_results(rs, limit).len() as int),
{
    assert(rs.subrange(0, rs.len() as int) =~= rs);
}

/// The logged summary of a call's arguments is their text when it has at most
/// `MAX_SUMMARY_BYTES` bytes. Otherwise it is the longest prefix of whole characters that fits
/// in `MAX_SUMMARY_BYTES` bytes, followed by `...`: one more character would not fit, and where
/// a character starts at byte `MAX_SUMMARY_BYTES` the prefix is exactly those bytes.
pub proof fn law_summary_is_bounded(text: Seq<char>)
    ensures
        utf8_len(text) <= MAX_SUMMARY_BYTES ==> summary_of(text) == text,
        utf8_len(text) > MAX_SUMMARY_BYTES ==> {
            let head = text.take(chars_within(text, MAX_SUMMARY_BYTES as int) as int);
            &&& starts_with(text, head)
            &&& utf8_len(head) <= MAX_SUMMARY_BYTES
            &&& head.len() < text.len()
            &&& utf8_len(text.take(head.len() as int + 1)) > MAX_SUMMARY_BYTES
            &&& (cuts_at_char(text, MAX_SUMMARY_BYTES as int) ==> head == byte_prefix(
                text,
                MAX_SUMMARY_BYTES as int,
            ) && utf8_len(head) == MAX_SUMMARY_BYTES)
            &&& summary_of(text) == head + "..."@
        },
{
    if utf8_len(text) > MAX_SUMMARY_BYTES {
        let m = chars_within(text, MAX_SUMMARY_BYTES as int) as int;
        lemma_chars_within(text, MAX_SUMMARY_BYTES as int);
        let head = text.take(m);
        assert(text.subrange(0, head.len() as int) =~= head);
        if m == text.len() {
            assert(text.take(m) =~= text);
        }
        if cuts_at_char(text, MAX_SUMMARY_BYTES as int) {
            lemma_chars_within_boundary(text, MAX_SUMMARY_BYTES as int);
        }
    }
}

/// A search answers the first results found, in order: the first ten when the caller names
/// no maximum, else the first `m`; all of them when fewer were found.
pub proof fn law_search_result_count(rs: Seq<SearchResultView>, max_results: Option<usize>)
    ensures
        first_results(rs, result_limit(max_results)) == rs.take(
            match max_results {
                Some(m) => if (m as int) < rs.len() {
                    m as int
                } else {
                    rs.len() as int
                },
                None => if rs.len() < 10 {
                    rs.len() as int
                } else {
                    10
                },
            },
        ),
        max_results is None && rs.len() >= 10 ==> first_results(rs, result_limit(max_results)).len()
            == 10,
{
    assert(rs.take(rs.len() as int) =~= rs);
}

/// Typing into an element finds it by the action's selector, clicks it and types the action's
/// text (nothing when it names none), whether or not a key is to be pressed afterwards; two
/// typing actions that differ only in their key begin with the same three steps.
pub proof fn law_typing_types_the_text(a: PageAction, b: PageAction)
    requires
        a.action_type == ActionType::TypeText,
        a.selector is Some,
        b.action_type == ActionType::TypeText,
        b.selector.deep_view() == a.selector.deep_view(),
        b.text.deep_view() == a.text.deep_view(),
    ensures
        action_plan(a) matches Some(p) && p.len() >= 3 && p[0] == StepView::FindElement(
            a.selector->0@,
        ) && p[1] == StepView::ClickElement && p[2] == StepView::TypeIntoElement(
            match a.text.deep_view() {
                Some(t) => t,
                None => Seq::empty(),
            },
        ),
        action_plan(a) matches Some(p) && action_plan(b) matches Some(q) && p.take(3) == q.take(
            3,
        ),
{
    let pa = action_plan(a).unwrap();
    let pb = action_plan(b).unwrap();
    assert(pa.take(3) =~= pb.take(3));
}

/// What each page action does: a click or typing without a selector cannot be performed; a
/// wait pauses for its delay (one second by default); a key press presses its key (`Enter` by
/// default); typing presses its key, if it names one, after the text; a scroll runs the scroll
/// script.
pub proof fn law_page_action_steps(a: PageAction)
    ensures
        (a.action_type == ActionType::Click || a.action_type == ActionType::TypeText) ==> (
        action_plan(a) is None <==> a.selector is None),
        a.action_type == ActionType::Click && a.selector is Some ==> action_plan(a) == Some(
            seq![
                StepView::FindElement(a.selector->0@),
                StepView::ClickElement,
                StepView::Sleep(300),
            ],
        ),
        a.action_type == ActionType::Wait ==> action_plan(a) == Some(
            seq![StepView::Sleep(if a.delay_ms is Some { a.delay_ms->0 } else { 1000 })],
        ),
        a.action_type == ActionType::PressKey ==> action_plan(a) == Some(
            seq![
                StepView::PressKey(if a.key is Some { a.key->0@ } else { "Enter"@ }),
                StepView::Sleep(300),
            ],
        ),
        a.action_type == ActionType::Scroll ==> action_plan(a) == Some(
            seq![StepView::RunScript(SCROLL_SCRIPT@), StepView::Sleep(300)],
        ),
        a.action_type == ActionType::TypeText && a.selector is Some ==> (action_plan(a) matches Some(
            p,
        ) && (if a.key is Some {
            p.len() == 5 && p[3] == StepView::PressKey(a.key->0@) && p[4] == StepView::Sleep(500)
        } else {
            p.len() == 3
        })),
{
}

} // verus!
