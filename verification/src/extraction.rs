//! Text and search results extracted from HTML.

use vstd::prelude::*;
use crate::bindings::{css_blocks_of, html2text_of, html2text_render, select_blocks};
use crate::strings::{trim, trimmed};

verus! {

broadcast use vstd::string::group_string_axioms;

/// One search result.
pub struct SearchResult {
    pub title: String,
    pub url: String,
    pub snippet: String,
}

/// What a search result holds.
pub struct SearchResultView {
    pub title: Seq<char>,
    pub url: Seq<char>,
    pub snippet: Seq<char>,
}

impl View for SearchResult {
    type V = SearchResultView;

    open spec fn view(&self) -> SearchResultView {
        SearchResultView { title: self.title@, url: self.url@, snippet: self.snippet@ }
    }
}

/// A title link of a result block, as found in the page.
pub struct ResultLink {
    pub text: String,
    pub href: Option<String>,
}

/// A result block as found in the page: every element in it that matches the title-link
/// selector and every one that matches the snippet selector, in document order.
pub struct ResultBlock {
    pub titles: Vec<ResultLink>,
    pub snippets: Vec<String>,
}

/// What a title link holds.
pub struct ResultLinkView {
    pub text: Seq<char>,
    pub href: Option<Seq<char>>,
}

/// What a result block holds.
pub struct ResultBlockView {
    pub titles: Seq<ResultLinkView>,
    pub snippets: Seq<Seq<char>>,
}

impl View for ResultLink {
    type V = ResultLinkView;

    open spec fn view(&self) -> ResultLinkView {
        ResultLinkView { text: self.text@, href: self.href.deep_view() }
    }
}

impl View for ResultBlock {
    type V = ResultBlockView;

    open spec fn view(&self) -> ResultBlockView {
        ResultBlockView {
            titles: self.titles@.map_values(|l: ResultLink| l@),
            snippets: self.snippets.deep_view(),
        }
    }
}

/// The selector of a result block on a DuckDuckGo results page.
pub const RESULT_SELECTOR: &'static str = ".result";

/// The selector of a result's title link, within its block.
pub const TITLE_SELECTOR: &'static str = ".result__a";

/// The selector of a result's snippet, within its block.
pub const SNIPPET_SELECTOR: &'static str = ".result__snippet";

/// The views of the blocks, when the page could be read.
pub open spec fn blocks_view(r: Option<Vec<ResultBlock>>) -> Option<Seq<ResultBlockView>> {
    match r {
        Some(v) => Some(block_views(v@)),
        None => None,
    }
}

/// The views of a sequence of blocks.
pub open spec fn block_views(s: Seq<ResultBlock>) -> Seq<ResultBlockView> {
    s.map_values(|b: ResultBlock| b@)
}

/// The search result a block yields, read from its first title link and first snippet: none
/// without a title link or with a blank title; else the trimmed title, the link target (empty
/// when absent) and the trimmed snippet (empty when absent).
pub open spec fn result_of_block(b: ResultBlockView) -> Option<SearchResultView> {
    if b.titles.len() == 0 {
        None
    } else {
        let l = b.titles[0];
        if trim(l.text).len() == 0 {
            None
        } else {
            Some(
                SearchResultView {
                    title: trim(l.text),
                    url: match l.href {
                        Some(h) => h,
                        None => Seq::empty(),
                    },
                    snippet: if b.snippets.len() == 0 {
                        Seq::empty()
                    } else {
                        trim(b.snippets[0])
                    },
                },
            )
        }
    }
}

/// The search results of a sequence of blocks, in order.
pub open spec fn results_of_blocks(blocks: Seq<ResultBlockView>) -> Seq<SearchResultView> {
    blocks.filter_map(|b: ResultBlockView| result_of_block(b))
}

/// The views of a sequence of results.
pub open spec fn result_views(s: Seq<SearchResult>) -> Seq<SearchResultView> {
    s.map_values(|r: SearchResult| r@)
}

/// The search result of one block.
pub fn result_from_block(b: &ResultBlock) -> (r: Option<SearchResult>)
    ensures
        match r {
            Some(x) => result_of_block(b@) == Some(x@),
            None => result_of_block(b@) is None,
        },
{
    if b.titles.len() == 0 {
        return None;
    }
    let link = &b.titles[0];
    assert(b@.titles[0] == link@);
    let title = trimmed(link.text.as_str());
    if title.as_str().is_empty() {
        return None;
    }
    let url = match &link.href {
        Some(h) => h.clone(),
        None => String::new(),
    };
    let snippet = if b.snippets.len() == 0 {
        String::new()
    } else {
        assert(b@.snippets[0] == b.snippets@[0]@);
        trimmed(b.snippets[0].as_str())
    };
    Some(SearchResult { title, url, snippet })
}

/// The search results of the blocks of a results page, in order.
pub fn results_from_blocks(blocks: &Vec<ResultBlock>) -> (r: Vec<SearchResult>)
    ensures
        result_views(r@) == results_of_blocks(block_views(blocks@)),
{
    let ghost bv = block_views(blocks@);
    let ghost f = |b: ResultBlockView| result_of_block(b);
    let n = blocks.len();
    let mut r: Vec<SearchResult> = Vec::new();
    let mut i: usize = 0;
    while i < n
        invariant
            n == blocks@.len(),
            bv == block_views(blocks@),
            f == (|b: ResultBlockView| result_of_block(b)),
            i <= n,
            result_views(r@) == bv.take(i as int).filter_map(f),
        decreases n - i,
    {
        proof {
            bv.lemma_filter_map_take_succ(f, i as int);
        }
        assert(bv[i as int] == blocks@[i as int]@);
        match result_from_block(&blocks[i]) {
            Some(x) => {
                let ghost prev = result_views(r@);
                r.push(x);
                assert(result_views(r@) =~= prev + seq![x@]);
            },
            None => {},
        }
        i = i + 1;
    }
    assert(bv.take(n as int) =~= bv);
    r
}

/// The search results of a DuckDuckGo HTML results page: the results of its result blocks,
/// in order; none if the blocks could not be selected.
pub open spec fn page_results(html: Seq<char>) -> Seq<SearchResultView> {
    match css_blocks_of(html, RESULT_SELECTOR@, TITLE_SELECTOR@, SNIPPET_SELECTOR@) {
        Some(blocks) => results_of_blocks(blocks),
        None => Seq::empty(),
    }
}

/// The search results of a DuckDuckGo HTML results page.
pub fn parse_duckduckgo_results(html: &str) -> (r: Vec<SearchResult>)
    ensures
        result_views(r@) == page_results(html@),
{
    match select_blocks(html, RESULT_SELECTOR, TITLE_SELECTOR, SNIPPET_SELECTOR) {
        Some(blocks) => results_from_blocks(&blocks),
        None => {
            let r: Vec<SearchResult> = Vec::new();
            assert(result_views(r@) =~= Seq::<SearchResultView>::empty());
            r
        },
    }
}

/// The text of a page rendered from HTML at `width` columns, or the HTML itself when the
/// renderer fails.
pub open spec fn html_text(html: Seq<char>, width: usize) -> Seq<char> {
    match html2text_of(html, width) {
        Some(t) => t,
        None => html,
    }
}

/// Renders HTML as plain text wrapped at `width` columns; falls back to the HTML itself.
pub fn html_to_text(html: &str, width: usize) -> (t: String)
    ensures
        t@ == html_text(html@, width),
{
    match html2text_render(html, width) {
        Ok(t) => t,
        Err(_) => html.to_owned(),
    }
}

} // verus!
