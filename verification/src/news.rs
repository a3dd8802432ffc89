//! News search with DuckDuckGo: first a page that holds a token, then the news, which
//! are asked for with that token.

use vstd::prelude::*;

use crate::encoding::{url_encode, url_encoded};
use crate::error::{ErrorView, SearchError};
use crate::json::{Json, JsonView};
use crate::patterns::{find_vqd, first_vqd, strip_tags, without_tags};
use crate::report::{render_report, report, smaller, Entry, EntryView};
use crate::request::{duckduckgo_request, request_duckduckgo, HttpRequest, RequestView};
use crate::text::{concat2, concat3};
use crate::tool::{ToolView, WebSearchTool};

verus! {

/// The address of the page that holds the token for `query`.
pub open spec fn vqd_url(query: Seq<char>) -> Seq<char> {
    "https://duckduckgo.com/?q="@ + url_encoded(query)
}

/// The request for that page.
pub open spec fn vqd_request(tool: ToolView, query: Seq<char>) -> RequestView {
    duckduckgo_request(vqd_url(query), true, tool.timeout_secs)
}

/// The token that a page holds.
pub open spec fn vqd_in(page: Seq<char>) -> Result<Seq<char>, ErrorView> {
    match first_vqd(page) {
        Some(vqd) => Ok(vqd),
        None => Err(ErrorView::VqdNotFound),
    }
}

/// The address of the news for `query`.
pub open spec fn news_url(query: Seq<char>, vqd: Seq<char>) -> Seq<char> {
    "https://duckduckgo.com/news.js?l=wt-wt&o=json&q="@ + url_encoded(query) + "&vqd="@ + vqd
        + "&p=-1&s=0"@
}

/// The request for the news.
pub open spec fn news_request(tool: ToolView, query: Seq<char>, vqd: Seq<char>) -> RequestView {
    duckduckgo_request(news_url(query, vqd), true, tool.timeout_secs)
}

/// The news in an answer.
pub open spec fn news_results(json: JsonView) -> Option<Seq<JsonView>> {
    match json.get("results"@) {
        Some(results) => results.as_array(),
        None => None,
    }
}

/// What the report says of one piece of news.
pub open spec fn news_entry(result: JsonView) -> EntryView {
    EntryView {
        title: result.text_or("title"@, "No title"@),
        source: Some(
            "Source: "@ + result.text_or("source"@, "Unknown Source"@) + " ("@ + result.text_or(
                "relative_time"@,
                ""@,
            ) + ")"@,
        ),
        url: result.text_or("url"@, ""@),
        note: match result.text("excerpt"@) {
            Some(excerpt) => without_tags(excerpt),
            None => Seq::empty(),
        },
    }
}

/// What the report lists: the first news, up to the tool's limit.
pub open spec fn news_entries(tool: ToolView, results: Seq<JsonView>) -> Seq<EntryView> {
    Seq::new(smaller(results.len(), tool.max_results), |i: int| news_entry(results[i]))
}

/// The report on an answer to a news search.
pub open spec fn news_report(tool: ToolView, json: JsonView, query: Seq<char>) -> Result<
    Seq<char>,
    ErrorView,
> {
    match news_results(json) {
        Some(results) => Ok(
            if results.len() == 0 {
                "No news results found for: "@ + query
            } else {
                report(
                    "News results for: "@ + query + " (via DuckDuckGo)"@,
                    news_entries(tool, results),
                )
            },
        ),
        None => Err(ErrorView::InvalidNewsResponse),
    }
}

fn find_news_results(json: &Json) -> (res: Option<&Vec<Json>>)
    ensures
        news_results(json@) == (match res {
            Some(results) => Some(results@.map_values(|item: Json| item@)),
            None => None,
        }),
{
    match json.get("results") {
        Some(results) => results.as_array(),
        None => None,
    }
}

fn entry_of_news(result: &Json) -> (res: Entry)
    ensures
        res.deep_view() == news_entry(result@),
{
    let note = match result.text("excerpt") {
        Some(excerpt) => strip_tags(excerpt),
        None => String::new(),
    };
    let source = concat3("Source: ", result.text_or("source", "Unknown Source"), " (");
    let source = concat3(source.as_str(), result.text_or("relative_time", ""), ")");
    Entry {
        title: result.text_or("title", "No title").to_string(),
        source: Some(source),
        url: result.text_or("url", "").to_string(),
        note,
    }
}

impl WebSearchTool {
    /// The request for the page that holds the token for `query`.
    pub fn fetch_vqd(&self, query: &str) -> (res: HttpRequest)
        ensures
            res@ == vqd_request(self@, query@),
    {
        let encoded_query = url_encode(query);
        let url = concat2("https://duckduckgo.com/?q=", encoded_query.as_str());
        request_duckduckgo(url, true, self.timeout_secs())
    }

    /// Reads the token from the page that holds it.
    pub fn parse_vqd(&self, page: &str) -> (res: Result<String, SearchError>)
        ensures
            vqd_in(page@) == (match res {
                Ok(vqd) => Ok(vqd@),
                Err(e) => Err(e@),
            }),
    {
        match find_vqd(page) {
            Some(vqd) => Ok(vqd),
            None => Err(SearchError::VqdNotFound),
        }
    }

    /// The request for the news, with the token that was found for `query`.
    pub fn search_duckduckgo_news(&self, query: &str, vqd: &str) -> (res: HttpRequest)
        ensures
            res@ == news_request(self@, query@, vqd@),
    {
        let encoded_query = url_encode(query);
        let url = concat3(
            "https://duckduckgo.com/news.js?l=wt-wt&o=json&q=",
            encoded_query.as_str(),
            "&vqd=",
        );
        let url = concat3(url.as_str(), vqd, "&p=-1&s=0");
        request_duckduckgo(url, true, self.timeout_secs())
    }

    /// Writes the report on the news that came for `query`.
    pub fn parse_duckduckgo_news_results(&self, json: &Json, query: &str) -> (res: Result<
        String,
        SearchError,
    >)
        ensures
            news_report(self@, json@, query@) == (match res {
                Ok(output) => Ok(output@),
                Err(e) => Err(e@),
            }),
    {
        let results = match find_news_results(json) {
            Some(results) => results,
            None => return Err(SearchError::InvalidNewsResponse),
        };
        let ghost all = results@.map_values(|item: Json| item@);
        if results.is_empty() {
            return Ok(concat2("No news results found for: ", query));
        }
        let max_results: usize = self.max_results();
        let mut entries: Vec<Entry> = Vec::new();
        let mut i: usize = 0;
        while i < results.len() && i < max_results
            invariant
                all == results@.map_values(|item: Json| item@),
                max_results == self@.max_results,
                i <= results@.len(),
                i <= max_results,
                entries.deep_view() == Seq::new(i as nat, |k: int| news_entry(all[k])),
            decreases results@.len() - i,
        {
            let ghost done = entries.deep_view();
            entries.push(entry_of_news(&results[i]));
            assert(entries.deep_view() =~= done.push(news_entry(all[i as int])));
            i = i + 1;
        }
        assert(entries.deep_view() =~= news_entries(self@, all));
        let heading = concat3("News results for: ", query, " (via DuckDuckGo)");
        Ok(render_report(heading.as_str(), &entries))
    }
}

} // verus!
