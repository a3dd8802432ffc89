//! Web search with Brave: the request, and the report on the answer it gives.

use vstd::prelude::*;

use crate::encoding::{url_encode, url_encoded};
use crate::error::{ErrorView, SearchError};
use crate::json::{Json, JsonView};
use crate::report::{render_report, report, smaller, Entry, EntryView};
use crate::request::{header, Header, HeaderView, HttpRequest, RequestView};
use crate::text::{concat2, concat3, decimal, to_decimal};
use crate::tool::{ToolView, WebSearchTool};

verus! {

/// The address at which Brave answers `query` with up to `count` results.
pub open spec fn brave_url(query: Seq<char>, count: nat) -> Seq<char> {
    "https://api.search.brave.com/res/v1/web/search?q="@ + url_encoded(query) + "&count="@
        + decimal(count)
}

/// The request to Brave for `query`. It needs a key.
pub open spec fn brave_request(tool: ToolView, query: Seq<char>) -> Result<RequestView, ErrorView> {
    match tool.brave_api_key {
        Some(key) => Ok(
            RequestView {
                url: brave_url(query, tool.max_results),
                user_agent: None,
                headers: seq![
                    HeaderView { name: "Accept"@, value: "application/json"@ },
                    HeaderView { name: "X-Subscription-Token"@, value: key },
                ],
                timeout_secs: tool.timeout_secs,
            },
        ),
        None => Err(ErrorView::MissingApiKey),
    }
}

/// The results in an answer of Brave's.
pub open spec fn brave_results(json: JsonView) -> Option<Seq<JsonView>> {
    match json.get("web"@) {
        Some(web) => match web.get("results"@) {
            Some(results) => results.as_array(),
            None => None,
        },
        None => None,
    }
}

/// What the report says of one result.
pub open spec fn brave_entry(result: JsonView) -> EntryView {
    EntryView {
        title: result.text_or("title"@, "No title"@),
        source: None,
        url: result.text_or("url"@, ""@),
        note: result.text_or("description"@, ""@),
    }
}

/// What the report lists: the first results, up to the tool's limit.
pub open spec fn brave_entries(tool: ToolView, results: Seq<JsonView>) -> Seq<EntryView> {
    Seq::new(smaller(results.len(), tool.max_results), |i: int| brave_entry(results[i]))
}

/// The report on an answer of Brave's.
pub open spec fn brave_report(tool: ToolView, json: JsonView, query: Seq<char>) -> Result<
    Seq<char>,
    ErrorView,
> {
    match brave_results(json) {
        Some(results) => Ok(
            if results.len() == 0 {
                "No results found for: "@ + query
            } else {
                report(
                    "Search results for: "@ + query + " (via Brave)"@,
                    brave_entries(tool, results),
                )
            },
        ),
        None => Err(ErrorView::InvalidBraveResponse),
    }
}

fn find_brave_results(json: &Json) -> (res: Option<&Vec<Json>>)
    ensures
        brave_results(json@) == (match res {
            Some(results) => Some(results@.map_values(|item: Json| item@)),
            None => None,
        }),
{
    match json.get("web") {
        Some(web) => match web.get("results") {
            Some(results) => results.as_array(),
            None => None,
        },
        None => None,
    }
}

fn entry_of_result(result: &Json) -> (res: Entry)
    ensures
        res.deep_view() == brave_entry(result@),
{
    Entry {
        title: result.text_or("title", "No title").to_string(),
        source: None,
        url: result.text_or("url", "").to_string(),
        note: result.text_or("description", "").to_string(),
    }
}

impl WebSearchTool {
    /// The request to Brave for `query`, unless the tool has no key.
    pub fn search_brave(&self, query: &str) -> (res: Result<HttpRequest, SearchError>)
        ensures
            brave_request(self@, query@) == (match res {
                Ok(request) => Ok(request@),
                Err(e) => Err(e@),
            }),
    {
        let api_key = match self.brave_api_key() {
            Some(key) => key,
            None => return Err(SearchError::MissingApiKey),
        };
        let encoded_query = url_encode(query);
        let count = to_decimal(self.max_results());
        let url = concat3(
            "https://api.search.brave.com/res/v1/web/search?q=",
            encoded_query.as_str(),
            "&count=",
        );
        let url = concat2(url.as_str(), count.as_str());
        let headers: Vec<Header> = vec![
            header("Accept", "application/json"),
            header("X-Subscription-Token", api_key.as_str()),
        ];
        assert(headers.deep_view() =~= brave_request(self@, query@)->Ok_0.headers);
        Ok(HttpRequest { url, user_agent: None, headers, timeout_secs: self.timeout_secs() })
    }

    /// Writes the report on the answer that came for `query`.
    pub fn parse_brave_results(&self, json: &Json, query: &str) -> (res: Result<
        String,
        SearchError,
    >)
        ensures
            brave_report(self@, json@, query@) == (match res {
                Ok(output) => Ok(output@),
                Err(e) => Err(e@),
            }),
    {
        let results = match find_brave_results(json) {
            Some(results) => results,
            None => return Err(SearchError::InvalidBraveResponse),
        };
        let ghost all = results@.map_values(|item: Json| item@);
        if results.is_empty() {
            return Ok(concat2("No results found for: ", query));
        }
        let max_results: usize = self.max_results();
        let mut entries: Vec<Entry> = Vec::new();
        let mut i: usize = 0;
        while i < results.len() && i < max_results
            invariant
                all == results@.map_values(|item: Json| item@),
                max_results == self@.max_results,
                i <= results@.len(),
                i <= max_results,
                entries.deep_view() == Seq::new(i as nat, |k: int| brave_entry(all[k])),
            decreases results@.len() - i,
        {
            let ghost done = entries.deep_view();
            entries.push(entry_of_result(&results[i]));
            assert(entries.deep_view() =~= done.push(brave_entry(all[i as int])));
            i = i + 1;
        }
        assert(entries.deep_view() =~= brave_entries(self@, all));
        let heading = concat3("Search results for: ", query, " (via Brave)");
        Ok(render_report(heading.as_str(), &entries))
    }
}

} // verus!
