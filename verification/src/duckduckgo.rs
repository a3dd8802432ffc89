//! Web search with DuckDuckGo: the request, and the report on the page it gives.

use vstd::prelude::*;
use vstd::string::*;
use vstd::utf8::*;

use crate::encoding::{url_decode, url_decoded, url_encode, url_encoded};
use crate::error::SearchError;
use crate::laws::law_page_determines_its_links;
use crate::patterns::{
    are_links_of, find_result_links, find_snippet, first_snippet, links_in_order, result_links, strip_tags,
    without_tags, LinkView, ResultLink,
};
use crate::report::{render_report, report, smaller, Entry, EntryView};
use crate::request::{duckduckgo_request, request_duckduckgo, HttpRequest, RequestView};
use crate::text::{
    before, byte_len, byte_range, concat2, concat3, cut, find, find_text, lemma_find_from_bounds,
    trimmed,
};
use crate::tool::{ToolView, WebSearchTool};

verus! {

/// The address of the page with the results for `query`.
pub open spec fn search_url(query: Seq<char>) -> Seq<char> {
    "https://html.duckduckgo.com/html/?q="@ + url_encoded(query)
}

/// The request for the page with the results for `query`.
pub open spec fn search_request(tool: ToolView, query: Seq<char>) -> RequestView {
    duckduckgo_request(search_url(query), false, tool.timeout_secs)
}

/// Where a link of DuckDuckGo's leads: to what the parameter `uddg` holds, if there is
/// one and it can be decoded, else to where it points itself.
pub open spec fn redirect_target(raw_url: Seq<char>) -> Seq<char> {
    match find(raw_url, "uddg="@) {
        Some(i) => match url_decoded(before(raw_url.skip(i + 5), "&"@)) {
            Some(target) => target,
            None => raw_url,
        },
        None => raw_url,
    }
}

/// Follows a redirect link of DuckDuckGo's to the address it stands for.
pub fn decode_ddg_redirect_url(raw_url: &str) -> (res: String)
    ensures
        res@ == redirect_target(raw_url@),
{
    proof {
        reveal_strlit("uddg=");
        reveal_strlit("&");
        lemma_find_from_bounds(raw_url@, "uddg="@, 0);
    }
    if let Some(index) = find_text(raw_url, "uddg=") {
        let len: usize = raw_url.unicode_len();
        let encoded = raw_url.substring_char(index + 5, len);
        proof {
            lemma_find_from_bounds(encoded@, "&"@, 0);
        }
        let encoded = match find_text(encoded, "&") {
            Some(end) => encoded.substring_char(0, end),
            None => encoded,
        };
        assert(encoded@ =~= before(raw_url@.skip(index + 5), "&"@));
        if let Ok(decoded) = url_decode(encoded) {
            return decoded;
        }
    }
    raw_url.to_string()
}

/// The stretch of the page in which the snippet of the link at `i` stands: from the end
/// of that link to the start of the next one, or to the end of the page.
pub open spec fn snippet_area(html: Seq<char>, links: Seq<LinkView>, i: int) -> Seq<char> {
    byte_range(html, links[i].end, area_end(html, links, i))
}

/// The byte at which that stretch ends.
pub open spec fn area_end(html: Seq<char>, links: Seq<LinkView>, i: int) -> int {
    if i + 1 < links.len() {
        links[i + 1].start
    } else {
        encode_utf8(html).len() as int
    }
}

/// What the report notes of the first snippet in a stretch of a page.
pub open spec fn snippet_note(area: Seq<char>) -> Seq<char> {
    match first_snippet(area) {
        Some(snippet) => trimmed(without_tags(snippet)),
        None => Seq::empty(),
    }
}

/// What the report says of the link at `i`.
pub open spec fn link_entry(html: Seq<char>, links: Seq<LinkView>, i: int) -> EntryView {
    EntryView {
        title: trimmed(without_tags(links[i].title)),
        source: None,
        url: trimmed(redirect_target(links[i].href)),
        note: snippet_note(snippet_area(html, links, i)),
    }
}

/// What the report lists of a page: its first links, up to the tool's limit.
pub open spec fn link_entries(tool: ToolView, html: Seq<char>, links: Seq<LinkView>) -> Seq<
    EntryView,
> {
    Seq::new(
        smaller(links.len(), tool.max_results),
        |i: int| link_entry(html, links, i),
    )
}

/// The report on a page with those links.
pub open spec fn web_report(
    tool: ToolView,
    html: Seq<char>,
    query: Seq<char>,
    links: Seq<LinkView>,
) -> Seq<char> {
    if links.len() == 0 {
        "No results found for: "@ + query
    } else {
        report(
            "Search results for: "@ + query + " (via DuckDuckGo)"@,
            link_entries(tool, html, links),
        )
    }
}

fn entry_of_link(html: &str, links: &Vec<ResultLink>, i: usize) -> (res: Entry)
    requires
        i < links@.len(),
        links_in_order(html@, links.deep_view()),
    ensures
        res.deep_view() == link_entry(html@, links.deep_view(), i as int),
{
    let ghost all = links.deep_view();
    let link = &links[i];
    assert(all[i as int] == link.deep_view());
    // The snippet stands before the next link, if there is one.
    let next_start = if i < links.len() - 1 {
        assert(all[i + 1] == links@[i + 1].deep_view());
        links[i + 1].start
    } else {
        byte_len(html)
    };
    let area = cut(html, link.end, next_start);
    let title = strip_tags(link.title.as_str());
    let url = decode_ddg_redirect_url(link.href.as_str());
    let note = match find_snippet(area) {
        Some(snippet) => strip_tags(snippet.as_str()).as_str().trim().to_string(),
        None => String::new(),
    };
    Entry {
        title: title.as_str().trim().to_string(),
        source: None,
        url: url.as_str().trim().to_string(),
        note,
    }
}

impl WebSearchTool {
    /// The request for the page with the results for `query`.
    pub fn search_duckduckgo(&self, query: &str) -> (res: HttpRequest)
        ensures
            res@ == search_request(self@, query@),
    {
        let encoded_query = url_encode(query);
        let url = concat2("https://html.duckduckgo.com/html/?q=", encoded_query.as_str());
        request_duckduckgo(url, false, self.timeout_secs())
    }

    /// Writes the report on a page in which those links were found.
    pub fn report_duckduckgo_links(
        &self,
        html: &str,
        query: &str,
        links: &Vec<ResultLink>,
    ) -> (res: String)
        requires
            links_in_order(html@, links.deep_view()),
        ensures
            res@ == web_report(self@, html@, query@, links.deep_view()),
    {
        if links.is_empty() {
            return concat2("No results found for: ", query);
        }
        let ghost all = links.deep_view();
        let max_results: usize = self.max_results();
        let count: usize = if links.len() < max_results {
            links.len()
        } else {
            max_results
        };
        let mut entries: Vec<Entry> = Vec::new();
        for i in 0..count
            invariant
                count <= links@.len(),
                all == links.deep_view(),
                links_in_order(html@, all),
                entries.deep_view() == Seq::new(i as nat, |k: int| link_entry(html@, all, k)),
        {
            let ghost done = entries.deep_view();
            let entry = entry_of_link(html, links, i);
            entries.push(entry);
            assert(entries.deep_view() =~= done.push(link_entry(html@, all, i as int)));
        }
        assert(entries.deep_view() =~= link_entries(self@, html@, all));
        let heading = concat3("Search results for: ", query, " (via DuckDuckGo)");
        render_report(heading.as_str(), &entries)
    }

    /// Writes the report on the page that came for `query`.
    pub fn parse_duckduckgo_results(&self, html: &str, query: &str) -> (res: Result<
        String,
        SearchError,
    >)
        ensures
            res is Ok,
            res->Ok_0@ == web_report(self@, html@, query@, result_links(html@)),
            are_links_of(html@, result_links(html@)),
            forall|links: Seq<LinkView>| #[trigger]
                are_links_of(html@, links) ==> res->Ok_0@ == web_report(
                    self@,
                    html@,
                    query@,
                    links,
                ),
    {
        let links = find_result_links(html);
        proof {
            let all = links.deep_view();
            assert forall|others: Seq<LinkView>| #[trigger]
                are_links_of(html@, others) implies all == others by {
                law_page_determines_its_links(self@, html@, query@, all, others);
            }
        }
        Ok(self.report_duckduckgo_links(html, query, &links))
    }
}

} // verus!
