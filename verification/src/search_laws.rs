//! What a search asks for and what it does with the answers, said of the arguments, the
//! pages and the settings as they were given.

use vstd::prelude::*;
use vstd::utf8::*;

use crate::brave::brave_report;
use crate::duckduckgo::{redirect_target, web_report};
use crate::encoding::{url_decoded, url_encoded};
use crate::error::ErrorView;
use crate::json::{member, JsonView};
use crate::laws::{
    law_addresses_carry_the_query, law_page_determines_its_links, lemma_find_char,
    lemma_find_is_first, lemma_find_nothing, parameter_behind, query_of, request_of,
};
use crate::news::{news_report, vqd_in};
use crate::patterns::{
    are_links_of, first_vqd, is_vqd_char, result_links, vqd_at, vqd_run, LinkView,
};
use crate::report_laws::{
    holds, law_first_member_counts, law_text_is_read_as_it_stands, lemma_first_member, text_held,
};
use crate::request::{HeaderView, RequestView};
use crate::session::{
    execute_step, feed_refusal, feed_step, is_success, page_refusal, page_step, Feed, Page,
    ResultView, StepView,
};
use crate::text::{
    ascii_lowercase, before, decimal, find, is_white_space, lowercase, occurs_at, trimmed, trimmed_end,
    trimmed_start,
};
use crate::tool::{is_made_from, parameters_schema_view, search_type_schema_view, ToolView};

verus! {

// ---- The token of a news search ----

/// Whether an assignment of a token of `n` characters begins at `i`: `vqd=`, a quote, one
/// or more letters, digits or `-`, and a quote.
pub open spec fn assigns_token(page: Seq<char>, i: int, n: int) -> bool {
    &&& 0 <= i
    &&& 1 <= n
    &&& i + n + 6 <= page.len()
    &&& page.subrange(i, i + 4) == "vqd="@
    &&& page[i + 4] == '"' || page[i + 4] == '\''
    &&& page[i + 5 + n] == '"' || page[i + 5 + n] == '\''
    &&& forall|k: int|
        i + 5 <= k < i + 5 + n ==> {
            ||| 'a' <= #[trigger] page[k] <= 'z'
            ||| 'A' <= page[k] <= 'Z'
            ||| '0' <= page[k] <= '9'
            ||| page[k] == '-'
        }
}

proof fn lemma_run_is_prefix(s: Seq<char>)
    ensures
        vqd_run(s).len() <= s.len(),
        s.take(vqd_run(s).len() as int) == vqd_run(s),
        forall|k: int| 0 <= k < vqd_run(s).len() ==> is_vqd_char(#[trigger] s[k]),
    decreases s.len(),
{
    if s.len() > 0 && is_vqd_char(s[0]) {
        let rest = s.skip(1);
        lemma_run_is_prefix(rest);
        let n = vqd_run(rest).len() as int;
        assert(s.take(n + 1) =~= seq![s[0]] + rest.take(n));
        assert forall|k: int| 0 <= k < n + 1 implies is_vqd_char(#[trigger] s[k]) by {
            if k > 0 {
                assert(s[k] == rest[k - 1]);
            }
        }
    } else {
        assert(s.take(0) =~= vqd_run(s));
    }
}

proof fn lemma_run_ends(s: Seq<char>, n: int)
    requires
        0 <= n < s.len(),
        forall|k: int| 0 <= k < n ==> is_vqd_char(#[trigger] s[k]),
        !is_vqd_char(s[n]),
    ensures
        vqd_run(s) == s.take(n),
{
    lemma_run_is_prefix(s);
    let m = vqd_run(s).len() as int;
    if m < n {
        lemma_run_stops(s);
        assert(is_vqd_char(s[m]));
    }
    assert(m == n);
}

proof fn lemma_run_stops(s: Seq<char>)
    ensures
        vqd_run(s).len() < s.len() ==> !is_vqd_char(s[vqd_run(s).len() as int]),
    decreases s.len(),
{
    if s.len() > 0 && is_vqd_char(s[0]) {
        lemma_run_stops(s.skip(1));
        lemma_run_is_prefix(s.skip(1));
    }
}

proof fn lemma_token_here(page: Seq<char>, i: int, n: int)
    requires
        assigns_token(page, i, n),
    ensures
        vqd_at(page.skip(i)) == Some(page.subrange(i + 5, i + 5 + n)),
{
    reveal_strlit("vqd=");
    let s = page.skip(i);
    assert(s.subrange(0, 4) =~= page.subrange(i, i + 4));
    assert(occurs_at(s, "vqd="@, 0));
    let rest = s.skip(4);
    let run = rest.skip(1);
    assert forall|k: int| 0 <= k < n implies is_vqd_char(#[trigger] run[k]) by {
        assert(run[k] == page[i + 5 + k]);
    }
    assert(run[n] == page[i + 5 + n]);
    lemma_run_ends(run, n);
    assert(run.take(n) =~= page.subrange(i + 5, i + 5 + n));
    assert(rest[0] == page[i + 4]);
    assert(rest[n + 1] == page[i + 5 + n]);
}

proof fn lemma_token_is_assigned(page: Seq<char>, i: int)
    requires
        0 <= i <= page.len(),
        vqd_at(page.skip(i)) is Some,
    ensures
        assigns_token(page, i, vqd_at(page.skip(i))->0.len() as int),
{
    reveal_strlit("vqd=");
    let s = page.skip(i);
    assert(s.subrange(0, 4) =~= page.subrange(i, i + 4));
    let rest = s.skip(4);
    let run = rest.skip(1);
    lemma_run_is_prefix(run);
    let n = vqd_run(run).len() as int;
    assert(rest[0] == page[i + 4]);
    assert(rest[n + 1] == page[i + 5 + n]);
    assert forall|k: int| i + 5 <= k < i + 5 + n implies {
        ||| 'a' <= #[trigger] page[k] <= 'z'
        ||| 'A' <= page[k] <= 'Z'
        ||| '0' <= page[k] <= '9'
        ||| page[k] == '-'
    } by {
        assert(is_vqd_char(run[k - i - 5]));
    }
}

proof fn lemma_first_token(page: Seq<char>, i: int, j: int)
    requires
        0 <= j <= i <= page.len(),
        vqd_at(page.skip(i)) is Some || i == page.len(),
        forall|k: int| j <= k < i ==> #[trigger] vqd_at(page.skip(k)) is None,
    ensures
        first_vqd(page.skip(j)) == vqd_at(page.skip(i)),
    decreases i - j,
{
    if j < i {
        assert(vqd_at(page.skip(j)) is None);
        assert(page.skip(j).skip(1) =~= page.skip(j + 1));
        lemma_first_token(page, i, j + 1);
    }
}

/// The token that is read stands in the page whole: it is what stands between the two
/// quotes of the first assignment, of whatever length. The next request asks for the news
/// for the same query, with exactly that token.
pub proof fn law_token_is_read_whole(
    tool: ToolView,
    query: Seq<char>,
    page: Seq<char>,
    i: int,
    n: int,
)
    requires
        assigns_token(page, i, n),
        forall|j: int, m: int| 0 <= j < i ==> !#[trigger] assigns_token(page, j, m),
    ensures
        vqd_in(page) == Ok::<Seq<char>, ErrorView>(page.subrange(i + 5, i + 5 + n)),
        page_step(tool, Page::Token, query, page) == Ok::<StepView, ErrorView>(
            StepView::FetchFeed {
                feed: Feed::News,
                query,
                request: RequestView {
                    url: "https://duckduckgo.com/news.js?l=wt-wt&o=json&q="@ + url_encoded(query)
                        + "&vqd="@ + page.subrange(i + 5, i + 5 + n) + "&p=-1&s=0"@,
                    user_agent: Some(
                        "Mozilla/5.0 (Windows NT 10.0; Win64; x64) AppleWebKit/537.36 (KHTML, like Gecko) Chrome/120.0.0.0 Safari/537.36"@,
                    ),
                    headers: seq![
                        HeaderView { name: "Referer"@, value: "https://duckduckgo.com/"@ },
                    ],
                    timeout_secs: tool.timeout_secs,
                },
            },
        ),
{
    lemma_token_here(page, i, n);
    assert forall|k: int| 0 <= k < i implies #[trigger] vqd_at(page.skip(k)) is None by {
        if vqd_at(page.skip(k)) is Some {
            lemma_token_is_assigned(page, k);
        }
    }
    lemma_first_token(page, i, 0);
    assert(page.skip(0) =~= page);
}

/// A page in which no token is assigned ends the search with an error.
pub proof fn law_no_token_is_an_error(tool: ToolView, query: Seq<char>, page: Seq<char>)
    requires
        forall|j: int, m: int| !#[trigger] assigns_token(page, j, m),
    ensures
        page_step(tool, Page::Token, query, page) == Err::<StepView, ErrorView>(
            ErrorView::VqdNotFound,
        ),
{
    reveal_strlit("vqd=");
    let end = page.len() as int;
    assert forall|k: int| 0 <= k <= end implies #[trigger] vqd_at(page.skip(k)) is None by {
        if vqd_at(page.skip(k)) is Some {
            lemma_token_is_assigned(page, k);
        }
    }
    lemma_first_token(page, end, 0);
    assert(page.skip(0) =~= page);
}

// ---- The arguments of a search ----

/// A query with more in it than white space is asked for as it stands in the arguments:
/// the member `query` goes whole into the first request, to the provider that is set and
/// for the type of search that the member `search_type` names. A search without a key
/// asks Brave for nothing, and one for an unknown provider asks nobody.
pub proof fn law_first_request_asks_for_the_query(
    tool: ToolView,
    args: JsonView,
    query: Seq<char>,
    i: int,
)
    requires
        holds(args, "query"@, JsonView::Str(query)),
        0 <= i < query.len(),
        !is_white_space(query[i]),
    ensures
        ({
            let at_duckduckgo = tool.provider == "duckduckgo"@ || tool.provider == "ddg"@;
            let at_brave = !at_duckduckgo && tool.provider == "brave"@;
            let for_news = ascii_lowercase(text_held(args, "search_type"@, "text"@)) == "news"@;
            let step = execute_step(tool, args);
            &&& at_duckduckgo && for_news ==> step == Ok::<StepView, ErrorView>(
                StepView::FetchPage {
                    page: Page::Token,
                    query,
                    request: RequestView {
                        url: "https://duckduckgo.com/?q="@ + url_encoded(query),
                        user_agent: Some(
                            "Mozilla/5.0 (Windows NT 10.0; Win64; x64) AppleWebKit/537.36 (KHTML, like Gecko) Chrome/120.0.0.0 Safari/537.36"@,
                        ),
                        headers: seq![
                            HeaderView { name: "Referer"@, value: "https://duckduckgo.com/"@ },
                        ],
                        timeout_secs: tool.timeout_secs,
                    },
                },
            )
            &&& at_duckduckgo && !for_news ==> step == Ok::<StepView, ErrorView>(
                StepView::FetchPage {
                    page: Page::Results,
                    query,
                    request: RequestView {
                        url: "https://html.duckduckgo.com/html/?q="@ + url_encoded(query),
                        user_agent: Some(
                            "Mozilla/5.0 (Windows NT 10.0; Win64; x64) AppleWebKit/537.36 (KHTML, like Gecko) Chrome/120.0.0.0 Safari/537.36"@,
                        ),
                        headers: seq![],
                        timeout_secs: tool.timeout_secs,
                    },
                },
            )
            &&& at_brave ==> (match tool.brave_api_key {
                Some(key) => step == Ok::<StepView, ErrorView>(
                    StepView::FetchFeed {
                        feed: Feed::Brave,
                        query,
                        request: RequestView {
                            url: "https://api.search.brave.com/res/v1/web/search?q="@
                                + url_encoded(query) + "&count="@ + decimal(tool.max_results),
                            user_agent: None,
                            headers: seq![
                                HeaderView { name: "Accept"@, value: "application/json"@ },
                                HeaderView { name: "X-Subscription-Token"@, value: key },
                            ],
                            timeout_secs: tool.timeout_secs,
                        },
                    },
                ),
                None => step == Err::<StepView, ErrorView>(ErrorView::MissingApiKey),
            })
            &&& !at_duckduckgo && !at_brave ==> step == Err::<StepView, ErrorView>(
                ErrorView::UnknownProvider(tool.provider),
            )
        }),
{
    law_text_is_read_as_it_stands(args, "query"@, ""@);
    law_text_is_read_as_it_stands(args, "search_type"@, "text"@);
    lemma_blank(query);
}

/// Where the arguments are accepted, the first step is one for the member `query` of the
/// arguments, and the address that it asks decodes back to exactly that text.
pub proof fn law_accepted_query_is_kept(
    tool: ToolView,
    args: JsonView,
    query: Seq<char>,
    step: StepView,
)
    requires
        holds(args, "query"@, JsonView::Str(query)),
        execute_step(tool, args) == Ok::<StepView, ErrorView>(step),
    ensures
        query_of(step) == Some(query),
        request_of(step) matches Some(request) && {
            ||| parameter_behind(request.url, "https://html.duckduckgo.com/html/?q="@) == Some(
                query,
            )
            ||| parameter_behind(request.url, "https://duckduckgo.com/?q="@) == Some(query)
            ||| parameter_behind(
                request.url,
                "https://api.search.brave.com/res/v1/web/search?q="@,
            ) == Some(query)
        },
{
    law_text_is_read_as_it_stands(args, "query"@, ""@);
    law_addresses_carry_the_query(query, Seq::empty(), tool.max_results);
}

proof fn lemma_blank_start(s: Seq<char>)
    ensures
        trimmed_start(s).len() == 0 <==> forall|i: int|
            0 <= i < s.len() ==> is_white_space(#[trigger] s[i]),
        trimmed_start(s).len() > 0 ==> !is_white_space(trimmed_start(s)[0]),
    decreases s.len(),
{
    if s.len() > 0 && is_white_space(s[0]) {
        let rest = s.drop_first();
        lemma_blank_start(rest);
        if trimmed_start(s).len() == 0 {
            assert forall|i: int| 0 <= i < s.len() implies is_white_space(#[trigger] s[i]) by {
                if i > 0 {
                    assert(s[i] == rest[i - 1]);
                }
            }
        }
        if forall|i: int| 0 <= i < s.len() ==> is_white_space(#[trigger] s[i]) {
            assert forall|i: int| 0 <= i < rest.len() implies is_white_space(
                #[trigger] rest[i],
            ) by {
                assert(rest[i] == s[i + 1]);
            }
        }
    }
}

proof fn lemma_blank_end(s: Seq<char>)
    requires
        s.len() > 0,
        !is_white_space(s[0]),
    ensures
        trimmed_end(s).len() > 0,
    decreases s.len(),
{
    if is_white_space(s.last()) {
        lemma_blank_end(s.drop_last());
    }
}

proof fn lemma_blank(s: Seq<char>)
    ensures
        trimmed(s).len() == 0 <==> forall|i: int|
            0 <= i < s.len() ==> is_white_space(#[trigger] s[i]),
{
    lemma_blank_start(s);
    if trimmed_start(s).len() > 0 {
        lemma_blank_end(trimmed_start(s));
    }
}

proof fn lemma_start_cut(s: Seq<char>) -> (i: int)
    ensures
        0 <= i <= s.len(),
        trimmed_start(s) == s.skip(i),
        forall|k: int| 0 <= k < i ==> is_white_space(#[trigger] s[k]),
    decreases s.len(),
{
    if s.len() > 0 && is_white_space(s[0]) {
        let rest = s.drop_first();
        let i = lemma_start_cut(rest);
        assert(rest.skip(i) =~= s.skip(i + 1));
        assert forall|k: int| 0 <= k < i + 1 implies is_white_space(#[trigger] s[k]) by {
            if k > 0 {
                assert(s[k] == rest[k - 1]);
            }
        }
        i + 1
    } else {
        assert(s.skip(0) =~= s);
        0
    }
}

proof fn lemma_end_cut(s: Seq<char>) -> (j: int)
    ensures
        0 <= j <= s.len(),
        trimmed_end(s) == s.take(j),
        forall|k: int| j <= k < s.len() ==> is_white_space(#[trigger] s[k]),
        j > 0 ==> !is_white_space(s[j - 1]),
    decreases s.len(),
{
    if s.len() > 0 && is_white_space(s.last()) {
        let rest = s.drop_last();
        let j = lemma_end_cut(rest);
        assert(rest.take(j) =~= s.take(j));
        assert forall|k: int| j <= k < s.len() implies is_white_space(#[trigger] s[k]) by {
            if k < rest.len() {
                assert(s[k] == rest[k]);
            }
        }
        j
    } else {
        assert(s.take(s.len() as int) =~= s);
        s.len() as int
    }
}

/// Trimming cuts white space off the two ends of a text, all of it and nothing else. What
/// stands between is kept as it is.
pub proof fn law_trimming_cuts_white_space_alone(s: Seq<char>) -> (ends: (int, int))
    ensures
        0 <= ends.0 <= ends.1 <= s.len(),
        trimmed(s) == s.subrange(ends.0, ends.1),
        forall|k: int| 0 <= k < ends.0 ==> is_white_space(#[trigger] s[k]),
        forall|k: int| ends.1 <= k < s.len() ==> is_white_space(#[trigger] s[k]),
        ends.0 < ends.1 ==> !is_white_space(s[ends.0]) && !is_white_space(s[ends.1 - 1]),
{
    let i = lemma_start_cut(s);
    let inner = trimmed_start(s);
    let j = lemma_end_cut(inner);
    lemma_blank_start(s);
    assert(inner.take(j) =~= s.subrange(i, i + j));
    assert forall|k: int| i + j <= k < s.len() implies is_white_space(#[trigger] s[k]) by {
        assert(s[k] == inner[k - i]);
    }
    if j > 0 {
        assert(s[i + j - 1] == inner[j - 1]);
        assert(s[i] == inner[0]);
    }
    (i, i + j)
}

/// A query is empty exactly where all of it is white space.
pub proof fn law_blank_query_is_refused(tool: ToolView, args: JsonView, query: Seq<char>)
    requires
        holds(args, "query"@, JsonView::Str(query)),
    ensures
        execute_step(tool, args) == Err::<StepView, ErrorView>(ErrorView::EmptyQuery)
            <==> forall|i: int| 0 <= i < query.len() ==> is_white_space(#[trigger] query[i]),
        execute_step(tool, args) != Err::<StepView, ErrorView>(ErrorView::MissingQuery),
{
    law_text_is_read_as_it_stands(args, "query"@, ""@);
    lemma_blank(query);
}

/// Arguments that hold no text under `query` are refused.
pub proof fn law_query_has_to_be_a_text(tool: ToolView, args: JsonView)
    requires
        forall|query: Seq<char>| !#[trigger] holds(args, "query"@, JsonView::Str(query)),
    ensures
        execute_step(tool, args) == Err::<StepView, ErrorView>(ErrorView::MissingQuery),
{
    law_text_is_read_as_it_stands(args, "query"@, ""@);
    if let Some(query) = args.text("query"@) {
        assert(holds(args, "query"@, JsonView::Str(query)));
    }
}

// ---- The answers ----

/// The page with the results ends the search: what is answered is the report on the links
/// of that page, for the query that was asked.
pub proof fn law_results_page_is_reported(
    tool: ToolView,
    query: Seq<char>,
    html: Seq<char>,
    links: Seq<LinkView>,
)
    requires
        are_links_of(html, links),
        are_links_of(html, result_links(html)),
    ensures
        page_step(tool, Page::Results, query, html) == Ok::<StepView, ErrorView>(
            StepView::Done {
                result: ResultView {
                    success: true,
                    output: web_report(tool, html, query, links),
                    error: None,
                },
            },
        ),
{
    law_page_determines_its_links(tool, html, query, links, result_links(html));
}

/// A JSON document ends the search: what is answered is the report on that document, for
/// the query that was asked, or the error that stands in its place.
pub proof fn law_documents_are_reported(
    tool: ToolView,
    query: Seq<char>,
    json: JsonView,
    output: Seq<char>,
    e: ErrorView,
)
    ensures
        news_report(tool, json, query) == Ok::<Seq<char>, ErrorView>(output) <==> feed_step(
            tool,
            Feed::News,
            query,
            json,
        ) == Ok::<StepView, ErrorView>(
            StepView::Done { result: ResultView { success: true, output, error: None } },
        ),
        news_report(tool, json, query) == Err::<Seq<char>, ErrorView>(e) <==> feed_step(
            tool,
            Feed::News,
            query,
            json,
        ) == Err::<StepView, ErrorView>(e),
        brave_report(tool, json, query) == Ok::<Seq<char>, ErrorView>(output) <==> feed_step(
            tool,
            Feed::Brave,
            query,
            json,
        ) == Ok::<StepView, ErrorView>(
            StepView::Done { result: ResultView { success: true, output, error: None } },
        ),
        brave_report(tool, json, query) == Err::<Seq<char>, ErrorView>(e) <==> feed_step(
            tool,
            Feed::Brave,
            query,
            json,
        ) == Err::<StepView, ErrorView>(e),
{
}

/// A server grants a request with a status code of the two hundreds, and with no other.
/// A refusal is told by its source, with the status as the server gave it.
pub proof fn law_refusals_tell_the_status(code: u16, status: Seq<char>)
    ensures
        is_success(code) <==> code as int / 100 == 2,
        page_refusal(Page::Results, status).message() == "DuckDuckGo search failed with status: "@
            + status,
        page_refusal(Page::Token, status).message() == "Failed to fetch VQD token: "@ + status,
        feed_refusal(Feed::News, status).message()
            == "DuckDuckGo news search failed with status: "@ + status,
        feed_refusal(Feed::Brave, status).message() == "Brave search failed with status: "@
            + status,
{
}

/// An unknown provider is told by its name, whatever that is.
pub proof fn law_unknown_provider_is_named(name: Seq<char>)
    ensures
        ErrorView::UnknownProvider(name).message() == "Unknown search provider: '"@ + name
            + "'. Set tools.web_search.provider to 'duckduckgo' or 'brave' in config.toml"@,
{
}

// ---- Redirect links ----

/// A redirect link leads to what the parameter behind its first `uddg=` decodes to, up to
/// the next `&` or the end. Where that cannot be decoded, the link leads where it points.
pub proof fn law_redirect_leads_to_what_it_holds(
    head: Seq<char>,
    coded: Seq<char>,
    tail: Seq<char>,
)
    requires
        forall|j: int|
            0 <= j < head.len() ==> #[trigger] (head + "uddg="@).subrange(j, j + 5) != "uddg="@,
        forall|k: int| 0 <= k < coded.len() ==> #[trigger] coded[k] != '&',
        tail.len() == 0 || tail[0] == '&',
    ensures
        redirect_target(head + "uddg="@ + coded + tail) == (match url_decoded(coded) {
            Some(target) => target,
            None => head + "uddg="@ + coded + tail,
        }),
{
    reveal_strlit("uddg=");
    reveal_strlit("&");
    let needle = "uddg="@;
    let url = head + needle + coded + tail;
    let at = head.len() as int;
    assert(url.subrange(at, at + 5) =~= needle);
    assert forall|j: int| 0 <= j < at implies !(#[trigger] occurs_at(url, needle, j)) by {
        assert(url.subrange(j, j + 5) =~= (head + needle).subrange(j, j + 5));
    }
    lemma_find_is_first(url, needle, 0, at);
    let rest = coded + tail;
    assert(url.skip(at + 5) =~= rest);
    assert("&"@ =~= seq!['&']);
    lemma_find_char(rest, '&');
    if tail.len() > 0 {
        assert(rest[coded.len() as int] == '&');
        assert(rest.contains('&'));
        match find(rest, seq!['&']) {
            Some(k) => {
                assert(k < coded.len() ==> rest[k] == coded[k]);
                assert(k == coded.len());
            },
            None => {},
        }
        assert(rest.take(coded.len() as int) =~= coded);
    } else {
        assert(rest =~= coded);
        if let Some(k) = find(rest, seq!['&']) {
            assert(coded[k] == '&');
        }
    }
    assert(before(rest, "&"@) == coded);
}

/// A link in which `uddg=` stands nowhere leads where it points.
pub proof fn law_other_links_are_kept(raw_url: Seq<char>)
    requires
        forall|j: int|
            0 <= j <= raw_url.len() - 5 ==> #[trigger] raw_url.subrange(j, j + 5) != "uddg="@,
    ensures
        redirect_target(raw_url) == raw_url,
{
    reveal_strlit("uddg=");
    let needle = "uddg="@;
    assert forall|j: int| 0 <= j implies !(#[trigger] occurs_at(raw_url, needle, j)) by {
        if j <= raw_url.len() - 5 {
            assert(raw_url.subrange(j, j + 5) != needle);
        }
    }
    lemma_find_nothing(raw_url, needle, 0);
}

// ---- Settings ----

/// A tool keeps the settings that it is given, as far as the limits allow: the key as it
/// is, a number of results from one to ten, any timeout but zero. Beyond the limits it
/// takes the nearest number within. The provider is known by its trimmed name in lower
/// case.
pub proof fn law_settings_are_kept_within_limits(
    tool: ToolView,
    provider: Seq<char>,
    brave_api_key: Option<Seq<char>>,
    max_results: nat,
    timeout_secs: nat,
)
    requires
        is_made_from(
            tool,
            provider,
            brave_api_key,
            max_results as int,
            timeout_secs as int,
        ),
    ensures
        tool.provider == lowercase(trimmed(provider)),
        is_ascii_chars(trimmed(provider)) ==> tool.provider == ascii_lowercase(trimmed(provider)),
        tool.brave_api_key == brave_api_key,
        1 <= max_results <= 10 ==> tool.max_results == max_results,
        max_results == 0 ==> tool.max_results == 1,
        max_results > 10 ==> tool.max_results == 10,
        timeout_secs > 0 ==> tool.timeout_secs == timeout_secs,
        timeout_secs == 0 ==> tool.timeout_secs == 1,
{
}

/// What the schema says of the arguments is how they are read. The one that it requires
/// is the one whose absence is an error, and a search without a type is one of the type
/// that the schema gives as the default.
pub proof fn law_schema_tells_how_arguments_are_read(
    tool: ToolView,
    required: Seq<char>,
    properties: JsonView,
    search_type: JsonView,
    default: Seq<char>,
    args: JsonView,
    complete: JsonView,
    query: Seq<char>,
)
    requires
        holds(
            parameters_schema_view(),
            "required"@,
            JsonView::Array(seq![JsonView::Str(required)]),
        ),
        holds(parameters_schema_view(), "properties"@, properties),
        holds(properties, "search_type"@, search_type),
        holds(search_type, "default"@, JsonView::Str(default)),
        holds(args, required, JsonView::Str(query)),
        forall|kind: Seq<char>| !#[trigger] holds(args, "search_type"@, JsonView::Str(kind)),
        holds(complete, required, JsonView::Str(query)),
        holds(complete, "search_type"@, JsonView::Str(default)),
    ensures
        execute_step(tool, args) == execute_step(tool, complete),
        execute_step(tool, args) != Err::<StepView, ErrorView>(ErrorView::MissingQuery),
{
    reveal_strlit("type");
    reveal_strlit("properties");
    reveal_strlit("required");
    reveal_strlit("query");
    reveal_strlit("search_type");
    reveal_strlit("enum");
    reveal_strlit("description");
    reveal_strlit("default");
    reveal_with_fuel(member, 5);
    let schema = parameters_schema_view();
    let list = JsonView::Array(seq![JsonView::Str(required)]);
    law_first_member_counts(schema, "required"@, list);
    law_first_member_counts(schema, "properties"@, properties);
    law_first_member_counts(properties, "search_type"@, search_type);
    law_first_member_counts(search_type, "default"@, JsonView::Str(default));
    assert(list->Array_0[0] == JsonView::Str(required));
    assert(required == "query"@);
    assert(properties->Object_0.len() == 2);
    assert(search_type == search_type_schema_view());
    let members = search_type->Object_0;
    assert(members.len() == 4);
    assert(members[0].name == "type"@ && members[1].name == "enum"@ && members[2].name
        == "description"@ && members[3].name == "default"@);
    assert("default"@.len() == 7 && "type"@.len() == 4 && "enum"@.len() == 4
        && "description"@.len() == 11);
    lemma_first_member(members, "default"@, 3);
    assert(default == "text"@);
    law_text_is_read_as_it_stands(args, "query"@, ""@);
    law_text_is_read_as_it_stands(complete, "query"@, ""@);
    law_text_is_read_as_it_stands(args, "search_type"@, "text"@);
    law_text_is_read_as_it_stands(complete, "search_type"@, "text"@);
    if let Some(kind) = args.text("search_type"@) {
        assert(holds(args, "search_type"@, JsonView::Str(kind)));
    }
}

/// The schema is that of an object. It knows the arguments `query` and `search_type` and no
/// others, describes both as texts, and gives the types of search to choose from.
pub proof fn law_schema_describes_each_argument(name: Seq<char>, kind: Seq<char>)
    ensures
        parameters_schema_view().get("type"@) == Some(JsonView::Str("object"@)),
        parameters_schema_view().get("properties"@) matches Some(properties) && {
            &&& properties.get(name) is Some <==> name == "query"@ || name == "search_type"@
            &&& properties.get(name) matches Some(described) ==> described.get("type"@) == Some(
                JsonView::Str("string"@),
            )
            &&& properties.get("query"@) matches Some(described) && described.get("description"@)
                == Some(JsonView::Str("The search query. Be specific for better results."@))
            &&& properties.get("search_type"@) matches Some(described) && {
                &&& described.get("description"@) == Some(
                    JsonView::Str(
                        "The type of search to perform. Defaults to 'text'. Use 'news' for finding current news articles."@,
                    ),
                )
                &&& described.get("enum"@) matches Some(JsonView::Array(kinds)) && (kinds.contains(
                    JsonView::Str(kind),
                ) <==> kind == "text"@ || kind == "news"@)
            }
        },
{
    reveal_strlit("type");
    reveal_strlit("properties");
    reveal_strlit("required");
    reveal_strlit("query");
    reveal_strlit("search_type");
    reveal_strlit("enum");
    reveal_strlit("description");
    let schema = parameters_schema_view();
    let fields = schema->Object_0;
    assert(fields[0].name == "type"@ && fields[1].name == "properties"@);
    assert("type"@.len() != "properties"@.len());
    lemma_first_member(fields, "type"@, 0);
    lemma_first_member(fields, "properties"@, 1);
    let properties = fields[1].value;
    let arguments = properties->Object_0;
    assert(arguments[0].name == "query"@ && arguments[1].name == "search_type"@);
    assert("query"@.len() != "search_type"@.len());
    lemma_first_member(arguments, "query"@, 0);
    lemma_first_member(arguments, "search_type"@, 1);
    reveal_with_fuel(member, 3);
    let of_query = arguments[0].value->Object_0;
    assert(of_query[0].name == "type"@ && of_query[1].name == "description"@);
    assert("type"@.len() != "description"@.len());
    lemma_first_member(of_query, "type"@, 0);
    lemma_first_member(of_query, "description"@, 1);
    let of_type = arguments[1].value->Object_0;
    assert(of_type[0].name == "type"@ && of_type[1].name == "enum"@ && of_type[2].name
        == "description"@);
    assert("type"@[0] != "enum"@[0]);
    assert("enum"@.len() != "description"@.len());
    lemma_first_member(of_type, "type"@, 0);
    lemma_first_member(of_type, "enum"@, 1);
    lemma_first_member(of_type, "description"@, 2);
    let kinds = of_type[1].value->Array_0;
    assert(kinds[0] == JsonView::Str("text"@) && kinds[1] == JsonView::Str("news"@));
    assert(kinds.len() == 2);
}

} // verus!
