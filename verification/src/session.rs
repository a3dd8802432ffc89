//! The course of a search: what to fetch first, what to do with each answer, and when
//! the search is over. Fetching itself is left to the caller.

use vstd::prelude::*;

use crate::brave::{brave_report, brave_request};
use crate::duckduckgo::{search_request, web_report};
use crate::error::{ErrorView, SearchError};
use crate::json::{Json, JsonView};
use crate::news::{news_report, news_request, vqd_in, vqd_request};
use crate::patterns::{are_links_of, result_links};
use crate::request::{HttpRequest, RequestView};
use crate::text::{ascii_lowercase, same_text, trimmed};
use crate::tool::{ToolView, WebSearchTool};

verus! {

/// What an agent asks for.
pub struct SearchArgs {
    pub query: String,
    pub search_type: String,
}

/// The view of [`SearchArgs`].
pub struct ArgsView {
    pub query: Seq<char>,
    pub search_type: Seq<char>,
}

impl View for SearchArgs {
    type V = ArgsView;

    open spec fn view(&self) -> ArgsView {
        ArgsView { query: self.query@, search_type: self.search_type@ }
    }
}

/// What the tool answers an agent.
pub struct ToolResult {
    pub success: bool,
    pub output: String,
    pub error: Option<String>,
}

/// The view of a [`ToolResult`].
pub struct ResultView {
    pub success: bool,
    pub output: Seq<char>,
    pub error: Option<Seq<char>>,
}

impl View for ToolResult {
    type V = ResultView;

    open spec fn view(&self) -> ResultView {
        ResultView {
            success: self.success,
            output: self.output@,
            error: self.error.deep_view(),
        }
    }
}

/// The pages of DuckDuckGo's that a search reads: the one with the results, and the one
/// with the token for news.
#[derive(Clone, Copy, PartialEq, Eq, Structural, Debug)]
pub enum Page {
    Results,
    Token,
}

/// The JSON documents that a search reads: DuckDuckGo's news, and Brave's results.
#[derive(Clone, Copy, PartialEq, Eq, Structural, Debug)]
pub enum Feed {
    News,
    Brave,
}

/// What to do next in the search for `query`: fetch something, or answer.
pub enum Step {
    FetchPage { page: Page, query: String, request: HttpRequest },
    FetchFeed { feed: Feed, query: String, request: HttpRequest },
    Done { result: ToolResult },
}

/// The view of a [`Step`].
pub enum StepView {
    FetchPage { page: Page, query: Seq<char>, request: RequestView },
    FetchFeed { feed: Feed, query: Seq<char>, request: RequestView },
    Done { result: ResultView },
}

impl View for Step {
    type V = StepView;

    open spec fn view(&self) -> StepView {
        match self {
            Step::FetchPage { page, query, request } => StepView::FetchPage {
                page: *page,
                query: query@,
                request: request@,
            },
            Step::FetchFeed { feed, query, request } => StepView::FetchFeed {
                feed: *feed,
                query: query@,
                request: request@,
            },
            Step::Done { result } => StepView::Done { result: result@ },
        }
    }
}

/// The arguments of a search. There has to be a query, with more in it than white
/// space; the type of search is `text` unless another is given.
pub open spec fn read_args(args: JsonView) -> Result<ArgsView, ErrorView> {
    match args.text("query"@) {
        Some(query) => if trimmed(query).len() == 0 {
            Err(ErrorView::EmptyQuery)
        } else {
            Ok(ArgsView { query, search_type: args.text_or("search_type"@, "text"@) })
        },
        None => Err(ErrorView::MissingQuery),
    }
}

/// The first step of a search, by provider and type. The type counts for DuckDuckGo
/// alone.
pub open spec fn first_step(tool: ToolView, args: ArgsView) -> Result<StepView, ErrorView> {
    let query = args.query;
    if tool.provider == "duckduckgo"@ || tool.provider == "ddg"@ {
        if ascii_lowercase(args.search_type) == "news"@ {
            Ok(
                StepView::FetchPage {
                    page: Page::Token,
                    query,
                    request: vqd_request(tool, query),
                },
            )
        } else {
            Ok(
                StepView::FetchPage {
                    page: Page::Results,
                    query,
                    request: search_request(tool, query),
                },
            )
        }
    } else if tool.provider == "brave"@ {
        match brave_request(tool, query) {
            Ok(request) => Ok(StepView::FetchFeed { feed: Feed::Brave, query, request }),
            Err(e) => Err(e),
        }
    } else {
        Err(ErrorView::UnknownProvider(tool.provider))
    }
}

/// The first step of the search that an agent's arguments ask for.
pub open spec fn execute_step(tool: ToolView, args: JsonView) -> Result<StepView, ErrorView> {
    match read_args(args) {
        Ok(args) => first_step(tool, args),
        Err(e) => Err(e),
    }
}

/// The answer that a search ends with.
pub open spec fn answer(output: Seq<char>) -> StepView {
    StepView::Done { result: ResultView { success: true, output, error: None } }
}

/// The step that follows when `text` came as the page.
pub open spec fn page_step(
    tool: ToolView,
    page: Page,
    query: Seq<char>,
    text: Seq<char>,
) -> Result<StepView, ErrorView> {
    match page {
        Page::Results => Ok(answer(web_report(tool, text, query, result_links(text)))),
        Page::Token => match vqd_in(text) {
            Ok(vqd) => Ok(
                StepView::FetchFeed {
                    feed: Feed::News,
                    query,
                    request: news_request(tool, query, vqd),
                },
            ),
            Err(e) => Err(e),
        },
    }
}

/// The report on a JSON document.
pub open spec fn feed_report(
    tool: ToolView,
    feed: Feed,
    query: Seq<char>,
    json: JsonView,
) -> Result<Seq<char>, ErrorView> {
    match feed {
        Feed::News => news_report(tool, json, query),
        Feed::Brave => brave_report(tool, json, query),
    }
}

/// The step that follows when `json` came as the document.
pub open spec fn feed_step(
    tool: ToolView,
    feed: Feed,
    query: Seq<char>,
    json: JsonView,
) -> Result<StepView, ErrorView> {
    match feed_report(tool, feed, query, json) {
        Ok(output) => Ok(answer(output)),
        Err(e) => Err(e),
    }
}

/// The status codes with which a server grants a request.
pub open spec fn is_success(code: u16) -> bool {
    200 <= code < 300
}

/// The error when the page is refused with that status.
pub open spec fn page_refusal(page: Page, status: Seq<char>) -> ErrorView {
    match page {
        Page::Results => ErrorView::WebStatus(status),
        Page::Token => ErrorView::VqdStatus(status),
    }
}

/// The error when the document is refused with that status.
pub open spec fn feed_refusal(feed: Feed, status: Seq<char>) -> ErrorView {
    match feed {
        Feed::News => ErrorView::NewsStatus(status),
        Feed::Brave => ErrorView::BraveStatus(status),
    }
}

impl Page {
    /// Whether the page is to be read, by the status with which the server answered.
    pub fn check_status(self, code: u16, status: &str) -> (res: Result<(), SearchError>)
        ensures
            match res {
                Ok(_) => is_success(code),
                Err(e) => !is_success(code) && e@ == page_refusal(self, status@),
            },
    {
        if 200 <= code && code < 300 {
            return Ok(());
        }
        match self {
            Page::Results => Err(SearchError::WebStatus(status.to_string())),
            Page::Token => Err(SearchError::VqdStatus(status.to_string())),
        }
    }
}

impl Feed {
    /// Whether the document is to be read, by the status with which the server answered.
    pub fn check_status(self, code: u16, status: &str) -> (res: Result<(), SearchError>)
        ensures
            match res {
                Ok(_) => is_success(code),
                Err(e) => !is_success(code) && e@ == feed_refusal(self, status@),
            },
    {
        if 200 <= code && code < 300 {
            return Ok(());
        }
        match self {
            Feed::News => Err(SearchError::NewsStatus(status.to_string())),
            Feed::Brave => Err(SearchError::BraveStatus(status.to_string())),
        }
    }
}

fn done(output: String) -> (res: Step)
    ensures
        res@ == answer(output@),
{
    Step::Done { result: ToolResult { success: true, output, error: None } }
}

impl SearchArgs {
    /// Reads the arguments that an agent gave.
    pub fn from_json(args: &Json) -> (res: Result<SearchArgs, SearchError>)
        ensures
            read_args(args@) == (match res {
                Ok(read) => Ok(read@),
                Err(e) => Err(e@),
            }),
    {
        let query = match args.text("query") {
            Some(query) => query,
            None => return Err(SearchError::MissingQuery),
        };
        let search_type = args.text_or("search_type", "text");
        if query.trim().is_empty() {
            return Err(SearchError::EmptyQuery);
        }
        Ok(SearchArgs { query: query.to_string(), search_type: search_type.to_string() })
    }
}

impl WebSearchTool {
    /// Begins a search.
    pub fn begin(&self, args: &SearchArgs) -> (res: Result<Step, SearchError>)
        ensures
            first_step(self@, args@) == (match res {
                Ok(step) => Ok(step@),
                Err(e) => Err(e@),
            }),
    {
        let provider = self.provider();
        let query = args.query.as_str();
        if same_text(provider, "duckduckgo") || same_text(provider, "ddg") {
            proof {
                reveal_strlit("news");
                assert(ascii_lowercase("news"@) =~= "news"@);
            }
            if args.search_type.as_str().eq_ignore_ascii_case("news") {
                Ok(
                    Step::FetchPage {
                        page: Page::Token,
                        query: query.to_string(),
                        request: self.fetch_vqd(query),
                    },
                )
            } else {
                Ok(
                    Step::FetchPage {
                        page: Page::Results,
                        query: query.to_string(),
                        request: self.search_duckduckgo(query),
                    },
                )
            }
        } else if same_text(provider, "brave") {
            match self.search_brave(query) {
                Ok(request) => Ok(
                    Step::FetchFeed { feed: Feed::Brave, query: query.to_string(), request },
                ),
                Err(e) => Err(e),
            }
        } else {
            Err(SearchError::UnknownProvider(provider.to_string()))
        }
    }

    /// Begins the search that an agent's arguments ask for.
    pub fn execute(&self, args: &Json) -> (res: Result<Step, SearchError>)
        ensures
            execute_step(self@, args@) == (match res {
                Ok(step) => Ok(step@),
                Err(e) => Err(e@),
            }),
    {
        match SearchArgs::from_json(args) {
            Ok(args) => self.begin(&args),
            Err(e) => Err(e),
        }
    }

    /// Goes on with a search when the page came.
    pub fn resume_page(&self, page: Page, query: &str, text: &str) -> (res: Result<
        Step,
        SearchError,
    >)
        ensures
            page_step(self@, page, query@, text@) == (match res {
                Ok(step) => Ok(step@),
                Err(e) => Err(e@),
            }),
            page == Page::Results ==> are_links_of(text@, result_links(text@)),
    {
        match page {
            Page::Results => match self.parse_duckduckgo_results(text, query) {
                Ok(output) => Ok(done(output)),
                Err(e) => Err(e),
            },
            Page::Token => match self.parse_vqd(text) {
                Ok(vqd) => Ok(
                    Step::FetchFeed {
                        feed: Feed::News,
                        query: query.to_string(),
                        request: self.search_duckduckgo_news(query, vqd.as_str()),
                    },
                ),
                Err(e) => Err(e),
            },
        }
    }

    /// Goes on with a search when the document came.
    pub fn resume_feed(&self, feed: Feed, query: &str, json: &Json) -> (res: Result<
        Step,
        SearchError,
    >)
        ensures
            feed_step(self@, feed, query@, json@) == (match res {
                Ok(step) => Ok(step@),
                Err(e) => Err(e@),
            }),
    {
        let output = match feed {
            Feed::News => self.parse_duckduckgo_news_results(json, query),
            Feed::Brave => self.parse_brave_results(json, query),
        };
        match output {
            Ok(output) => Ok(done(output)),
            Err(e) => Err(e),
        }
    }
}

} // verus!
