//! Why a search fails.

use vstd::prelude::*;

use crate::text::{concat2, concat3};

verus! {

/// Why a search fails. A status is the line with which a server refused a request,
/// such as `404 Not Found`.
#[derive(Debug)]
pub enum SearchError {
    MissingQuery,
    EmptyQuery,
    UnknownProvider(String),
    MissingApiKey,
    WebStatus(String),
    VqdStatus(String),
    NewsStatus(String),
    BraveStatus(String),
    VqdNotFound,
    InvalidNewsResponse,
    InvalidBraveResponse,
}

/// The view of a [`SearchError`].
pub enum ErrorView {
    MissingQuery,
    EmptyQuery,
    UnknownProvider(Seq<char>),
    MissingApiKey,
    WebStatus(Seq<char>),
    VqdStatus(Seq<char>),
    NewsStatus(Seq<char>),
    BraveStatus(Seq<char>),
    VqdNotFound,
    InvalidNewsResponse,
    InvalidBraveResponse,
}

impl View for SearchError {
    type V = ErrorView;

    open spec fn view(&self) -> ErrorView {
        match self {
            SearchError::MissingQuery => ErrorView::MissingQuery,
            SearchError::EmptyQuery => ErrorView::EmptyQuery,
            SearchError::UnknownProvider(name) => ErrorView::UnknownProvider(name@),
            SearchError::MissingApiKey => ErrorView::MissingApiKey,
            SearchError::WebStatus(status) => ErrorView::WebStatus(status@),
            SearchError::VqdStatus(status) => ErrorView::VqdStatus(status@),
            SearchError::NewsStatus(status) => ErrorView::NewsStatus(status@),
            SearchError::BraveStatus(status) => ErrorView::BraveStatus(status@),
            SearchError::VqdNotFound => ErrorView::VqdNotFound,
            SearchError::InvalidNewsResponse => ErrorView::InvalidNewsResponse,
            SearchError::InvalidBraveResponse => ErrorView::InvalidBraveResponse,
        }
    }
}

impl ErrorView {
    /// The message that is shown for the error.
    pub open spec fn message(self) -> Seq<char> {
        match self {
            ErrorView::MissingQuery => "Missing required parameter: query"@,
            ErrorView::EmptyQuery => "Search query cannot be empty"@,
            ErrorView::UnknownProvider(name) => "Unknown search provider: '"@ + name
                + "'. Set tools.web_search.provider to 'duckduckgo' or 'brave' in config.toml"@,
            ErrorView::MissingApiKey => "Brave API key not configured"@,
            ErrorView::WebStatus(status) => "DuckDuckGo search failed with status: "@ + status,
            ErrorView::VqdStatus(status) => "Failed to fetch VQD token: "@ + status,
            ErrorView::NewsStatus(status) => "DuckDuckGo news search failed with status: "@
                + status,
            ErrorView::BraveStatus(status) => "Brave search failed with status: "@ + status,
            ErrorView::VqdNotFound => "No vqd found in DDG search page"@,
            ErrorView::InvalidNewsResponse => "Invalid DuckDuckGo news response"@,
            ErrorView::InvalidBraveResponse => "Invalid Brave API response"@,
        }
    }
}

impl SearchError {
    /// The message that is shown for the error.
    pub fn message(&self) -> (res: String)
        ensures
            res@ == self@.message(),
    {
        match self {
            SearchError::MissingQuery => "Missing required parameter: query".to_string(),
            SearchError::EmptyQuery => "Search query cannot be empty".to_string(),
            SearchError::UnknownProvider(name) => concat3(
                "Unknown search provider: '",
                name.as_str(),
                "'. Set tools.web_search.provider to 'duckduckgo' or 'brave' in config.toml",
            ),
            SearchError::MissingApiKey => "Brave API key not configured".to_string(),
            SearchError::WebStatus(status) => concat2(
                "DuckDuckGo search failed with status: ",
                status.as_str(),
            ),
            SearchError::VqdStatus(status) => concat2(
                "Failed to fetch VQD token: ",
                status.as_str(),
            ),
            SearchError::NewsStatus(status) => concat2(
                "DuckDuckGo news search failed with status: ",
                status.as_str(),
            ),
            SearchError::BraveStatus(status) => concat2(
                "Brave search failed with status: ",
                status.as_str(),
            ),
            SearchError::VqdNotFound => "No vqd found in DDG search page".to_string(),
            SearchError::InvalidNewsResponse => "Invalid DuckDuckGo news response".to_string(),
            SearchError::InvalidBraveResponse => "Invalid Brave API response".to_string(),
        }
    }
}

} // verus!
