//! The requests that a search sends.

use vstd::prelude::*;

verus! {

/// The browser that the tool gives itself out for to DuckDuckGo.
pub const USER_AGENT: &'static str = "Mozilla/5.0 (Windows NT 10.0; Win64; x64) AppleWebKit/537.36 (KHTML, like Gecko) Chrome/120.0.0.0 Safari/537.36";

/// A header of a request.
pub struct Header {
    pub name: String,
    pub value: String,
}

/// The view of a [`Header`].
pub struct HeaderView {
    pub name: Seq<char>,
    pub value: Seq<char>,
}

impl DeepView for Header {
    type V = HeaderView;

    open spec fn deep_view(&self) -> HeaderView {
        HeaderView { name: self.name@, value: self.value@ }
    }
}

/// A GET request.
pub struct HttpRequest {
    pub url: String,
    pub user_agent: Option<String>,
    pub headers: Vec<Header>,
    pub timeout_secs: u64,
}

/// The view of an [`HttpRequest`].
pub struct RequestView {
    pub url: Seq<char>,
    pub user_agent: Option<Seq<char>>,
    pub headers: Seq<HeaderView>,
    pub timeout_secs: nat,
}

impl View for HttpRequest {
    type V = RequestView;

    open spec fn view(&self) -> RequestView {
        RequestView {
            url: self.url@,
            user_agent: self.user_agent.deep_view(),
            headers: self.headers.deep_view(),
            timeout_secs: self.timeout_secs as nat,
        }
    }
}

/// The header that says which page a request comes from.
pub open spec fn referer_view() -> HeaderView {
    HeaderView { name: "Referer"@, value: "https://duckduckgo.com/"@ }
}

pub(crate) fn header(name: &str, value: &str) -> (res: Header)
    ensures
        res.deep_view() == (HeaderView { name: name@, value: value@ }),
{
    Header { name: name.to_string(), value: value.to_string() }
}

/// A request to DuckDuckGo, with or without the referer.
pub open spec fn duckduckgo_request(url: Seq<char>, referer: bool, timeout_secs: nat) -> RequestView {
    RequestView {
        url,
        user_agent: Some(USER_AGENT@),
        headers: if referer {
            seq![referer_view()]
        } else {
            Seq::empty()
        },
        timeout_secs,
    }
}

pub(crate) fn request_duckduckgo(url: String, referer: bool, timeout_secs: u64) -> (res:
    HttpRequest)
    ensures
        res@ == duckduckgo_request(url@, referer, timeout_secs as nat),
{
    let mut headers: Vec<Header> = Vec::new();
    if referer {
        headers.push(header("Referer", "https://duckduckgo.com/"));
    }
    let ghost expected = duckduckgo_request(url@, referer, timeout_secs as nat).headers;
    assert(headers.deep_view() =~= expected);
    HttpRequest { url, user_agent: Some(USER_AGENT.to_string()), headers, timeout_secs }
}

} // verus!
