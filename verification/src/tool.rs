//! The search tool: its settings, and how it presents itself to an agent.

use vstd::prelude::*;
use vstd::utf8::*;

use crate::json::{Json, JsonView, Member, MemberView};
use crate::text::{ascii_lowercase, lowercase, trimmed};

verus! {

/// Web search tool for searching the internet.
/// Supports multiple providers: DuckDuckGo (free), Brave (requires API key).
pub struct WebSearchTool {
    provider: String,
    brave_api_key: Option<String>,
    max_results: usize,
    timeout_secs: u64,
}

/// The settings of a [`WebSearchTool`].
pub struct ToolView {
    pub provider: Seq<char>,
    pub brave_api_key: Option<Seq<char>>,
    pub max_results: nat,
    pub timeout_secs: nat,
}

impl ToolView {
    /// Whether the limits lie where every tool has them.
    pub open spec fn well_formed(self) -> bool {
        &&& 1 <= self.max_results <= 10
        &&& 1 <= self.timeout_secs <= u64::MAX
    }
}

impl View for WebSearchTool {
    type V = ToolView;

    closed spec fn view(&self) -> ToolView {
        ToolView {
            provider: self.provider@,
            brave_api_key: self.brave_api_key.deep_view(),
            max_results: self.max_results as nat,
            timeout_secs: self.timeout_secs as nat,
        }
    }
}

/// `n`, moved into the range from `low` to `high`.
pub open spec fn clamped(n: int, low: int, high: int) -> int {
    if n < low {
        low
    } else if n > high {
        high
    } else {
        n
    }
}

/// Whether a tool has the settings that come of those given. The provider's name is
/// lowered by Unicode, and on ASCII names that is to lower the letters `A` to `Z`.
pub open spec fn is_made_from(
    tool: ToolView,
    provider: Seq<char>,
    brave_api_key: Option<Seq<char>>,
    max_results: int,
    timeout_secs: int,
) -> bool {
    let name = trimmed(provider);
    &&& tool.provider == lowercase(name)
    &&& is_ascii_chars(name) ==> tool.provider == ascii_lowercase(name)
    &&& tool.brave_api_key == brave_api_key
    &&& tool.max_results == clamped(max_results, 1, 10)
    &&& tool.timeout_secs == (if timeout_secs < 1 {
        1
    } else {
        timeout_secs
    })
}

impl WebSearchTool {
    #[verifier::type_invariant]
    spec fn limits_hold(self) -> bool {
        &&& 1 <= self.max_results <= 10
        &&& 1 <= self.timeout_secs
    }

    /// A tool with these settings. The provider's name is taken without white space
    /// around it and in lower case; the number of results is kept between 1 and 10,
    /// the timeout at 1 second or more.
    pub fn new(
        provider: String,
        brave_api_key: Option<String>,
        max_results: usize,
        timeout_secs: u64,
    ) -> (res: Self)
        ensures
            res@.well_formed(),
            is_made_from(
                res@,
                provider@,
                brave_api_key.deep_view(),
                max_results as int,
                timeout_secs as int,
            ),
    {
        WebSearchTool {
            provider: provider.as_str().trim().to_lowercase(),
            brave_api_key,
            max_results: if max_results < 1 {
                1
            } else if max_results > 10 {
                10
            } else {
                max_results
            },
            timeout_secs: if timeout_secs < 1 {
                1
            } else {
                timeout_secs
            },
        }
    }

    pub(crate) fn provider(&self) -> (res: &str)
        ensures
            res@ == self@.provider,
    {
        self.provider.as_str()
    }

    pub(crate) fn brave_api_key(&self) -> (res: Option<&String>)
        ensures
            self@.brave_api_key == (match res {
                Some(key) => Some(key@),
                None => None,
            }),
    {
        self.brave_api_key.as_ref()
    }

    pub(crate) fn max_results(&self) -> (res: usize)
        ensures
            res == self@.max_results,
            self@.well_formed(),
    {
        proof {
            use_type_invariant(self);
        }
        self.max_results
    }

    pub(crate) fn timeout_secs(&self) -> (res: u64)
        ensures
            res == self@.timeout_secs,
            self@.well_formed(),
    {
        proof {
            use_type_invariant(self);
        }
        self.timeout_secs
    }

    /// The name by which an agent calls the tool.
    pub fn name(&self) -> (res: &str)
        ensures
            res@ == "web_search_tool"@,
    {
        "web_search_tool"
    }

    /// What an agent is told of the tool.
    pub fn description(&self) -> (res: &str)
        ensures
            res@
                == "Search the web for information. Returns relevant search results with titles, URLs, and descriptions. Use this to find current information, news, or research topics."@,
    {
        "Search the web for information. Returns relevant search results with titles, URLs, and descriptions. Use this to find current information, news, or research topics."
    }

    /// The schema of the arguments that the tool takes.
    pub fn parameters_schema(&self) -> (res: Json)
        ensures
            res@ == parameters_schema_view(),
    {
        let properties = object(
            vec![
                member("query", query_schema()),
                member("search_type", search_type_schema()),
            ],
        );
        assert(properties@->Object_0 =~= seq![
            member_view("query"@, query_schema_view()),
            member_view("search_type"@, search_type_schema_view()),
        ]);
        let required = array(vec![text("query")]);
        assert(required@->Array_0 =~= seq![JsonView::Str("query"@)]);
        let res = object(
            vec![
                member("type", text("object")),
                member("properties", properties),
                member("required", required),
            ],
        );
        assert(res@->Object_0 =~= parameters_schema_view()->Object_0);
        res
    }
}

/// A member of an object, seen as a value.
pub open spec fn member_view(name: Seq<char>, value: JsonView) -> MemberView {
    MemberView { name, value }
}

/// The schema of the argument `query`.
pub open spec fn query_schema_view() -> JsonView {
    JsonView::Object(
        seq![
            member_view("type"@, JsonView::Str("string"@)),
            member_view(
                "description"@,
                JsonView::Str("The search query. Be specific for better results."@),
            ),
        ],
    )
}

/// The schema of the argument `search_type`.
pub open spec fn search_type_schema_view() -> JsonView {
    JsonView::Object(
        seq![
            member_view("type"@, JsonView::Str("string"@)),
            member_view(
                "enum"@,
                JsonView::Array(seq![JsonView::Str("text"@), JsonView::Str("news"@)]),
            ),
            member_view(
                "description"@,
                JsonView::Str(
                    "The type of search to perform. Defaults to 'text'. Use 'news' for finding current news articles."@,
                ),
            ),
            member_view("default"@, JsonView::Str("text"@)),
        ],
    )
}

/// The schema of the arguments: a required text `query`, and an optional `search_type`
/// that is `text` or `news`.
pub open spec fn parameters_schema_view() -> JsonView {
    JsonView::Object(
        seq![
            member_view("type"@, JsonView::Str("object"@)),
            member_view(
                "properties"@,
                JsonView::Object(
                    seq![
                        member_view("query"@, query_schema_view()),
                        member_view("search_type"@, search_type_schema_view()),
                    ],
                ),
            ),
            member_view("required"@, JsonView::Array(seq![JsonView::Str("query"@)])),
        ],
    )
}

fn query_schema() -> (res: Json)
    ensures
        res@ == query_schema_view(),
{
    let res = object(
        vec![
            member("type", text("string")),
            member("description", text("The search query. Be specific for better results.")),
        ],
    );
    assert(res@->Object_0 =~= query_schema_view()->Object_0);
    res
}

fn search_type_schema() -> (res: Json)
    ensures
        res@ == search_type_schema_view(),
{
    let kinds = array(vec![text("text"), text("news")]);
    assert(kinds@->Array_0 =~= seq![JsonView::Str("text"@), JsonView::Str("news"@)]);
    let res = object(
        vec![
            member("type", text("string")),
            member("enum", kinds),
            member(
                "description",
                text(
                    "The type of search to perform. Defaults to 'text'. Use 'news' for finding current news articles.",
                ),
            ),
            member("default", text("text")),
        ],
    );
    assert(res@->Object_0 =~= search_type_schema_view()->Object_0);
    res
}

fn text(s: &str) -> (res: Json)
    ensures
        res@ == JsonView::Str(s@),
{
    Json::Str(s.to_string())
}

fn array(items: Vec<Json>) -> (res: Json)
    ensures
        res@ == JsonView::Array(items@.map_values(|item: Json| item@)),
{
    let res = Json::Array(items);
    assert(res@->Array_0 == items@.map_values(|item: Json| item@));
    res
}

fn member(name: &str, value: Json) -> (res: Member)
    ensures
        res.name@ == name@,
        res.value@ == value@,
{
    Member { name: name.to_string(), value }
}

fn object(members: Vec<Member>) -> (res: Json)
    ensures
        res@ == JsonView::Object(members@.map_values(|m: Member| member_view(m.name@, m.value@))),
{
    let res = Json::Object(members);
    assert(res@->Object_0 == members@.map_values(|m: Member| member_view(m.name@, m.value@)));
    res
}

} // verus!
