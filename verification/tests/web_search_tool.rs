use web_search::error::SearchError;
use web_search::json::{Json, Member};
use web_search::patterns::strip_tags;
use web_search::session::{Feed, Page, Step};
use web_search::tool::WebSearchTool;

fn text(s: &str) -> Json {
    Json::Str(s.to_string())
}

fn object(members: Vec<(&str, Json)>) -> Json {
    Json::Object(
        members
            .into_iter()
            .map(|(name, value)| Member { name: name.to_string(), value })
            .collect(),
    )
}

fn duckduckgo() -> WebSearchTool {
    WebSearchTool::new("duckduckgo".to_string(), None, 5, 15)
}

#[test]
fn test_tool_name() {
    let tool = WebSearchTool::new("duckduckgo".to_string(), None, 5, 15);
    assert_eq!(tool.name(), "web_search_tool");
}

#[test]
fn test_tool_description() {
    let tool = WebSearchTool::new("duckduckgo".to_string(), None, 5, 15);
    assert!(tool.description().contains("Search the web"));
}

#[test]
fn test_parameters_schema() {
    let tool = WebSearchTool::new("duckduckgo".to_string(), None, 5, 15);
    let schema = tool.parameters_schema();
    assert_eq!(schema.get("type").unwrap().as_str(), Some("object"));
    let properties = schema.get("properties").unwrap();
    assert!(matches!(properties.get("query"), Some(Json::Object(_))));
    assert!(matches!(properties.get("search_type"), Some(Json::Object(_))));
}

#[test]
fn schema_spells_out_the_arguments() {
    let schema = duckduckgo().parameters_schema();
    let properties = schema.get("properties").unwrap();
    let search_type = properties.get("search_type").unwrap();
    assert_eq!(search_type.get("default").unwrap().as_str(), Some("text"));
    let kinds = search_type.get("enum").unwrap().as_array().unwrap();
    assert_eq!(kinds.len(), 2);
    assert_eq!(kinds[0].as_str(), Some("text"));
    assert_eq!(kinds[1].as_str(), Some("news"));
    let required = schema.get("required").unwrap().as_array().unwrap();
    assert_eq!(required.len(), 1);
    assert_eq!(required[0].as_str(), Some("query"));
}

#[test]
fn test_strip_tags() {
    let html = "<b>Hello</b> <i>World</i>";
    assert_eq!(strip_tags(html), "Hello World");
}

#[test]
fn test_parse_duckduckgo_results_empty() {
    let tool = WebSearchTool::new("duckduckgo".to_string(), None, 5, 15);
    let result = tool
        .parse_duckduckgo_results("<html>No results here</html>", "test")
        .unwrap();
    assert!(result.contains("No results found"));
}

#[test]
fn test_parse_duckduckgo_results_with_data() {
    let tool = WebSearchTool::new("duckduckgo".to_string(), None, 5, 15);
    let html = r#"
            <a class="result__a" href="https://example.com">Example Title</a>
            <a class="result__snippet">This is a description</a>
        "#;
    let result = tool.parse_duckduckgo_results(html, "test").unwrap();
    assert!(result.contains("Example Title"));
    assert!(result.contains("https://example.com"));
}

#[test]
fn test_parse_duckduckgo_results_decodes_redirect_url() {
    let tool = WebSearchTool::new("duckduckgo".to_string(), None, 5, 15);
    let html = r#"
            <a class="result__a" href="https://duckduckgo.com/l/?uddg=https%3A%2F%2Fexample.com%2Fpath%3Fa%3D1&amp;rut=test">Example Title</a>
            <a class="result__snippet">This is a description</a>
        "#;
    let result = tool.parse_duckduckgo_results(html, "test").unwrap();
    assert!(result.contains("https://example.com/path?a=1"));
    assert!(!result.contains("rut=test"));
}

#[test]
fn test_constructor_clamps_web_search_limits() {
    let tool = WebSearchTool::new("duckduckgo".to_string(), None, 0, 0);
    let html = r#"
            <a class="result__a" href="https://example.com">Example Title</a>
            <a class="result__snippet">This is a description</a>
        "#;
    let result = tool.parse_duckduckgo_results(html, "test").unwrap();
    assert!(result.contains("Example Title"));
}

#[test]
fn test_execute_missing_query() {
    let tool = WebSearchTool::new("duckduckgo".to_string(), None, 5, 15);
    let result = tool.execute(&object(vec![]));
    assert!(result.is_err());
    assert!(matches!(result, Err(SearchError::MissingQuery)));
}

#[test]
fn test_execute_empty_query() {
    let tool = WebSearchTool::new("duckduckgo".to_string(), None, 5, 15);
    let result = tool.execute(&object(vec![("query", text(""))]));
    assert!(result.is_err());
    assert!(matches!(result, Err(SearchError::EmptyQuery)));
}

#[test]
fn test_execute_brave_without_api_key() {
    let tool = WebSearchTool::new("brave".to_string(), None, 5, 15);
    let result = tool.execute(&object(vec![("query", text("test"))]));
    assert!(result.is_err());
    match result {
        Err(e) => assert!(e.message().contains("API key")),
        Ok(_) => panic!("searched without a key"),
    }
}

#[test]
fn test_parse_duckduckgo_results_misalignment() {
    let tool = WebSearchTool::new("duckduckgo".to_string(), None, 5, 15);
    let html = r#"
            <div class="result">
                <a class="result__a" href="https://example.com/1">Result 1</a>
                <!-- No snippet here -->
            </div>
            <div class="result">
                <a class="result__a" href="https://example.com/2">Result 2</a>
                <a class="result__snippet">Snippet 2</a>
            </div>
        "#;
    let result = tool.parse_duckduckgo_results(html, "test").unwrap();

    let lines: Vec<&str> = result.lines().collect();
    let mut result1_lines = Vec::new();
    let mut result2_lines = Vec::new();
    let mut current_result = 0;

    for line in lines {
        if line.starts_with("1. ") {
            current_result = 1;
        } else if line.starts_with("2. ") {
            current_result = 2;
        }

        if current_result == 1 {
            result1_lines.push(line);
        } else if current_result == 2 {
            result2_lines.push(line);
        }
    }

    let res1_str = result1_lines.join("\n");
    let res2_str = result2_lines.join("\n");

    assert!(!res1_str.contains("Snippet 2"), "Result 1 should not have Snippet 2, but got:\n{}", res1_str);
    assert!(res2_str.contains("Snippet 2"), "Result 2 should have Snippet 2, but got:\n{}", res2_str);
    assert_eq!(
        result,
        "Search results for: test (via DuckDuckGo)\n1. Result 1\n   https://example.com/1\n2. Result 2\n   https://example.com/2\n   Snippet 2"
    );
}

fn two_news() -> Json {
    object(vec![(
        "results",
        Json::Array(vec![
            object(vec![
                ("title", text("News Title 1")),
                ("url", text("https://news.com/1")),
                ("excerpt", text("This is a news excerpt.")),
                ("source", text("News Source")),
                ("relative_time", text("1 hour ago")),
                ("date", Json::Number("1234567890".to_string())),
            ]),
            object(vec![
                ("title", text("News Title 2")),
                ("url", text("https://news.com/2")),
                ("source", text("Another Source")),
                ("relative_time", text("2 hours ago")),
            ]),
        ]),
    )])
}

#[test]
fn test_parse_duckduckgo_news_results_success() {
    let tool = WebSearchTool::new("duckduckgo".to_string(), None, 5, 15);
    let json = two_news();

    let result = tool.parse_duckduckgo_news_results(&json, "test").unwrap();
    assert!(result.contains("News results for: test"));
    assert!(result.contains("News Title 1"));
    assert!(result.contains("This is a news excerpt"));
    assert!(result.contains("News Source"));
    assert!(result.contains("1 hour ago"));
    assert!(result.contains("News Title 2"));
    assert!(result.contains("Another Source"));
}

#[test]
fn test_parse_duckduckgo_news_results_empty() {
    let tool = WebSearchTool::new("duckduckgo".to_string(), None, 5, 15);
    let json = object(vec![("results", Json::Array(vec![]))]);
    let result = tool.parse_duckduckgo_news_results(&json, "test").unwrap();
    assert!(result.contains("No news results found"));
}

#[test]
fn news_report_is_exact() {
    let result = duckduckgo().parse_duckduckgo_news_results(&two_news(), "test").unwrap();
    assert_eq!(
        result,
        "News results for: test (via DuckDuckGo)\n1. News Title 1\n   Source: News Source (1 hour ago)\n   https://news.com/1\n   This is a news excerpt.\n2. News Title 2\n   Source: Another Source (2 hours ago)\n   https://news.com/2"
    );
}

#[test]
fn news_report_fills_in_what_is_missing() {
    let json = object(vec![(
        "results",
        Json::Array(vec![object(vec![
            ("title", Json::Null),
            ("excerpt", text("A <b>bold</b> claim")),
        ])]),
    )]);
    let result = duckduckgo().parse_duckduckgo_news_results(&json, "q").unwrap();
    assert_eq!(
        result,
        "News results for: q (via DuckDuckGo)\n1. No title\n   Source: Unknown Source ()\n   \n   A bold claim"
    );
}

#[test]
fn news_without_results_is_invalid() {
    let tool = duckduckgo();
    for json in [object(vec![]), object(vec![("results", text("none"))]), Json::Bool(true)] {
        match tool.parse_duckduckgo_news_results(&json, "q") {
            Err(e) => assert_eq!(e.message(), "Invalid DuckDuckGo news response"),
            Ok(_) => panic!("read news from nothing"),
        }
    }
}

fn brave_answer(results: Vec<Json>) -> Json {
    object(vec![("web", object(vec![("results", Json::Array(results))]))])
}

#[test]
fn brave_report_is_exact() {
    let tool = WebSearchTool::new("brave".to_string(), Some("key".to_string()), 2, 15);
    let json = brave_answer(vec![
        object(vec![
            ("title", text("First")),
            ("url", text("https://a.example")),
            ("description", text("About <b>a</b>")),
        ]),
        object(vec![("url", text("https://b.example"))]),
        object(vec![("title", text("Third"))]),
    ]);
    assert_eq!(
        tool.parse_brave_results(&json, "q").unwrap(),
        "Search results for: q (via Brave)\n1. First\n   https://a.example\n   About <b>a</b>\n2. No title\n   https://b.example"
    );
}

#[test]
fn brave_without_results() {
    let tool = WebSearchTool::new("brave".to_string(), Some("key".to_string()), 2, 15);
    assert_eq!(
        tool.parse_brave_results(&brave_answer(vec![]), "q").unwrap(),
        "No results found for: q"
    );
    for json in [object(vec![]), object(vec![("web", object(vec![]))]), Json::Null] {
        match tool.parse_brave_results(&json, "q") {
            Err(e) => assert_eq!(e.message(), "Invalid Brave API response"),
            Ok(_) => panic!("read results from nothing"),
        }
    }
}

#[test]
fn brave_search_sends_key_and_count() {
    let tool = WebSearchTool::new("Brave ".to_string(), Some("key".to_string()), 99, 7);
    match tool.execute(&object(vec![("query", text("a&b")), ("search_type", text("news"))])) {
        Ok(Step::FetchFeed { feed: Feed::Brave, query, request }) => {
            assert_eq!(query, "a&b");
            assert_eq!(
                request.url,
                "https://api.search.brave.com/res/v1/web/search?q=a%26b&count=10"
            );
            assert_eq!(request.user_agent, None);
            assert_eq!(request.timeout_secs, 7);
            let headers: Vec<(&str, &str)> = request
                .headers
                .iter()
                .map(|h| (h.name.as_str(), h.value.as_str()))
                .collect();
            assert_eq!(
                headers,
                vec![("Accept", "application/json"), ("X-Subscription-Token", "key")]
            );
        }
        _ => panic!("another step"),
    }
}

#[test]
fn web_search_goes_by_either_name() {
    for name in ["duckduckgo", "ddg", " DuckDuckGo\t", "\u{3000}DDG\n"] {
        let tool = WebSearchTool::new(name.to_string(), None, 5, 0);
        match tool.execute(&object(vec![("query", text("rust & verus?"))])) {
            Ok(Step::FetchPage { page: Page::Results, query, request }) => {
                assert_eq!(query, "rust & verus?");
                assert_eq!(
                    request.url,
                    "https://html.duckduckgo.com/html/?q=rust%20%26%20verus%3F"
                );
                assert!(request.user_agent.unwrap().starts_with("Mozilla/5.0 "));
                assert!(request.headers.is_empty());
                assert_eq!(request.timeout_secs, 1);
            }
            _ => panic!("another step"),
        }
    }
}

#[test]
fn news_search_takes_two_fetches() {
    let tool = duckduckgo();
    let args = object(vec![("query", text("z\u{fc}rich")), ("search_type", text("NEWS"))]);
    let query = match tool.execute(&args) {
        Ok(Step::FetchPage { page: Page::Token, query, request }) => {
            assert_eq!(request.url, "https://duckduckgo.com/?q=z%C3%BCrich");
            assert_eq!(request.headers.len(), 1);
            assert_eq!(request.headers[0].name, "Referer");
            assert_eq!(request.headers[0].value, "https://duckduckgo.com/");
            query
        }
        _ => panic!("another step"),
    };
    let page = "<script>vqd='';vqd=\"4-12ab\";vqd='5-6'</script>";
    let query = match tool.resume_page(Page::Token, &query, page) {
        Ok(Step::FetchFeed { feed: Feed::News, query, request }) => {
            assert_eq!(
                request.url,
                "https://duckduckgo.com/news.js?l=wt-wt&o=json&q=z%C3%BCrich&vqd=4-12ab&p=-1&s=0"
            );
            assert_eq!(request.timeout_secs, 15);
            query
        }
        _ => panic!("another step"),
    };
    match tool.resume_feed(Feed::News, &query, &two_news()) {
        Ok(Step::Done { result }) => {
            assert!(result.success);
            assert!(result.output.starts_with("News results for: z\u{fc}rich (via DuckDuckGo)\n1. "));
            assert_eq!(result.error, None);
        }
        _ => panic!("another step"),
    }
}

#[test]
fn page_without_token_ends_the_search() {
    for page in ["", "vqd=", "vqd=\"\"", "vqd='12", "vqd=12", "vqd='1 2'"] {
        match duckduckgo().resume_page(Page::Token, "q", page) {
            Err(e) => assert_eq!(e.message(), "No vqd found in DDG search page"),
            Ok(_) => panic!("found a token"),
        }
    }
    assert_eq!(duckduckgo().parse_vqd("xvqd='A-1\"").unwrap(), "A-1");
}

#[test]
fn page_of_results_ends_the_search() {
    match duckduckgo().resume_page(Page::Results, "q", "nothing") {
        Ok(Step::Done { result }) => {
            assert!(result.success);
            assert_eq!(result.output, "No results found for: q");
            assert_eq!(result.error, None);
        }
        _ => panic!("another step"),
    }
}

#[test]
fn brave_answer_ends_the_search() {
    let tool = WebSearchTool::new("brave".to_string(), Some("key".to_string()), 2, 15);
    match tool.resume_feed(Feed::Brave, "q", &brave_answer(vec![])) {
        Ok(Step::Done { result }) => assert_eq!(result.output, "No results found for: q"),
        _ => panic!("another step"),
    }
    assert!(tool.resume_feed(Feed::Brave, "q", &Json::Null).is_err());
}

#[test]
fn refused_requests_are_reported() {
    let status = "404 Not Found";
    let cases = vec![
        (Page::Results.check_status(404, status), "DuckDuckGo search failed with status: 404 Not Found"),
        (Page::Token.check_status(404, status), "Failed to fetch VQD token: 404 Not Found"),
        (Feed::News.check_status(404, status), "DuckDuckGo news search failed with status: 404 Not Found"),
        (Feed::Brave.check_status(404, status), "Brave search failed with status: 404 Not Found"),
    ];
    for (res, message) in cases {
        assert_eq!(res.unwrap_err().message(), message);
    }
    assert!(Page::Results.check_status(200, "200 OK").is_ok());
    assert!(Page::Token.check_status(299, "").is_ok());
    assert!(Feed::News.check_status(300, "").is_err());
    assert!(Feed::Brave.check_status(199, "").is_err());
}

#[test]
fn unknown_provider_is_refused() {
    let tool = WebSearchTool::new(" \u{c9}COLE ".to_string(), None, 5, 15);
    match tool.execute(&object(vec![("query", text("q"))])) {
        Err(e) => assert_eq!(
            e.message(),
            "Unknown search provider: '\u{e9}cole'. Set tools.web_search.provider to 'duckduckgo' or 'brave' in config.toml"
        ),
        Ok(_) => panic!("searched nowhere"),
    }
}

#[test]
fn arguments_are_checked_before_the_provider() {
    let tool = WebSearchTool::new("nowhere".to_string(), None, 5, 15);
    let message = |args: Json| match tool.execute(&args) {
        Err(e) => e.message(),
        Ok(_) => panic!("searched nowhere"),
    };
    assert_eq!(message(Json::Null), "Missing required parameter: query");
    assert_eq!(
        message(object(vec![("query", Json::Number("1".to_string()))])),
        "Missing required parameter: query"
    );
    assert_eq!(
        message(object(vec![("query", text(" \u{a0}\n"))])),
        "Search query cannot be empty"
    );
}
