use web_search::duckduckgo::decode_ddg_redirect_url;
use web_search::patterns::{find_result_links, find_snippet, find_vqd, strip_tags, ResultLink};
use web_search::report::{render_report, Entry};
use web_search::tool::WebSearchTool;

fn tool(max_results: usize) -> WebSearchTool {
    WebSearchTool::new("duckduckgo".to_string(), None, max_results, 15)
}

#[test]
fn tags_need_a_name_and_an_end() {
    assert_eq!(strip_tags("a<>b<c"), "a<>b<c");
    assert_eq!(strip_tags("a<<b>c>"), "ac>");
    assert_eq!(strip_tags("x<a\nb>y"), "xy");
    assert_eq!(strip_tags("\u{e9}<\u{e9}>\u{e9}"), "\u{e9}\u{e9}");
    assert_eq!(strip_tags("<>>"), "<>>");
    assert_eq!(strip_tags(""), "");
}

#[test]
fn stripping_twice_is_stripping_once() {
    for html in ["<b>x</b>", "<<>b>", "<a<b>>", "a<>b>c<", "<<<<>>>>"] {
        let once = strip_tags(html);
        assert_eq!(strip_tags(&once), once);
    }
}

#[test]
fn snippet_is_the_first_one() {
    let area = r#"<a class="other">no</a> <a class="result__snippet js" href="/x">One <b>two</b></a><a class="result__snippet">Three</a>"#;
    assert_eq!(find_snippet(area), Some("One <b>two</b>".to_string()));
    assert_eq!(find_snippet(r#"<a class="result__snippet">open"#), None);
    assert_eq!(find_snippet(r#"<a  class="result__snippet">x</a>"#), None);
    assert_eq!(
        find_snippet(r#"<a class="result__snippet" title="a>b">c</a>"#),
        Some("b\">c".to_string())
    );
}

#[test]
fn token_is_the_first_one() {
    assert_eq!(find_vqd("a vqd='1-a' vqd='2'"), Some("1-a".to_string()));
    assert_eq!(find_vqd("vqd='a_b' vqd=\"c\""), Some("c".to_string()));
    assert_eq!(find_vqd("VQD='1'"), None);
}

#[test]
fn links_are_found_in_order() {
    let html = "\u{e9}<a rel=\"x\" class=\"a result__a b\" id=\"y\" href=\"u1\" z>T <b>1</b></a>--<a class=\"result__a\" href=\"u2\">T2</a>";
    let links = find_result_links(html);
    assert_eq!(links.len(), 2);
    assert_eq!(links[0].start, 2);
    assert_eq!(links[0].href, "u1");
    assert_eq!(links[0].title, "T <b>1</b>");
    assert_eq!(&html[links[0].end..links[1].start], "--");
    assert_eq!(links[1].end, html.len());
    assert_eq!(links[1].href, "u2");
    assert_eq!(links[1].title, "T2");
}

#[test]
fn links_need_class_before_address() {
    assert!(find_result_links(r#"<a href="u" class="result__a">T</a>"#).is_empty());
    assert!(find_result_links(r#"<a class="result__a" href="">T</a>"#).is_empty());
    assert!(find_result_links(r#"<a class="result__b" href="u">T</a>"#).is_empty());
    assert!(find_result_links(r#"<a class="result__a" href="u">T"#).is_empty());
}

#[test]
fn last_address_of_a_link_counts() {
    let links = find_result_links(r#"<a class="result__a" href="u1" href="u2">T</a>"#);
    assert_eq!(links.len(), 1);
    assert_eq!(links[0].href, "u2");
}

#[test]
fn web_report_is_exact() {
    let html = "<a class=\"result__a\" href=\" u \"> <b>T</b>\u{a0}</a>\n<a class=\"result__snippet\"> S <i>s</i> </a>";
    assert_eq!(
        tool(5).parse_duckduckgo_results(html, "q").unwrap(),
        "Search results for: q (via DuckDuckGo)\n1. T\n   u\n   S s"
    );
}

#[test]
fn empty_snippet_is_left_out() {
    let html = r#"<a class="result__a" href="u">T</a><a class="result__snippet"><br> </a>"#;
    assert_eq!(
        tool(5).parse_duckduckgo_results(html, "q").unwrap(),
        "Search results for: q (via DuckDuckGo)\n1. T\n   u"
    );
}

#[test]
fn report_keeps_to_the_limit() {
    let page: String = (1..=12)
        .map(|n| format!("<a class=\"result__a\" href=\"u{}\">T{}</a>", n, n))
        .collect();
    let listed = |max_results: usize| {
        let report = tool(max_results).parse_duckduckgo_results(&page, "q").unwrap();
        report.lines().count()
    };
    assert_eq!(listed(0), 1 + 2);
    assert_eq!(listed(1), 1 + 2);
    assert_eq!(listed(7), 1 + 2 * 7);
    assert_eq!(listed(10), 1 + 2 * 10);
    assert_eq!(listed(99), 1 + 2 * 10);
    let report = tool(99).parse_duckduckgo_results(&page, "q").unwrap();
    assert!(report.ends_with("\n10. T10\n   u10"));
}

#[test]
fn report_on_given_links() {
    let html = r#"##<a class="result__snippet">A</a>##<a class="result__snippet">B</a>"#;
    let links = vec![
        ResultLink { start: 0, end: 1, href: "u1".to_string(), title: "T1".to_string() },
        ResultLink { start: 34, end: 35, href: "u2".to_string(), title: "T2".to_string() },
    ];
    assert_eq!(
        tool(5).report_duckduckgo_links(html, "q", &links),
        "Search results for: q (via DuckDuckGo)\n1. T1\n   u1\n   A\n2. T2\n   u2\n   B"
    );
    assert_eq!(
        tool(5).report_duckduckgo_links(html, "q", &Vec::new()),
        "No results found for: q"
    );
}

#[test]
fn redirect_leads_to_its_target() {
    let decoded = decode_ddg_redirect_url(
        "//duckduckgo.com/l/?uddg=https%3A%2F%2Fexample.com%2F%3Fq%3Da%26b%20%E2%82%AC&rut=1",
    );
    assert_eq!(decoded, "https://example.com/?q=a&b \u{20ac}");
    assert_eq!(decode_ddg_redirect_url("x?uddg=a%2"), "a%2");
    assert_eq!(decode_ddg_redirect_url("x?uddg=a+b%zz%2f"), "a+b%zz/");
    assert_eq!(decode_ddg_redirect_url("x?uddg=&y"), "");
    assert_eq!(decode_ddg_redirect_url("\u{e9}?uddg=1&uddg=2"), "1");
}

#[test]
fn other_links_are_kept() {
    assert_eq!(decode_ddg_redirect_url("https://e.com/%20?a=1&b"), "https://e.com/%20?a=1&b");
    assert_eq!(decode_ddg_redirect_url("x?uddg=%FF&y"), "x?uddg=%FF&y");
    assert_eq!(decode_ddg_redirect_url(""), "");
}

#[test]
fn query_survives_the_address() {
    for query in ["a b&c=d#e+f%g", "\u{e9}\u{20ac}\u{1f980}", "plain-._~", "\0"] {
        let url = tool(5).search_duckduckgo(query).url;
        let coded = url.strip_prefix("https://html.duckduckgo.com/html/?q=").unwrap();
        assert!(coded.bytes().all(|b| b == b'%' || b.is_ascii_alphanumeric() || b"-._~".contains(&b)));
        let redirect = format!("/l/?uddg={}&rut=1", coded);
        assert_eq!(decode_ddg_redirect_url(&redirect), query);
    }
}

#[test]
fn entries_are_numbered_and_set_in() {
    let entries = vec![
        Entry {
            title: "A".to_string(),
            source: Some("S".to_string()),
            url: "u".to_string(),
            note: "n".to_string(),
        },
        Entry { title: "B".to_string(), source: None, url: "v".to_string(), note: String::new() },
    ];
    assert_eq!(render_report("H", &entries), "H\n1. A\n   S\n   u\n   n\n2. B\n   v");
    assert_eq!(render_report("H", &Vec::new()), "H");
}
