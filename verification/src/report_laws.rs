//! What a report holds, said of the text it is and of the answer it is made from.

use vstd::prelude::*;
use vstd::utf8::*;

use crate::brave::{brave_entries, brave_report};
use crate::duckduckgo::{link_entries, link_entry, redirect_target, web_report};
use crate::error::ErrorView;
use crate::json::{member, JsonView, MemberView};
use crate::laws::{lemma_find_char, lemma_find_is_first};
use crate::news::{news_entries, news_report};
use crate::patterns::{first_snippet, parted, snippet_at, without_tags, LinkView};
use crate::report::{entry_lines, report, report_lines, EntryView};
use crate::text::{decimal, find, joined, occurs_at, trimmed};
use crate::tool::ToolView;

verus! {

// ---- Members of JSON objects ----

/// Whether the member at `i` is the first with the name `key`.
pub open spec fn is_first_named(members: Seq<MemberView>, key: Seq<char>, i: int) -> bool {
    &&& 0 <= i < members.len()
    &&& members[i].name == key
    &&& forall|j: int| 0 <= j < i ==> (#[trigger] members[j]).name != key
}

/// Whether `value` is an object that holds `inner` under the name `key`.
pub open spec fn holds(value: JsonView, key: Seq<char>, inner: JsonView) -> bool {
    match value {
        JsonView::Object(members) => exists|i: int| #[trigger]
            is_first_named(members, key, i) && members[i].value == inner,
        _ => false,
    }
}

/// The text that `value` holds under the name `key`, or `default` where it holds none.
pub open spec fn text_held(value: JsonView, key: Seq<char>, default: Seq<char>) -> Seq<char> {
    if exists|text: Seq<char>| #[trigger] holds(value, key, JsonView::Str(text)) {
        choose|text: Seq<char>| #[trigger] holds(value, key, JsonView::Str(text))
    } else {
        default
    }
}

pub(crate) proof fn lemma_first_member(members: Seq<MemberView>, key: Seq<char>, i: int)
    requires
        is_first_named(members, key, i),
    ensures
        member(members, key) == Some(members[i].value),
    decreases members.len(),
{
    if i > 0 {
        let rest = members.drop_first();
        assert(members[0].name != key);
        assert forall|j: int| 0 <= j < i - 1 implies (#[trigger] rest[j]).name != key by {
            assert(rest[j] == members[j + 1]);
        }
        lemma_first_member(rest, key, i - 1);
    }
}

proof fn lemma_member_is_named(members: Seq<MemberView>, key: Seq<char>)
    requires
        member(members, key) is Some,
    ensures
        exists|i: int| is_first_named(members, key, i),
    decreases members.len(),
{
    if members[0].name == key {
        assert(is_first_named(members, key, 0));
    } else {
        let rest = members.drop_first();
        lemma_member_is_named(rest, key);
        let i = choose|i: int| is_first_named(rest, key, i);
        assert forall|j: int| 0 <= j < i + 1 implies (#[trigger] members[j]).name != key by {
            if j > 0 {
                assert(members[j] == rest[j - 1]);
            }
        }
        assert(is_first_named(members, key, i + 1));
    }
}

/// A value is asked for its first member of a name, and only an object has any.
pub proof fn law_first_member_counts(value: JsonView, key: Seq<char>, inner: JsonView)
    ensures
        value.get(key) == Some(inner) <==> holds(value, key, inner),
{
    if let JsonView::Object(members) = value {
        if value.get(key) == Some(inner) {
            lemma_member_is_named(members, key);
            let i = choose|i: int| is_first_named(members, key, i);
            lemma_first_member(members, key, i);
        }
        if holds(value, key, inner) {
            let i = choose|i: int| #[trigger]
                is_first_named(members, key, i) && members[i].value == inner;
            lemma_first_member(members, key, i);
        }
    }
}

/// A text is read as it stands, the empty one too. What is no text counts as missing.
pub proof fn law_text_is_read_as_it_stands(value: JsonView, key: Seq<char>, default: Seq<char>)
    ensures
        forall|text: Seq<char>|
            value.text(key) == Some(text) <==> #[trigger] holds(value, key, JsonView::Str(text)),
        value.text_or(key, default) == text_held(value, key, default),
{
    assert forall|text: Seq<char>|
        value.text(key) == Some(text) <==> #[trigger] holds(value, key, JsonView::Str(text)) by {
        law_first_member_counts(value, key, JsonView::Str(text));
    }
    if let Some(text) = value.text(key) {
        assert(holds(value, key, JsonView::Str(text)));
    }
}

// ---- The text of a report ----

/// The line with the number and the title of an entry, behind a line break.
pub open spec fn numbered(n: int, title: Seq<char>) -> Seq<char> {
    "\n"@ + decimal(n as nat) + ". "@ + title
}

/// A further line of an entry, behind a line break.
pub open spec fn further(text: Seq<char>) -> Seq<char> {
    "\n"@ + "   "@ + text
}

/// A further line of an entry, unless there is nothing to say in it.
pub open spec fn further_if_any(text: Seq<char>) -> Seq<char> {
    if text.len() > 0 {
        further(text)
    } else {
        Seq::empty()
    }
}

/// The text of the entry with number `n`.
pub open spec fn entry_text(n: int, entry: EntryView) -> Seq<char> {
    numbered(n, entry.title) + (match entry.source {
        Some(source) => further(source),
        None => Seq::empty(),
    }) + further(entry.url) + further_if_any(entry.note)
}

proof fn lemma_regrouped(a: Seq<char>, b: Seq<char>, c: Seq<char>)
    ensures
        a + b + c == a + (b + c),
{
    assert(a + b + c =~= a + (b + c));
}

proof fn lemma_joined_push(lines: Seq<Seq<char>>, line: Seq<char>)
    requires
        lines.len() > 0,
    ensures
        joined(lines.push(line)) == joined(lines) + ("\n"@ + line),
{
    assert(lines.push(line).drop_last() =~= lines);
    lemma_regrouped(joined(lines), "\n"@, line);
}

proof fn lemma_joined_further(
    lines: Seq<Seq<char>>,
    start: Seq<char>,
    begun: Seq<char>,
    text: Seq<char>,
)
    requires
        lines.len() > 0,
        joined(lines) == start + begun,
    ensures
        joined(lines.push("   "@ + text)) == start + (begun + further(text)),
{
    lemma_joined_push(lines, "   "@ + text);
    lemma_regrouped("\n"@, "   "@, text);
    lemma_regrouped(start, begun, further(text));
}

proof fn lemma_joined_entry(lines: Seq<Seq<char>>, n: nat, entry: EntryView)
    requires
        lines.len() > 0,
    ensures
        joined(lines + entry_lines(n, entry)) == joined(lines) + entry_text(n as int, entry),
{
    let start = joined(lines);
    let title = decimal(n) + ". "@ + entry.title;
    let text = numbered(n as int, entry.title);
    lemma_joined_push(lines, title);
    assert("\n"@ + title =~= text);
    let with_title = lines.push(title);
    let (with_source, text) = match entry.source {
        Some(source) => {
            lemma_joined_further(with_title, start, text, source);
            (with_title.push("   "@ + source), text + further(source))
        },
        None => {
            assert(text + Seq::<char>::empty() =~= text);
            (with_title, text)
        },
    };
    lemma_joined_further(with_source, start, text, entry.url);
    let with_url = with_source.push("   "@ + entry.url);
    let text = text + further(entry.url);
    if entry.note.len() > 0 {
        lemma_joined_further(with_url, start, text, entry.note);
        assert(lines + entry_lines(n, entry) =~= with_url.push("   "@ + entry.note));
    } else {
        assert(text + Seq::<char>::empty() =~= text);
        assert(lines + entry_lines(n, entry) =~= with_url);
    }
}

proof fn lemma_report_lines_len(heading: Seq<char>, entries: Seq<EntryView>)
    ensures
        report_lines(heading, entries).len() > 0,
    decreases entries.len(),
{
    if entries.len() > 0 {
        lemma_report_lines_len(heading, entries.drop_last());
    }
}

/// A report is its heading, and behind it the texts of the entries, one after the other,
/// numbered from 1, and nothing else.
pub proof fn law_report_is_heading_and_entries(
    heading: Seq<char>,
    entries: Seq<EntryView>,
    texts: Seq<Seq<char>>,
)
    requires
        texts.len() == entries.len(),
        forall|k: int|
            0 <= k < entries.len() ==> #[trigger] texts[k] == entry_text(k + 1, entries[k]),
    ensures
        report(heading, entries) == heading + texts.flatten(),
    decreases entries.len(),
{
    if entries.len() == 0 {
        assert(report(heading, entries) =~= heading + texts.flatten());
    } else {
        let n = entries.len();
        let front = entries.drop_last();
        law_report_is_heading_and_entries(heading, front, texts.drop_last());
        lemma_report_lines_len(heading, front);
        lemma_joined_entry(report_lines(heading, front), n, entries.last());
        texts.drop_last().lemma_flatten_push(texts.last());
        assert(texts.drop_last().push(texts.last()) =~= texts);
        assert(texts.last() == entry_text(n as int, entries.last()));
        assert(report(heading, entries) =~= heading + texts.flatten());
    }
}

/// The number of an entry is written with its decimal digits: the last one is what is
/// left over when the number is divided by ten, and the others write the quotient.
pub proof fn law_numbers_are_decimal(n: nat)
    ensures
        decimal(n).len() >= 1,
        decimal(n).last() as u32 == '0' as u32 + n % 10,
        n < 10 ==> decimal(n).len() == 1,
        n >= 10 ==> decimal(n).drop_last() == decimal(n / 10),
{
    if n >= 10 {
        assert(decimal(n).drop_last() =~= decimal(n / 10));
    }
}

// ---- News ----

/// The text with number `n` that tells of one piece of news.
pub open spec fn news_text(n: int, item: JsonView) -> Seq<char> {
    numbered(n, text_held(item, "title"@, "No title"@)) + further(
        "Source: "@ + text_held(item, "source"@, "Unknown Source"@) + " ("@ + text_held(
            item,
            "relative_time"@,
            ""@,
        ) + ")"@,
    ) + further(text_held(item, "url"@, ""@)) + further_if_any(
        without_tags(text_held(item, "excerpt"@, ""@)),
    )
}

/// A news report lists the first items of the answer's `results`, in the answer's order
/// and as many as the limit allows: the entry with number `k + 1` is made from the item
/// at index `k`. Where `results` is empty, the report says that nothing was found.
pub proof fn law_news_report_lists_the_first_items(
    tool: ToolView,
    json: JsonView,
    query: Seq<char>,
    items: Seq<JsonView>,
)
    requires
        holds(json, "results"@, JsonView::Array(items)),
    ensures
        items.len() == 0 ==> news_report(tool, json, query) == Ok::<Seq<char>, ErrorView>(
            "No news results found for: "@ + query,
        ),
        items.len() > 0 ==> news_report(tool, json, query) == Ok::<Seq<char>, ErrorView>(
            "News results for: "@ + query + " (via DuckDuckGo)"@ + Seq::new(
                if items.len() <= tool.max_results {
                    items.len()
                } else {
                    tool.max_results
                },
                |k: int| news_text(k + 1, items[k]),
            ).flatten(),
        ),
{
    law_first_member_counts(json, "results"@, JsonView::Array(items));
    if items.len() > 0 {
        let count = if items.len() <= tool.max_results {
            items.len()
        } else {
            tool.max_results
        };
        let entries = news_entries(tool, items);
        let texts = Seq::new(
            count,
            |k: int| news_text(k + 1, items[k]),
        );
        assert forall|k: int| 0 <= k < entries.len() implies #[trigger] texts[k] == entry_text(
            k + 1,
            entries[k],
        ) by {
            reveal_strlit("");
            let item = items[k];
            law_text_is_read_as_it_stands(item, "title"@, "No title"@);
            law_text_is_read_as_it_stands(item, "source"@, "Unknown Source"@);
            law_text_is_read_as_it_stands(item, "relative_time"@, ""@);
            law_text_is_read_as_it_stands(item, "url"@, ""@);
            law_text_is_read_as_it_stands(item, "excerpt"@, ""@);
            assert(without_tags(""@).len() == 0);
        }
        let heading = "News results for: "@ + query + " (via DuckDuckGo)"@;
        law_report_is_heading_and_entries(heading, entries, texts);
    }
}

/// A news answer that holds no array under `results` gives no report, but an error.
pub proof fn law_news_need_results(tool: ToolView, json: JsonView, query: Seq<char>)
    requires
        forall|items: Seq<JsonView>| !#[trigger] holds(json, "results"@, JsonView::Array(items)),
    ensures
        news_report(tool, json, query) == Err::<Seq<char>, ErrorView>(
            ErrorView::InvalidNewsResponse,
        ),
{
    if let Some(value) = json.get("results"@) {
        law_first_member_counts(json, "results"@, value);
        if let JsonView::Array(items) = value {
            assert(holds(json, "results"@, JsonView::Array(items)));
        }
    }
}

/// One item more behind the others adds one entry to the end of the report, unless the
/// limit is reached; then the report stays as it is.
pub proof fn law_news_report_grows_by_the_next_item(
    tool: ToolView,
    json: JsonView,
    longer: JsonView,
    query: Seq<char>,
    items: Seq<JsonView>,
    item: JsonView,
)
    requires
        items.len() > 0,
        holds(json, "results"@, JsonView::Array(items)),
        holds(longer, "results"@, JsonView::Array(items.push(item))),
    ensures
        news_report(tool, json, query) is Ok,
        news_report(tool, longer, query) == Ok::<Seq<char>, ErrorView>(
            if items.len() < tool.max_results {
                news_report(tool, json, query)->Ok_0 + news_text(items.len() as int + 1, item)
            } else {
                news_report(tool, json, query)->Ok_0
            },
        ),
{
    let more = items.push(item);
    law_news_report_lists_the_first_items(tool, json, query, items);
    law_news_report_lists_the_first_items(tool, longer, query, more);
    let n = items.len();
    if n < tool.max_results {
        let texts = Seq::new(n, |k: int| news_text(k + 1, items[k]));
        let all = Seq::new(more.len(), |k: int| news_text(k + 1, more[k]));
        assert(all =~= texts.push(news_text(n as int + 1, item)));
        texts.lemma_flatten_push(news_text(n as int + 1, item));
        lemma_regrouped(
            "News results for: "@ + query + " (via DuckDuckGo)"@,
            texts.flatten(),
            news_text(n as int + 1, item),
        );
    } else {
        let texts = Seq::new(tool.max_results, |k: int| news_text(k + 1, items[k]));
        assert(texts =~= Seq::new(tool.max_results, |k: int| news_text(k + 1, more[k])));
        if n == tool.max_results {
            assert(texts =~= Seq::new(n, |k: int| news_text(k + 1, items[k])));
        }
    }
}

// ---- Brave ----

/// The text with number `n` that tells of one result of Brave's.
pub open spec fn brave_text(n: int, item: JsonView) -> Seq<char> {
    numbered(n, text_held(item, "title"@, "No title"@)) + further(text_held(item, "url"@, ""@))
        + further_if_any(text_held(item, "description"@, ""@))
}

/// A Brave report lists the first items of the answer's `results`, in the answer's order
/// and as many as the limit allows: the entry with number `k + 1` is made from the item
/// at index `k`. Where `results` is empty, the report says that nothing was found.
pub proof fn law_brave_report_lists_the_first_items(
    tool: ToolView,
    json: JsonView,
    web: JsonView,
    query: Seq<char>,
    items: Seq<JsonView>,
)
    requires
        holds(json, "web"@, web),
        holds(web, "results"@, JsonView::Array(items)),
    ensures
        items.len() == 0 ==> brave_report(tool, json, query) == Ok::<Seq<char>, ErrorView>(
            "No results found for: "@ + query,
        ),
        items.len() > 0 ==> brave_report(tool, json, query) == Ok::<Seq<char>, ErrorView>(
            "Search results for: "@ + query + " (via Brave)"@ + Seq::new(
                if items.len() <= tool.max_results {
                    items.len()
                } else {
                    tool.max_results
                },
                |k: int| brave_text(k + 1, items[k]),
            ).flatten(),
        ),
{
    law_first_member_counts(json, "web"@, web);
    law_first_member_counts(web, "results"@, JsonView::Array(items));
    if items.len() > 0 {
        let count = if items.len() <= tool.max_results {
            items.len()
        } else {
            tool.max_results
        };
        let entries = brave_entries(tool, items);
        let texts = Seq::new(
            count,
            |k: int| brave_text(k + 1, items[k]),
        );
        assert forall|k: int| 0 <= k < entries.len() implies #[trigger] texts[k] == entry_text(
            k + 1,
            entries[k],
        ) by {
            let item = items[k];
            law_text_is_read_as_it_stands(item, "title"@, "No title"@);
            law_text_is_read_as_it_stands(item, "url"@, ""@);
            law_text_is_read_as_it_stands(item, "description"@, ""@);
            let title = numbered(k + 1, text_held(item, "title"@, "No title"@));
            assert(title + Seq::<char>::empty() =~= title);
        }
        let heading = "Search results for: "@ + query + " (via Brave)"@;
        law_report_is_heading_and_entries(heading, entries, texts);
    }
}

/// An answer of Brave's that holds no array under `results` in `web` gives no report, but
/// an error.
pub proof fn law_brave_needs_results(tool: ToolView, json: JsonView, query: Seq<char>)
    requires
        forall|web: JsonView, items: Seq<JsonView>|
            #[trigger] holds(json, "web"@, web) ==> !#[trigger] holds(
                web,
                "results"@,
                JsonView::Array(items),
            ),
    ensures
        brave_report(tool, json, query) == Err::<Seq<char>, ErrorView>(
            ErrorView::InvalidBraveResponse,
        ),
{
    if let Some(web) = json.get("web"@) {
        law_first_member_counts(json, "web"@, web);
        if let Some(value) = web.get("results"@) {
            law_first_member_counts(web, "results"@, value);
            if let JsonView::Array(items) = value {
                assert(holds(web, "results"@, JsonView::Array(items)));
            }
        }
    }
}

/// One item more behind the others adds one entry to the end of the report, unless the
/// limit is reached; then the report stays as it is.
pub proof fn law_brave_report_grows_by_the_next_item(
    tool: ToolView,
    json: JsonView,
    web: JsonView,
    longer: JsonView,
    longer_web: JsonView,
    query: Seq<char>,
    items: Seq<JsonView>,
    item: JsonView,
)
    requires
        items.len() > 0,
        holds(json, "web"@, web),
        holds(web, "results"@, JsonView::Array(items)),
        holds(longer, "web"@, longer_web),
        holds(longer_web, "results"@, JsonView::Array(items.push(item))),
    ensures
        brave_report(tool, json, query) is Ok,
        brave_report(tool, longer, query) == Ok::<Seq<char>, ErrorView>(
            if items.len() < tool.max_results {
                brave_report(tool, json, query)->Ok_0 + brave_text(items.len() as int + 1, item)
            } else {
                brave_report(tool, json, query)->Ok_0
            },
        ),
{
    let more = items.push(item);
    law_brave_report_lists_the_first_items(tool, json, web, query, items);
    law_brave_report_lists_the_first_items(tool, longer, longer_web, query, more);
    let n = items.len();
    if n < tool.max_results {
        let texts = Seq::new(n, |k: int| brave_text(k + 1, items[k]));
        let all = Seq::new(more.len(), |k: int| brave_text(k + 1, more[k]));
        assert(all =~= texts.push(brave_text(n as int + 1, item)));
        texts.lemma_flatten_push(brave_text(n as int + 1, item));
        lemma_regrouped(
            "Search results for: "@ + query + " (via Brave)"@,
            texts.flatten(),
            brave_text(n as int + 1, item),
        );
    } else {
        let texts = Seq::new(tool.max_results, |k: int| brave_text(k + 1, items[k]));
        assert(texts =~= Seq::new(tool.max_results, |k: int| brave_text(k + 1, more[k])));
        if n == tool.max_results {
            assert(texts =~= Seq::new(n, |k: int| brave_text(k + 1, items[k])));
        }
    }
}

// ---- Web pages ----

/// A web report lists the first links of the page, in the page's order and as many as the
/// limit allows. The entry with number `k + 1` has the title and the target of the link at
/// index `k`, and notes the first snippet that stands in the page's bytes from the end of
/// that link to the start of the one behind it, or to the end of the page.
pub proof fn law_web_report_lists_the_first_links(
    tool: ToolView,
    html: Seq<char>,
    query: Seq<char>,
    links: Seq<LinkView>,
)
    ensures
        links.len() == 0 ==> web_report(tool, html, query, links) == "No results found for: "@
            + query,
        links.len() > 0 ==> web_report(tool, html, query, links) == "Search results for: "@ + query
            + " (via DuckDuckGo)"@ + Seq::new(
            if links.len() <= tool.max_results {
                links.len()
            } else {
                tool.max_results
            },
            |k: int|
                numbered(k + 1, trimmed(without_tags(links[k].title))) + further(
                    trimmed(redirect_target(links[k].href)),
                ) + further_if_any(
                    match first_snippet(
                        decode_utf8(
                            encode_utf8(html).subrange(
                                links[k].end,
                                if k == links.len() - 1 {
                                    encode_utf8(html).len() as int
                                } else {
                                    links[k + 1].start
                                },
                            ),
                        ),
                    ) {
                        Some(snippet) => trimmed(without_tags(snippet)),
                        None => Seq::empty(),
                    },
                ),
        ).flatten(),
{
    if links.len() > 0 {
        let entries = link_entries(tool, html, links);
        let texts = Seq::new(
            if links.len() <= tool.max_results {
                links.len()
            } else {
                tool.max_results
            },
            |k: int|
                numbered(k + 1, trimmed(without_tags(links[k].title))) + further(
                    trimmed(redirect_target(links[k].href)),
                ) + further_if_any(
                    match first_snippet(
                        decode_utf8(
                            encode_utf8(html).subrange(
                                links[k].end,
                                if k == links.len() - 1 {
                                    encode_utf8(html).len() as int
                                } else {
                                    links[k + 1].start
                                },
                            ),
                        ),
                    ) {
                        Some(snippet) => trimmed(without_tags(snippet)),
                        None => Seq::empty(),
                    },
                ),
        );
        assert forall|k: int| 0 <= k < entries.len() implies #[trigger] texts[k] == entry_text(
            k + 1,
            entries[k],
        ) by {
            let title = numbered(k + 1, trimmed(without_tags(links[k].title)));
            assert(title + Seq::<char>::empty() =~= title);
        }
        let heading = "Search results for: "@ + query + " (via DuckDuckGo)"@;
        law_report_is_heading_and_entries(heading, entries, texts);
    }
}

/// The note of a result depends on nothing but the page's bytes from the end of its link
/// to the start of the next one, or to the end of the page: where two pages agree on that
/// stretch, the notes are the same.
pub proof fn law_note_depends_on_its_stretch(
    html: Seq<char>,
    links: Seq<LinkView>,
    i: int,
    other_html: Seq<char>,
    other_links: Seq<LinkView>,
    j: int,
)
    requires
        0 <= i < links.len(),
        0 <= j < other_links.len(),
        encode_utf8(html).subrange(
            links[i].end,
            if i == links.len() - 1 {
                encode_utf8(html).len() as int
            } else {
                links[i + 1].start
            },
        ) == encode_utf8(other_html).subrange(
            other_links[j].end,
            if j == other_links.len() - 1 {
                encode_utf8(other_html).len() as int
            } else {
                other_links[j + 1].start
            },
        ),
    ensures
        link_entry(html, links, i).note == link_entry(other_html, other_links, j).note,
{
}

proof fn lemma_no_snippet(s: Seq<char>)
    requires
        forall|p: int| !#[trigger] occurs_at(s, "<a class=\"result__snippet"@, p),
    ensures
        first_snippet(s) is None,
    decreases s.len(),
{
    let mark = "<a class=\"result__snippet"@;
    assert(!occurs_at(s, mark, 0));
    if s.len() > 0 {
        let rest = s.skip(1);
        assert forall|p: int| !#[trigger] occurs_at(rest, mark, p) by {
            if occurs_at(rest, mark, p) {
                assert(s.subrange(p + 1, p + 1 + mark.len()) =~= rest.subrange(p, p + mark.len()));
                assert(occurs_at(s, mark, p + 1));
            }
        }
        lemma_no_snippet(rest);
    }
}

/// A result has no note where no snippet begins in the page's bytes from the end of its
/// link to the start of the next one, or to the end of the page.
pub proof fn law_no_note_without_a_snippet(
    html: Seq<char>,
    links: Seq<LinkView>,
    i: int,
    stretch: Seq<char>,
)
    requires
        0 <= i < links.len(),
        stretch == decode_utf8(
            encode_utf8(html).subrange(
                links[i].end,
                if i == links.len() - 1 {
                    encode_utf8(html).len() as int
                } else {
                    links[i + 1].start
                },
            ),
        ),
        forall|p: int| !#[trigger] occurs_at(stretch, "<a class=\"result__snippet"@, p),
    ensures
        link_entry(html, links, i).note.len() == 0,
{
    lemma_no_snippet(stretch);
}

/// `s` is parted at a character where that stands first.
proof fn lemma_parted_at_char(head: Seq<char>, c: char, tail: Seq<char>)
    requires
        forall|k: int| 0 <= k < head.len() ==> #[trigger] head[k] != c,
    ensures
        parted(head + seq![c] + tail, seq![c]) == Some((head, tail)),
{
    let s = head + seq![c] + tail;
    let at = head.len() as int;
    lemma_find_char(s, c);
    assert(s[at] == c);
    assert(s.contains(c));
    let found = find(s, seq![c])->0;
    assert(found < at ==> s[found] == head[found]);
    assert(found == at);
    assert(s.take(at) =~= head);
    assert(s.skip(at + 1) =~= tail);
}

proof fn lemma_snippet_here(
    class_tail: Seq<char>,
    attributes: Seq<char>,
    text: Seq<char>,
    post: Seq<char>,
)
    requires
        forall|k: int| 0 <= k < class_tail.len() ==> #[trigger] class_tail[k] != '"',
        forall|k: int| 0 <= k < attributes.len() ==> #[trigger] attributes[k] != '>',
        forall|k: int|
            0 <= k < text.len() ==> !#[trigger] occurs_at(text + "</a>"@, "</a>"@, k),
    ensures
        snippet_at(
            "<a class=\"result__snippet"@ + (class_tail + seq!['"'] + (attributes + seq!['>'] + (text
                + "</a>"@ + post))),
        ) == Some(text),
{
    let mark = "<a class=\"result__snippet"@;
    let end = "</a>"@;
    let inside = text + end + post;
    let tag_rest = attributes + seq!['>'] + inside;
    let class_rest = class_tail + seq!['"'] + tag_rest;
    let s = mark + class_rest;
    assert(s.subrange(0, mark.len() as int) =~= mark);
    assert(s.skip(mark.len() as int) =~= class_rest);
    lemma_parted_at_char(class_tail, '"', tag_rest);
    lemma_parted_at_char(attributes, '>', inside);
    let at = text.len() as int;
    assert(inside.subrange(at, at + end.len()) =~= end);
    assert forall|k: int| 0 <= k < at implies !#[trigger] occurs_at(inside, end, k) by {
        if occurs_at(inside, end, k) {
            assert((text + end).subrange(k, k + end.len()) =~= inside.subrange(k, k + end.len()));
            assert(occurs_at(text + end, end, k));
        }
    }
    lemma_find_is_first(inside, end, 0, at);
    assert(inside.take(at) =~= text);
}

proof fn lemma_snippet_comes_first(s: Seq<char>, at: int)
    requires
        0 <= at <= s.len(),
        snippet_at(s.skip(at)) is Some,
        forall|p: int|
            0 <= p < at ==> !#[trigger] occurs_at(s, "<a class=\"result__snippet"@, p),
    ensures
        first_snippet(s) == snippet_at(s.skip(at)),
    decreases at,
{
    let mark = "<a class=\"result__snippet"@;
    if at == 0 {
        assert(s.skip(0) =~= s);
    } else {
        assert(!occurs_at(s, mark, 0));
        let rest = s.skip(1);
        assert forall|p: int| 0 <= p < at - 1 implies !#[trigger] occurs_at(rest, mark, p) by {
            if occurs_at(rest, mark, p) {
                assert(s.subrange(p + 1, p + 1 + mark.len()) =~= rest.subrange(p, p + mark.len()));
                assert(occurs_at(s, mark, p + 1));
            }
        }
        assert(rest.skip(at - 1) =~= s.skip(at));
        lemma_snippet_comes_first(rest, at - 1);
    }
}

/// The note of a result is the whole text of the first snippet in the page's bytes from
/// the end of its link to the start of the next one, or to the end of the page, without
/// tags and without white space around it.
pub proof fn law_first_snippet_is_noted_whole(
    html: Seq<char>,
    links: Seq<LinkView>,
    i: int,
    pre: Seq<char>,
    class_tail: Seq<char>,
    attributes: Seq<char>,
    text: Seq<char>,
    post: Seq<char>,
)
    requires
        0 <= i < links.len(),
        decode_utf8(
            encode_utf8(html).subrange(
                links[i].end,
                if i == links.len() - 1 {
                    encode_utf8(html).len() as int
                } else {
                    links[i + 1].start
                },
            ),
        ) == pre + ("<a class=\"result__snippet"@ + (class_tail + seq!['"'] + (attributes + seq![
            '>',
        ] + (text + "</a>"@ + post)))),
        forall|p: int|
            0 <= p < pre.len() ==> !#[trigger] occurs_at(
                pre + "<a class=\"result__snippet"@,
                "<a class=\"result__snippet"@,
                p,
            ),
        forall|k: int| 0 <= k < class_tail.len() ==> #[trigger] class_tail[k] != '"',
        forall|k: int| 0 <= k < attributes.len() ==> #[trigger] attributes[k] != '>',
        forall|k: int|
            0 <= k < text.len() ==> !#[trigger] occurs_at(text + "</a>"@, "</a>"@, k),
    ensures
        link_entry(html, links, i).note == trimmed(without_tags(text)),
{
    let mark = "<a class=\"result__snippet"@;
    let behind = class_tail + seq!['"'] + (attributes + seq!['>'] + (text + "</a>"@ + post));
    let s = pre + (mark + behind);
    let at = pre.len() as int;
    lemma_snippet_here(class_tail, attributes, text, post);
    assert(s.skip(at) =~= mark + behind);
    assert forall|p: int| 0 <= p < at implies !#[trigger] occurs_at(s, mark, p) by {
        if occurs_at(s, mark, p) {
            assert((pre + mark).subrange(p, p + mark.len()) =~= s.subrange(p, p + mark.len()));
            assert(occurs_at(pre + mark, mark, p));
        }
    }
    lemma_snippet_comes_first(s, at);
}

} // verus!
