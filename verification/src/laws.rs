//! What holds of searches as a whole.

use vstd::prelude::*;
use vstd::utf8::*;

use crate::brave::{brave_entries, brave_url};
use crate::duckduckgo::{
    area_end, link_entries, link_entry, redirect_target, search_url, snippet_area, web_report,
};
use crate::encoding::{
    is_url_char, law_decoding_undoes_encoding, law_encoded_text_is_url_safe, percent_decoded,
    url_decoded, url_encoded,
};
use crate::error::ErrorView;
use crate::json::JsonView;
use crate::news::{news_entries, news_url, vqd_in, vqd_url};
use crate::patterns::{
    are_links_of, behind, first_snippet, has_link, is_covered, is_first_reading, is_link_of,
    is_vqd_char,
    link_in, link_read_in, links_in_order, reads_as, vqd_at, vqd_run, without_tags, LinkParts,
    LinkView,
};
use crate::report::{entry_lines, indented, report, report_lines, EntryView};
use crate::request::RequestView;
use crate::session::{
    execute_step, feed_step, first_step, page_step, read_args, ArgsView, Feed, Page, StepView,
};
use crate::text::{
    ascii_lower, ascii_lowercase, before, byte_range, decimal, find, find_from, is_white_space,
    lemma_byte_range, lemma_find_from_bounds, lemma_no_char_below_nul, occurs_at, trimmed, trimmed_end,
    trimmed_start,
};
use crate::tool::{is_made_from, ToolView};

verus! {

// ---- Searching in text ----

pub(crate) proof fn lemma_find_is_first(s: Seq<char>, needle: Seq<char>, i: int, k: int)
    requires
        0 <= i <= k,
        occurs_at(s, needle, k),
        forall|j: int| i <= j < k ==> !occurs_at(s, needle, j),
    ensures
        find_from(s, needle, i) == Some(k),
    decreases k - i,
{
    if i < k {
        lemma_find_is_first(s, needle, i + 1, k);
    }
}

pub(crate) proof fn lemma_find_nothing(s: Seq<char>, needle: Seq<char>, i: int)
    requires
        0 <= i,
        forall|j: int| i <= j ==> !occurs_at(s, needle, j),
    ensures
        find_from(s, needle, i) is None,
    decreases s.len() - i + 1,
{
    if i + needle.len() <= s.len() {
        lemma_find_nothing(s, needle, i + 1);
    }
}

proof fn lemma_char_occurs(s: Seq<char>, c: char, i: int)
    ensures
        occurs_at(s, seq![c], i) <==> 0 <= i < s.len() && s[i] == c,
{
    if 0 <= i < s.len() {
        let part = s.subrange(i, i + 1);
        assert(part[0] == s[i]);
        if s[i] == c {
            assert(part =~= seq![c]);
        }
    }
}

/// A character is found where it stands first.
pub(crate) proof fn lemma_find_char(s: Seq<char>, c: char)
    ensures
        match find(s, seq![c]) {
            Some(k) => 0 <= k < s.len() && s[k] == c && forall|j: int|
                0 <= j < k ==> s[j] != c,
            None => !s.contains(c),
        },
{
    let needle = seq![c];
    if s.contains(c) {
        lemma_first_char(s, c, 0);
        let k = choose|k: int|
            0 <= k < s.len() && s[k] == c && forall|j: int| 0 <= j < k ==> s[j] != c;
        lemma_char_occurs(s, c, k);
        assert forall|j: int| 0 <= j < k implies !(#[trigger] occurs_at(s, needle, j)) by {
            lemma_char_occurs(s, c, j);
        }
        lemma_find_is_first(s, needle, 0, k);
    } else {
        assert forall|j: int| 0 <= j implies !(#[trigger] occurs_at(s, needle, j)) by {
            lemma_char_occurs(s, c, j);
        }
        lemma_find_nothing(s, needle, 0);
    }
}

proof fn lemma_first_char(s: Seq<char>, c: char, i: int)
    requires
        s.contains(c),
        0 <= i <= s.len(),
        forall|j: int| 0 <= j < i ==> s[j] != c,
    ensures
        exists|k: int|
            0 <= k < s.len() && s[k] == c && forall|j: int| 0 <= j < k ==> s[j] != c,
    decreases s.len() - i,
{
    if i < s.len() && s[i] != c {
        lemma_first_char(s, c, i + 1);
    }
}

// ---- Settings ----

proof fn lemma_trimmed_start(s: Seq<char>)
    ensures
        trimmed_start(s).len() > 0 ==> !is_white_space(trimmed_start(s)[0]),
    decreases s.len(),
{
    if s.len() > 0 && is_white_space(s[0]) {
        lemma_trimmed_start(s.drop_first());
    }
}

proof fn lemma_trimmed_end(s: Seq<char>)
    ensures
        trimmed_end(s).len() > 0 ==> trimmed_end(s)[0] == s[0] && !is_white_space(
            trimmed_end(s).last(),
        ),
    decreases s.len(),
{
    if s.len() > 0 && is_white_space(s.last()) {
        lemma_trimmed_end(s.drop_last());
    }
}

/// On ASCII names, to trim and lower a second time changes nothing.
pub proof fn law_ascii_name_is_normalised_once(provider: Seq<char>)
    requires
        is_ascii_chars(trimmed(provider)),
    ensures
        ({
            let name = ascii_lowercase(trimmed(provider));
            is_ascii_chars(name) && trimmed(name) == name && ascii_lowercase(name) == name
        }),
{
    let kept = trimmed(provider);
    let name = ascii_lowercase(kept);
    lemma_trimmed_start(provider);
    lemma_trimmed_end(trimmed_start(provider));
    assert forall|i: int| 0 <= i < name.len() implies '\0' <= #[trigger] name[i] <= '\u{7f}'
        && ascii_lower(name[i]) == name[i] by {
        lemma_no_char_below_nul(name[i]);
        assert(kept[i] <= '\u{7f}');
    }
    assert(ascii_lowercase(name) =~= name);
    if name.len() > 0 {
        assert(name[0] == ascii_lower(kept[0]));
        assert(name.last() == ascii_lower(kept.last()));
        assert(!is_white_space(name[0]));
        assert(!is_white_space(name.last()));
    }
}

/// A tool made from the settings of another one has the same key and the same limits,
/// and the same provider where the name that the first was made from is ASCII.
pub proof fn law_settings_are_normalised_once(
    tool: ToolView,
    again: ToolView,
    provider: Seq<char>,
    brave_api_key: Option<Seq<char>>,
    max_results: int,
    timeout_secs: int,
)
    requires
        is_made_from(tool, provider, brave_api_key, max_results, timeout_secs),
        is_made_from(
            again,
            tool.provider,
            tool.brave_api_key,
            tool.max_results as int,
            tool.timeout_secs as int,
        ),
    ensures
        again.brave_api_key == tool.brave_api_key,
        again.max_results == tool.max_results,
        again.timeout_secs == tool.timeout_secs,
        is_ascii_chars(trimmed(provider)) ==> again == tool,
{
    if is_ascii_chars(trimmed(provider)) {
        law_ascii_name_is_normalised_once(provider);
    }
}

// ---- Tags ----

/// Whether a tag stands in `s` at `i`: a `<`, one or more characters other than `>`,
/// and a `>`.
pub open spec fn tag_at(s: Seq<char>, i: int) -> bool {
    &&& 0 <= i < s.len()
    &&& s[i] == '<'
    &&& exists|k: int|
        i + 2 <= k < s.len() && #[trigger] s[k] == '>' && forall|j: int|
            i < j < k ==> s[j] != '>'
}

/// Whether no tag stands in `s`.
pub open spec fn is_tag_free(s: Seq<char>) -> bool {
    forall|i: int| !(#[trigger] tag_at(s, i))
}

proof fn lemma_tag_at_start(s: Seq<char>)
    ensures
        tag_at(s, 0) <==> s.len() > 0 && s[0] == '<' && (find(s, seq!['>']) matches Some(k) && k
            >= 2),
{
    lemma_find_char(s, '>');
    if s.len() > 0 && s[0] == '<' {
        match find(s, seq!['>']) {
            Some(k) => {
                assert(s[k] == '>');
                if k >= 2 {
                    assert(tag_at(s, 0));
                } else {
                    assert(k == 1);
                }
            },
            None => {},
        }
    }
}

proof fn lemma_tag_moves(s: Seq<char>, n: int, i: int)
    requires
        0 <= n <= s.len(),
        0 <= i,
    ensures
        tag_at(s.skip(n), i) <==> tag_at(s, n + i),
{
    let t = s.skip(n);
    if tag_at(t, i) {
        let k = choose|k: int|
            i + 2 <= k < t.len() && #[trigger] t[k] == '>' && forall|j: int|
                i < j < k ==> t[j] != '>';
        assert(s[n + k] == '>');
        assert forall|j: int| n + i < j < n + k implies s[j] != '>' by {
            assert(t[j - n] != '>');
        }
    }
    if tag_at(s, n + i) {
        let k = choose|k: int|
            n + i + 2 <= k < s.len() && #[trigger] s[k] == '>' && forall|j: int|
                n + i < j < k ==> s[j] != '>';
        assert(t[k - n] == '>');
        assert forall|j: int| i < j < k - n implies t[j] != '>' by {
            assert(s[j + n] != '>');
        }
    }
}

/// Text in which no tag stands is left as it is.
pub proof fn law_tag_free_text_is_kept(s: Seq<char>)
    requires
        is_tag_free(s),
    ensures
        without_tags(s) == s,
    decreases s.len(),
{
    if s.len() > 0 {
        lemma_tag_at_start(s);
        assert(!tag_at(s, 0));
        assert forall|i: int| !(#[trigger] tag_at(s.skip(1), i)) by {
            if i >= 0 {
                lemma_tag_moves(s, 1, i);
                assert(!tag_at(s, 1 + i));
            }
        }
        law_tag_free_text_is_kept(s.skip(1));
        assert(seq![s[0]] + s.skip(1) == s);
    }
}

/// No tag is left in a text from which the tags were taken out.
pub proof fn law_stripped_text_is_tag_free(s: Seq<char>)
    ensures
        is_tag_free(without_tags(s)),
    decreases s.len(),
{
    if s.len() > 0 {
        lemma_find_from_bounds(s, seq!['>'], 0);
        lemma_tag_at_start(s);
        if tag_at(s, 0) {
            let k = find(s, seq!['>'])->0;
            law_stripped_text_is_tag_free(s.skip(k + 1));
        } else {
            let rest = s.skip(1);
            law_stripped_text_is_tag_free(rest);
            let stripped = without_tags(rest);
            let all = seq![s[0]] + stripped;
            assert(without_tags(s) == all);
            assert(all.skip(1) =~= stripped);
            assert forall|i: int| !(#[trigger] tag_at(all, i)) by {
                if i > 0 {
                    lemma_tag_moves(all, 1, i - 1);
                    assert(!tag_at(stripped, i - 1));
                } else if i == 0 && s[0] == '<' {
                    lemma_find_char(s, '>');
                    match find(s, seq!['>']) {
                        Some(k) => {
                            assert(rest[0] == '>');
                            assert(stripped[0] == '>');
                            assert(all[1] == '>');
                        },
                        None => {
                            assert forall|j: int| !(#[trigger] tag_at(rest, j)) by {
                                if tag_at(rest, j) {
                                    let k = choose|k: int|
                                        j + 2 <= k < rest.len() && #[trigger] rest[k] == '>';
                                    assert(s[k + 1] == '>');
                                    assert(s.contains('>'));
                                }
                            }
                            law_tag_free_text_is_kept(rest);
                            assert(all =~= s);
                        },
                    }
                }
            }
        }
    }
}

/// The first tag is taken out whole and nothing else with it: the text before it is kept,
/// and so is what the text behind it comes to without its own tags.
pub proof fn law_first_tag_is_taken_out(s: Seq<char>, i: int, k: int)
    requires
        0 <= i,
        i + 2 <= k < s.len(),
        s[i] == '<',
        s[k] == '>',
        forall|j: int| i < j < k ==> s[j] != '>',
        forall|h: int| 0 <= h < i ==> !#[trigger] tag_at(s, h),
    ensures
        without_tags(s) == s.take(i) + without_tags(s.skip(k + 1)),
    decreases i,
{
    lemma_tag_at_start(s);
    lemma_find_char(s, '>');
    if i == 0 {
        assert(s.contains('>'));
        let first = find(s, seq!['>'])->0;
        assert(s[first] == '>');
        assert(first == k);
        assert(s.take(0) + without_tags(s.skip(k + 1)) =~= without_tags(s.skip(k + 1)));
    } else {
        assert(!tag_at(s, 0));
        let rest = s.skip(1);
        assert forall|h: int| 0 <= h < i - 1 implies !#[trigger] tag_at(rest, h) by {
            lemma_tag_moves(s, 1, h);
            assert(!tag_at(s, h + 1));
        }
        assert forall|j: int| i - 1 < j < k - 1 implies rest[j] != '>' by {
            assert(s[j + 1] != '>');
        }
        law_first_tag_is_taken_out(rest, i - 1, k - 1);
        assert(rest.skip(k) =~= s.skip(k + 1));
        assert(seq![s[0]] + rest.take(i - 1) =~= s.take(i));
        assert(without_tags(s) =~= s.take(i) + without_tags(s.skip(k + 1)));
    }
}

/// To take the tags out a second time changes nothing.
pub proof fn law_stripping_twice_is_stripping_once(s: Seq<char>)
    ensures
        without_tags(without_tags(s)) == without_tags(s),
{
    law_stripped_text_is_tag_free(s);
    law_tag_free_text_is_kept(without_tags(s));
}

// ---- Addresses ----

proof fn lemma_find_skips_nothing(s: Seq<char>, needle: Seq<char>, i: int)
    requires
        0 <= i,
    ensures
        find_from(s, needle, i) matches Some(k) ==> forall|j: int|
            i <= j < k ==> !(#[trigger] occurs_at(s, needle, j)),
    decreases s.len() - i + 1,
{
    if i + needle.len() <= s.len() && !occurs_at(s, needle, i) {
        lemma_find_skips_nothing(s, needle, i + 1);
    }
}

proof fn lemma_before_next_parameter(text: Seq<char>, tail: Seq<char>)
    requires
        tail.len() == 0 || tail[0] == '&',
    ensures
        before(url_encoded(text) + tail, "&"@) == url_encoded(text),
{
    reveal_strlit("&");
    assert("&"@ =~= seq!['&']);
    let coded = url_encoded(text);
    let all = coded + tail;
    law_encoded_text_is_url_safe(text);
    assert forall|i: int| 0 <= i < coded.len() implies all[i] != '&' by {
        assert(is_url_char(url_encoded(text)[i]));
    }
    lemma_find_char(all, '&');
    if tail.len() > 0 {
        assert(all[coded.len() as int] == '&');
        assert(all.contains('&'));
        assert(find(all, seq!['&']) == Some(coded.len() as int));
        assert(all.take(coded.len() as int) =~= coded);
    } else {
        assert(all =~= coded);
        assert(find(all, seq!['&']) is None);
    }
}

/// What the parameter holds that stands in `url` right behind `head`.
pub open spec fn parameter_behind(url: Seq<char>, head: Seq<char>) -> Option<Seq<char>> {
    match behind(url, head) {
        Some(rest) => url_decoded(before(rest, "&"@)),
        None => None,
    }
}

proof fn lemma_parameter_behind(head: Seq<char>, text: Seq<char>, tail: Seq<char>)
    requires
        tail.len() == 0 || tail[0] == '&',
    ensures
        parameter_behind(head + url_encoded(text) + tail, head) == Some(text),
{
    let url = head + url_encoded(text) + tail;
    assert(url.subrange(0, head.len() as int) =~= head);
    assert(url.skip(head.len() as int) =~= url_encoded(text) + tail);
    lemma_before_next_parameter(text, tail);
    law_decoding_undoes_encoding(text);
}

/// Each address that a search asks for carries the query as it is.
pub proof fn law_addresses_carry_the_query(query: Seq<char>, vqd: Seq<char>, count: nat)
    ensures
        parameter_behind(search_url(query), "https://html.duckduckgo.com/html/?q="@) == Some(
            query,
        ),
        parameter_behind(vqd_url(query), "https://duckduckgo.com/?q="@) == Some(query),
        parameter_behind(
            news_url(query, vqd),
            "https://duckduckgo.com/news.js?l=wt-wt&o=json&q="@,
        ) == Some(query),
        parameter_behind(
            brave_url(query, count),
            "https://api.search.brave.com/res/v1/web/search?q="@,
        ) == Some(query),
{
    let none = Seq::<char>::empty();
    let web = "https://html.duckduckgo.com/html/?q="@;
    lemma_parameter_behind(web, query, none);
    assert(search_url(query) =~= web + url_encoded(query) + none);
    let page = "https://duckduckgo.com/?q="@;
    lemma_parameter_behind(page, query, none);
    assert(vqd_url(query) =~= page + url_encoded(query) + none);
    let news = "https://duckduckgo.com/news.js?l=wt-wt&o=json&q="@;
    let news_tail = "&vqd="@ + vqd + "&p=-1&s=0"@;
    reveal_strlit("&vqd=");
    lemma_parameter_behind(news, query, news_tail);
    assert(news_url(query, vqd) =~= news + url_encoded(query) + news_tail);
    let brave = "https://api.search.brave.com/res/v1/web/search?q="@;
    let brave_tail = "&count="@ + decimal(count);
    reveal_strlit("&count=");
    lemma_parameter_behind(brave, query, brave_tail);
    assert(brave_url(query, count) =~= brave + url_encoded(query) + brave_tail);
}

proof fn lemma_vqd_run(s: Seq<char>)
    ensures
        forall|i: int| 0 <= i < vqd_run(s).len() ==> is_vqd_char(#[trigger] vqd_run(s)[i]),
    decreases s.len(),
{
    if s.len() > 0 && is_vqd_char(s[0]) {
        lemma_vqd_run(s.skip(1));
        let rest = vqd_run(s.skip(1));
        assert forall|i: int| 0 <= i < vqd_run(s).len() implies is_vqd_char(
            #[trigger] vqd_run(s)[i],
        ) by {
            assert(i > 0 ==> vqd_run(s)[i] == rest[i - 1]);
        }
    }
}

/// The token that is read from a page is not empty and can stand in an address as it
/// is.
pub proof fn law_token_is_url_safe(page: Seq<char>)
    ensures
        vqd_in(page) matches Ok(vqd) ==> vqd.len() > 0 && forall|i: int|
            0 <= i < vqd.len() ==> is_vqd_char(#[trigger] vqd[i]) && is_url_char(vqd[i]),
    decreases page.len(),
{
    if let Some(vqd) = vqd_at(page) {
        let rest = behind(page, "vqd="@)->0;
        lemma_vqd_run(rest.skip(1));
    } else if page.len() > 0 {
        law_token_is_url_safe(page.skip(1));
    }
}

proof fn lemma_nothing_to_decode(bytes: Seq<u8>)
    requires
        forall|i: int| 0 <= i < bytes.len() ==> bytes[i] != '%' as u8,
    ensures
        percent_decoded(bytes) == bytes,
    decreases bytes.len(),
{
    if bytes.len() > 0 {
        lemma_nothing_to_decode(bytes.skip(1));
        assert(seq![bytes[0]] + bytes.skip(1) =~= bytes);
    }
}

/// The address of the news carries the token that was read from a page as it is.
pub proof fn law_news_address_carries_the_token(
    query: Seq<char>,
    page: Seq<char>,
    vqd: Seq<char>,
)
    requires
        vqd_in(page) == Ok::<Seq<char>, ErrorView>(vqd),
    ensures
        parameter_behind(
            news_url(query, vqd),
            "https://duckduckgo.com/news.js?l=wt-wt&o=json&q="@ + url_encoded(query) + "&vqd="@,
        ) == Some(vqd),
{
    let head = "https://duckduckgo.com/news.js?l=wt-wt&o=json&q="@ + url_encoded(query)
        + "&vqd="@;
    let tail = "&p=-1&s=0"@;
    let url = news_url(query, vqd);
    let rest = vqd + tail;
    law_token_is_url_safe(page);
    reveal_strlit("&");
    reveal_strlit("&p=-1&s=0");
    assert("&"@ =~= seq!['&']);
    assert(url.subrange(0, head.len() as int) =~= head);
    assert(url.skip(head.len() as int) =~= rest);
    assert(rest[vqd.len() as int] == '&');
    assert(rest.contains('&'));
    assert forall|i: int| 0 <= i < vqd.len() implies rest[i] != '&' by {
        assert(is_vqd_char(vqd[i]));
    }
    lemma_find_char(rest, '&');
    assert(rest.take(vqd.len() as int) =~= vqd);
    assert forall|i: int| 0 <= i < vqd.len() implies '\0' <= #[trigger] vqd[i] <= '\u{7f}' by {
        lemma_no_char_below_nul(vqd[i]);
        assert(is_vqd_char(vqd[i]));
    }
    is_ascii_chars_encode_utf8(vqd);
    assert forall|i: int| 0 <= i < encode_utf8(vqd).len() implies encode_utf8(vqd)[i]
        != '%' as u8 by {
        assert(is_vqd_char(vqd[i]));
        assert(encode_utf8(vqd)[i] == vqd[i] as u8);
    }
    lemma_nothing_to_decode(encode_utf8(vqd));
    encode_utf8_valid_utf8(vqd);
    encode_utf8_decode_utf8(vqd);
}

/// A redirect link leads to the address that its parameter `uddg` holds, whatever
/// parameters follow.
pub proof fn law_redirect_leads_to_its_target(
    head: Seq<char>,
    target: Seq<char>,
    tail: Seq<char>,
)
    requires
        find(head + "uddg="@, "uddg="@) == Some(head.len() as int),
        tail.len() == 0 || tail[0] == '&',
    ensures
        redirect_target(head + "uddg="@ + url_encoded(target) + tail) == target,
{
    reveal_strlit("uddg=");
    let needle = "uddg="@;
    let short = head + needle;
    let url = head + needle + url_encoded(target) + tail;
    lemma_find_skips_nothing(short, needle, 0);
    assert(url.subrange(head.len() as int, head.len() as int + 5) =~= needle);
    assert forall|j: int| 0 <= j < head.len() implies !(#[trigger] occurs_at(url, needle, j)) by {
        assert(url.subrange(j, j + 5) =~= short.subrange(j, j + 5));
        assert(!occurs_at(short, needle, j));
    }
    lemma_find_is_first(url, needle, 0, head.len() as int);
    assert(url.skip(head.len() as int + 5) =~= url_encoded(target) + tail);
    lemma_before_next_parameter(target, tail);
    law_decoding_undoes_encoding(target);
}

/// A link without the parameter `uddg` leads to where it points.
pub proof fn law_plain_link_is_kept(raw_url: Seq<char>)
    requires
        find(raw_url, "uddg="@) is None,
    ensures
        redirect_target(raw_url) == raw_url,
{
}

// ---- Reports ----

/// No result link is skipped: none starts before the first one that was found, between
/// two successive ones, or behind the last one.
pub proof fn law_no_link_is_skipped(
    html: Seq<char>,
    links: Seq<LinkView>,
    i: int,
    start: int,
    end: int,
    href: Seq<char>,
    title: Seq<char>,
)
    requires
        are_links_of(html, links),
        link_in(html, start, end, href, title),
    ensures
        links.len() > 0,
        links[0].start <= start < links.last().end,
        0 <= i < links.len() - 1 ==> !(links[i].end <= start < links[i + 1].start),
{
    assert(is_covered(links, start));
    let k = choose|k: int|
        0 <= k < links.len() && (#[trigger] links[k]).start <= start < links[k].end;
    lemma_links_apart(html, links, 0, k);
    lemma_links_apart(html, links, k, links.len() - 1);
    if 0 <= i < links.len() - 1 {
        if k <= i {
            lemma_links_apart(html, links, k, i);
        } else {
            lemma_links_apart(html, links, i + 1, k);
        }
    }
}

/// A link that is spelled out in the page's bytes from `start` to `end` is found, or else
/// starts inside another that is: an `a` with `result__a` in its class, then an address in
/// its `href`, and a title up to the first end of the `a`.
pub proof fn law_spelled_link_is_found(
    html: Seq<char>,
    links: Seq<LinkView>,
    start: int,
    end: int,
    before_class: Seq<char>,
    class_head: Seq<char>,
    class_tail: Seq<char>,
    before_href: Seq<char>,
    href: Seq<char>,
    after_href: Seq<char>,
    title: Seq<char>,
)
    requires
        are_links_of(html, links),
        0 <= start <= end <= encode_utf8(html).len(),
        is_char_boundary(encode_utf8(html), start),
        is_char_boundary(encode_utf8(html), end),
        decode_utf8(encode_utf8(html).subrange(start, end)) == "<a"@ + before_class + "class=\""@
            + class_head + "result__a"@ + class_tail + "\""@ + before_href + "href=\""@ + (href
            + "\""@ + after_href + ">"@ + title + "</a>"@),
        !before_class.contains('>'),
        !class_head.contains('"'),
        !class_tail.contains('"'),
        !before_href.contains('>'),
        href.len() > 0,
        !href.contains('"'),
        !after_href.contains('>'),
        forall|k: int|
            0 <= k < title.len() ==> !#[trigger] occurs_at(title + "</a>"@, "</a>"@, k),
    ensures
        exists|i: int|
            0 <= i < links.len() && (#[trigger] links[i]).start <= start < links[i].end,
{
    let close = "</a>"@;
    let at = title.len() as int;
    assert((title + close).subrange(at, at + close.len()) =~= close);
    lemma_find_is_first(title + close, close, 0, at);
    let parts = LinkParts { before_class, class_head, class_tail, before_href, after_href };
    assert(reads_as(html, start, end, href, title, parts));
    assert(link_in(html, start, end, href, title));
    assert(is_covered(links, start));
}

/// Each link that is found stands in the page as it is told: its address is not empty and
/// ends at the next quote, and its title ends at the next end of an `a`, with which the
/// link ends too.
pub proof fn law_found_link_stands_in_the_page(html: Seq<char>, links: Seq<LinkView>, i: int)
    requires
        are_links_of(html, links),
        0 <= i < links.len(),
    ensures
        links[i].href.len() > 0,
        !links[i].href.contains('"'),
        forall|k: int|
            0 <= k < links[i].title.len() ==> !#[trigger] occurs_at(
                links[i].title + "</a>"@,
                "</a>"@,
                k,
            ),
        exists|head: Seq<char>, after_href: Seq<char>|
            !after_href.contains('>') && decode_utf8(
                encode_utf8(html).subrange(links[i].start, links[i].end),
            ) == #[trigger] (head + "href=\""@ + (links[i].href + "\""@ + after_href + ">"@
                + links[i].title + "</a>"@)),
{
    let link = links[i];
    let parts = choose|parts: LinkParts| #[trigger]
        reads_as(html, link.start, link.end, link.href, link.title, parts) && is_first_reading(
            html,
            link.start,
            parts,
        );
    assert(is_link_of(byte_range(html, link.start, link.end), link.href, link.title, parts));
    let head = "<a"@ + parts.before_class + "class=\""@ + parts.class_head + "result__a"@
        + parts.class_tail + "\""@ + parts.before_href;
    assert(decode_utf8(encode_utf8(html).subrange(link.start, link.end)) == head + "href=\""@ + (
    link.href + "\""@ + parts.after_href + ">"@ + link.title + "</a>"@));
    lemma_find_skips_nothing(link.title + "</a>"@, "</a>"@, 0);
}

proof fn lemma_links_apart(html: Seq<char>, links: Seq<LinkView>, i: int, j: int)
    requires
        links_in_order(html, links),
        0 <= i <= j < links.len(),
    ensures
        links[i].start <= links[j].start,
        links[i].end <= links[j].end,
{
    assert(links[i].start <= links[i].end && links[j].start <= links[j].end);
}

/// Two texts up to a mark that is not in them are the same where they begin the same
/// text.
proof fn lemma_same_up_to_mark(s: Seq<char>, mark: char, x: Seq<char>, y: Seq<char>)
    requires
        !x.contains(mark),
        !y.contains(mark),
        x.len() < s.len(),
        y.len() < s.len(),
        s.take(x.len() as int) == x,
        s.take(y.len() as int) == y,
        s[x.len() as int] == mark,
        s[y.len() as int] == mark,
    ensures
        x == y,
{
    if x.len() < y.len() {
        assert(y[x.len() as int] == s.take(y.len() as int)[x.len() as int]);
        assert(y.contains(mark));
    } else if y.len() < x.len() {
        assert(x[y.len() as int] == s.take(x.len() as int)[y.len() as int]);
        assert(x.contains(mark));
    }
}

/// Two titles that end at the first `</a>` are the same where they begin the same text.
proof fn lemma_same_up_to_end(s: Seq<char>, x: Seq<char>, y: Seq<char>)
    requires
        find(x + "</a>"@, "</a>"@) == Some(x.len() as int),
        find(y + "</a>"@, "</a>"@) == Some(y.len() as int),
        x.len() + "</a>"@.len() <= s.len(),
        y.len() + "</a>"@.len() <= s.len(),
        s.take((x.len() + "</a>"@.len()) as int) == x + "</a>"@,
        s.take((y.len() + "</a>"@.len()) as int) == y + "</a>"@,
    ensures
        x == y,
{
    let mark = "</a>"@;
    let n = mark.len() as int;
    if x.len() < y.len() {
        lemma_not_longer(s, x, y);
    } else if y.len() < x.len() {
        lemma_not_longer(s, y, x);
    }
    assert(x =~= s.take(x.len() + n).take(x.len() as int)) by {
        assert((x + mark).take(x.len() as int) =~= x);
    }
    assert(y =~= s.take(y.len() + n).take(y.len() as int)) by {
        assert((y + mark).take(y.len() as int) =~= y);
    }
}

proof fn lemma_not_longer(s: Seq<char>, x: Seq<char>, y: Seq<char>)
    requires
        find(y + "</a>"@, "</a>"@) == Some(y.len() as int),
        x.len() + "</a>"@.len() <= s.len(),
        y.len() + "</a>"@.len() <= s.len(),
        s.take((x.len() + "</a>"@.len()) as int) == x + "</a>"@,
        s.take((y.len() + "</a>"@.len()) as int) == y + "</a>"@,
    ensures
        !(x.len() < y.len()),
{
    let mark = "</a>"@;
    let n = mark.len() as int;
    let k = x.len() as int;
    if x.len() < y.len() {
        let all = y + mark;
        lemma_find_skips_nothing(all, mark, 0);
        assert(all.subrange(k, k + n) =~= s.subrange(k, k + n)) by {
            assert(all =~= s.take(y.len() + n));
        }
        assert(s.subrange(k, k + n) =~= (x + mark).subrange(k, k + n)) by {
            assert(x + mark =~= s.take(k + n));
        }
        assert((x + mark).subrange(k, k + n) =~= mark);
        assert(occurs_at(all, mark, k));
    }
}

/// What stands behind the head of a link.
spec fn link_tail(href: Seq<char>, title: Seq<char>, parts: LinkParts) -> Seq<char> {
    href + "\""@ + parts.after_href + ">"@ + title + "</a>"@
}

proof fn lemma_same_tail(
    s: Seq<char>,
    href1: Seq<char>,
    title1: Seq<char>,
    parts1: LinkParts,
    href2: Seq<char>,
    title2: Seq<char>,
    parts2: LinkParts,
)
    requires
        !href1.contains('"'),
        !href2.contains('"'),
        !parts1.after_href.contains('>'),
        !parts2.after_href.contains('>'),
        find(title1 + "</a>"@, "</a>"@) == Some(title1.len() as int),
        find(title2 + "</a>"@, "</a>"@) == Some(title2.len() as int),
        link_tail(href1, title1, parts1).len() <= s.len(),
        link_tail(href2, title2, parts2).len() <= s.len(),
        s.take(link_tail(href1, title1, parts1).len() as int) == link_tail(href1, title1, parts1),
        s.take(link_tail(href2, title2, parts2).len() as int) == link_tail(href2, title2, parts2),
    ensures
        href1 == href2,
        title1 == title2,
        parts1.after_href == parts2.after_href,
{
    lemma_tail_pieces(s, href1, title1, parts1);
    lemma_tail_pieces(s, href2, title2, parts2);
    lemma_same_up_to_mark(s, '"', href1, href2);
    let s1 = s.skip(href1.len() as int + 1);
    lemma_same_up_to_mark(s1, '>', parts1.after_href, parts2.after_href);
    let s2 = s1.skip(parts1.after_href.len() as int + 1);
    lemma_same_up_to_end(s2, title1, title2);
}

proof fn lemma_tail_pieces(s: Seq<char>, href: Seq<char>, title: Seq<char>, parts: LinkParts)
    requires
        link_tail(href, title, parts).len() <= s.len(),
        s.take(link_tail(href, title, parts).len() as int) == link_tail(href, title, parts),
    ensures
        href.len() < s.len(),
        s.take(href.len() as int) == href,
        s[href.len() as int] == '"',
        ({
            let s1 = s.skip(href.len() as int + 1);
            let e = parts.after_href;
            let s2 = s1.skip(e.len() as int + 1);
            &&& e.len() < s1.len()
            &&& s1.take(e.len() as int) == e
            &&& s1[e.len() as int] == '>'
            &&& title.len() + "</a>"@.len() <= s2.len()
            &&& s2.take((title.len() + "</a>"@.len()) as int) == title + "</a>"@
        }),
{
    reveal_strlit("\"");
    reveal_strlit(">");
    let tail = link_tail(href, title, parts);
    let e = parts.after_href;
    let end = title + "</a>"@;
    let h = href.len() as int;
    let k = e.len() as int;
    assert(forall|i: int| 0 <= i < tail.len() ==> s[i] == tail[i]) by {
        assert(forall|i: int|
            0 <= i < tail.len() ==> #[trigger] s.take(tail.len() as int)[i] == s[i]);
    }
    assert(tail =~= href + seq!['"'] + e + seq!['>'] + end);
    assert(s.take(h) =~= href);
    let s1 = s.skip(h + 1);
    assert(s1.take(k) =~= e);
    let s2 = s1.skip(k + 1);
    assert(s2.take(end.len() as int) =~= end);
}

/// From one start, the preferred way to read a result link is one only.
pub proof fn law_one_link_is_read_from_a_start(
    html: Seq<char>,
    start: int,
    end1: int,
    href1: Seq<char>,
    title1: Seq<char>,
    end2: int,
    href2: Seq<char>,
    title2: Seq<char>,
)
    requires
        link_read_in(html, start, end1, href1, title1),
        link_read_in(html, start, end2, href2, title2),
    ensures
        end1 == end2,
        href1 == href2,
        title1 == title2,
{
    let p1 = choose|parts: LinkParts| #[trigger]
        reads_as(html, start, end1, href1, title1, parts) && is_first_reading(
            html,
            start,
            parts,
        );
    let p2 = choose|parts: LinkParts| #[trigger]
        reads_as(html, start, end2, href2, title2, parts) && is_first_reading(
            html,
            start,
            parts,
        );
    assert(p1.precedes(p2));
    assert(p2.precedes(p1));
    assert(p1.head().len() == p2.head().len());
    let size = encode_utf8(html).len() as int;
    encode_utf8_valid_utf8(html);
    is_char_boundary_start_end_of_seq(encode_utf8(html));
    lemma_byte_range(html, start, end1, size);
    lemma_byte_range(html, start, end2, size);
    let rest = byte_range(html, start, size);
    let link1 = byte_range(html, start, end1);
    let link2 = byte_range(html, start, end2);
    let tail1 = link_tail(href1, title1, p1);
    let tail2 = link_tail(href2, title2, p2);
    let n = p1.head().len() as int;
    assert(link1 == p1.head() + tail1);
    assert(link2 == p2.head() + tail2);
    let s = rest.skip(n);
    assert(s.take(tail1.len() as int) =~= tail1) by {
        assert(rest.take(link1.len() as int).skip(n) =~= tail1);
    }
    assert(s.take(tail2.len() as int) =~= tail2) by {
        assert(rest.take(link2.len() as int).skip(n) =~= tail2);
    }
    lemma_same_tail(s, href1, title1, p1, href2, title2, p2);
    assert(link1.len() == link2.len());
    assert(link1 == link2);
    assert(encode_utf8(html).subrange(start, end1).len() == end1 - start);
    assert(encode_utf8(html).subrange(start, end2).len() == end2 - start);
}

proof fn lemma_next_start(html: Seq<char>, links: Seq<LinkView>, others: Seq<LinkView>, i: int)
    requires
        are_links_of(html, links),
        are_links_of(html, others),
        0 <= i < links.len(),
        i <= others.len(),
        forall|j: int| 0 <= j < i ==> links[j] == others[j],
    ensures
        i < others.len(),
        others[i].start <= links[i].start,
{
    let link = links[i];
    assert(link_read_in(html, link.start, link.end, link.href, link.title));
    assert(link_in(html, link.start, link.end, link.href, link.title));
    assert(is_covered(others, link.start));
    let k = choose|k: int|
        0 <= k < others.len() && (#[trigger] others[k]).start <= link.start < others[k].end;
    if k < i {
        assert(links[k] == others[k]);
        assert(links[k].end <= links[i].start);
    } else {
        lemma_links_apart(html, others, i, k);
    }
}

proof fn lemma_links_agree(html: Seq<char>, links: Seq<LinkView>, others: Seq<LinkView>, i: int)
    requires
        are_links_of(html, links),
        are_links_of(html, others),
        0 <= i <= links.len(),
        i <= others.len(),
        forall|j: int| 0 <= j < i ==> links[j] == others[j],
    ensures
        links == others,
    decreases links.len() - i,
{
    if i < links.len() {
        lemma_next_start(html, links, others, i);
        lemma_next_start(html, others, links, i);
        let a = links[i];
        let b = others[i];
        assert(link_read_in(html, a.start, a.end, a.href, a.title));
        assert(link_read_in(html, b.start, b.end, b.href, b.title));
        law_one_link_is_read_from_a_start(
            html,
            a.start,
            a.end,
            a.href,
            a.title,
            b.end,
            b.href,
            b.title,
        );
        assert(a == b);
        lemma_links_agree(html, links, others, i + 1);
    } else if i < others.len() {
        lemma_next_start(html, others, links, i);
    } else {
        assert(links =~= others);
    }
}

/// A page has one list of result links only, and so one report.
pub proof fn law_page_determines_its_links(
    tool: ToolView,
    html: Seq<char>,
    query: Seq<char>,
    links: Seq<LinkView>,
    others: Seq<LinkView>,
)
    requires
        are_links_of(html, links),
        are_links_of(html, others),
    ensures
        links == others,
        web_report(tool, html, query, links) == web_report(tool, html, query, others),
{
    lemma_links_agree(html, links, others, 0);
}

/// A page without a result link is answered that nothing was found, any other page with
/// a report that lists at least one.
pub proof fn law_no_results_without_links(
    tool: ToolView,
    html: Seq<char>,
    query: Seq<char>,
    links: Seq<LinkView>,
)
    requires
        tool.well_formed(),
        are_links_of(html, links),
    ensures
        !has_link(html) ==> web_report(tool, html, query, links) == "No results found for: "@
            + query,
        has_link(html) ==> link_entries(tool, html, links).len() >= 1,
        has_link(html) ==> web_report(tool, html, query, links) == report(
            "Search results for: "@ + query + " (via DuckDuckGo)"@,
            link_entries(tool, html, links),
        ),
{
}

/// The stretch in which the snippet of a result is looked for lies behind the link of
/// that result and before the link of every later one, so that no two of these
/// stretches overlap.
pub proof fn law_snippet_areas_do_not_overlap(
    html: Seq<char>,
    links: Seq<LinkView>,
    i: int,
    j: int,
)
    requires
        links_in_order(html, links),
        0 <= i < j < links.len(),
    ensures
        links[i].end <= area_end(html, links, i) <= links[j].start <= links[j].end <= area_end(
            html,
            links,
            j,
        ) <= encode_utf8(html).len(),
{
    assert(links[i + 1].start <= links[i + 1].end);
    if i + 1 < j {
        assert(links[i + 1].end <= links[j].start);
    }
    if j + 1 < links.len() {
        assert(links[j].end <= links[j + 1].start);
        assert(links[j + 1].start <= links[j + 1].end <= encode_utf8(html).len());
    }
}

/// A result gets no snippet when none stands between its link and the next one: its
/// lines are those of the title and the address.
pub proof fn law_no_snippet_of_another_result(
    html: Seq<char>,
    links: Seq<LinkView>,
    i: int,
    n: nat,
)
    requires
        0 <= i < links.len(),
        first_snippet(snippet_area(html, links, i)) is None,
    ensures
        link_entry(html, links, i).note.len() == 0,
        entry_lines(n, link_entry(html, links, i)) == seq![
            decimal(n) + ". "@ + link_entry(html, links, i).title,
            indented(link_entry(html, links, i).url),
        ],
{
}

/// A result gets the first snippet that stands between its link and the next one,
/// without tags and without white space around it, unless nothing is left of it.
pub proof fn law_own_snippet_is_shown(
    html: Seq<char>,
    links: Seq<LinkView>,
    i: int,
    n: nat,
    snippet: Seq<char>,
)
    requires
        0 <= i < links.len(),
        first_snippet(snippet_area(html, links, i)) == Some(snippet),
        trimmed(without_tags(snippet)).len() > 0,
    ensures
        entry_lines(n, link_entry(html, links, i)) == seq![
            decimal(n) + ". "@ + link_entry(html, links, i).title,
            indented(link_entry(html, links, i).url),
            indented(trimmed(without_tags(snippet))),
        ],
{
}

/// A report on anything that was found lists at least one and at most ten of it, and
/// no more than the tool's limit.
pub proof fn law_reports_are_limited(
    tool: ToolView,
    html: Seq<char>,
    links: Seq<LinkView>,
    results: Seq<JsonView>,
)
    requires
        tool.well_formed(),
    ensures
        link_entries(tool, html, links).len() <= links.len(),
        link_entries(tool, html, links).len() <= tool.max_results <= 10,
        links.len() > 0 ==> link_entries(tool, html, links).len() >= 1,
        brave_entries(tool, results).len() <= results.len(),
        brave_entries(tool, results).len() <= tool.max_results,
        results.len() > 0 ==> brave_entries(tool, results).len() >= 1,
        news_entries(tool, results).len() <= results.len(),
        news_entries(tool, results).len() <= tool.max_results,
        results.len() > 0 ==> news_entries(tool, results).len() >= 1,
{
}

/// A report begins with its heading and has, in their order and numbered from 1, the
/// lines of every entry.
pub proof fn law_every_entry_is_listed(heading: Seq<char>, entries: Seq<EntryView>, k: int)
    requires
        0 <= k < entries.len(),
    ensures
        report_lines(heading, entries)[0] == heading,
        ({
            let lines = report_lines(heading, entries);
            let above = report_lines(heading, entries.take(k));
            let own = entry_lines((k + 1) as nat, entries[k]);
            above.len() + own.len() <= lines.len() && lines.subrange(
                above.len() as int,
                (above.len() + own.len()) as int,
            ) == own
        }),
    decreases entries.len(),
{
    let fewer = entries.drop_last();
    let lines = report_lines(heading, entries);
    let start = report_lines(heading, fewer);
    let own = entry_lines((k + 1) as nat, entries[k]);
    let above = report_lines(heading, entries.take(k));
    lemma_heading_comes_first(heading, fewer);
    if k == entries.len() - 1 {
        assert(entries.take(k) =~= fewer);
        assert(lines.subrange(above.len() as int, (above.len() + own.len()) as int) =~= own);
    } else {
        law_every_entry_is_listed(heading, fewer, k);
        assert(fewer.take(k) =~= entries.take(k));
        assert(lines.subrange(above.len() as int, (above.len() + own.len()) as int)
            =~= start.subrange(above.len() as int, (above.len() + own.len()) as int));
    }
}

proof fn lemma_heading_comes_first(heading: Seq<char>, entries: Seq<EntryView>)
    ensures
        report_lines(heading, entries).len() > 0,
        report_lines(heading, entries)[0] == heading,
    decreases entries.len(),
{
    if entries.len() > 0 {
        lemma_heading_comes_first(heading, entries.drop_last());
    }
}

// ---- The course of a search ----

/// The tool with another key, or none.
pub open spec fn with_key(tool: ToolView, key: Option<Seq<char>>) -> ToolView {
    ToolView { brave_api_key: key, ..tool }
}

/// The tool with another provider.
pub open spec fn with_provider(tool: ToolView, provider: Seq<char>) -> ToolView {
    ToolView { provider, ..tool }
}

/// DuckDuckGo goes by two names, and is searched with or without a key.
pub proof fn law_duckduckgo_needs_no_key(
    tool: ToolView,
    key: Option<Seq<char>>,
    args: ArgsView,
)
    ensures
        first_step(with_provider(tool, "ddg"@), args) == first_step(
            with_provider(tool, "duckduckgo"@),
            args,
        ),
        first_step(with_provider(tool, "duckduckgo"@), args) is Ok,
        first_step(with_key(with_provider(tool, "duckduckgo"@), key), args) == first_step(
            with_provider(tool, "duckduckgo"@),
            args,
        ),
{
}

/// Brave is searched only with a key, and in the same way for every type of search.
pub proof fn law_brave_needs_a_key(tool: ToolView, args: ArgsView, search_type: Seq<char>)
    requires
        tool.provider == "brave"@,
    ensures
        tool.brave_api_key is None ==> first_step(tool, args) == Err::<StepView, ErrorView>(
            ErrorView::MissingApiKey,
        ),
        tool.brave_api_key is Some <==> first_step(tool, args) is Ok,
        first_step(tool, args) == first_step(tool, ArgsView { search_type, ..args }),
{
    reveal_strlit("brave");
    reveal_strlit("ddg");
    reveal_strlit("duckduckgo");
    assert("brave"@ != "ddg"@) by {
        assert("brave"@.len() != "ddg"@.len());
    }
    assert("brave"@ != "duckduckgo"@) by {
        assert("brave"@.len() != "duckduckgo"@.len());
    }
}

/// Nothing is fetched for a search without a query, with a query of white space, or
/// with a provider that is not known.
pub proof fn law_refused_searches_fetch_nothing(tool: ToolView, args: JsonView)
    ensures
        args.text("query"@) is None ==> execute_step(tool, args) == Err::<StepView, ErrorView>(
            ErrorView::MissingQuery,
        ),
        (args.text("query"@) matches Some(query) && trimmed(query).len() == 0) ==> execute_step(
            tool,
            args,
        ) == Err::<StepView, ErrorView>(ErrorView::EmptyQuery),
        tool.provider != "duckduckgo"@ && tool.provider != "ddg"@ && tool.provider != "brave"@
            && read_args(args) is Ok ==> execute_step(tool, args) == Err::<StepView, ErrorView>(
            ErrorView::UnknownProvider(tool.provider),
        ),
{
}

/// The type of search counts without regard to the case of its letters.
pub proof fn law_search_type_ignores_case(
    tool: ToolView,
    args: ArgsView,
    search_type: Seq<char>,
)
    requires
        ascii_lowercase(search_type) == ascii_lowercase(args.search_type),
    ensures
        first_step(tool, ArgsView { search_type, ..args }) == first_step(tool, args),
{
}

/// A search fetches at most twice. It begins with a page or with Brave's results; only
/// the page with the token is followed by another document, and every document ends
/// it.
pub proof fn law_search_ends_after_two_answers(
    tool: ToolView,
    args: ArgsView,
    page: Page,
    feed: Feed,
    query: Seq<char>,
    text: Seq<char>,
    json: JsonView,
)
    ensures
        first_step(tool, args) matches Ok(step) ==> step is FetchPage || (step matches
            StepView::FetchFeed { feed: f, .. } && f == Feed::Brave),
        page_step(tool, page, query, text) matches Ok(step) ==> step is Done || (page
            == Page::Token && (step matches StepView::FetchFeed { feed: f, .. } && f
            == Feed::News)),
        feed_step(tool, feed, query, json) matches Ok(step) ==> step is Done,
{
}

/// The request of a step, if it fetches anything.
pub open spec fn request_of(step: StepView) -> Option<RequestView> {
    match step {
        StepView::FetchPage { request, .. } => Some(request),
        StepView::FetchFeed { request, .. } => Some(request),
        StepView::Done { .. } => None,
    }
}

/// The query of a step, if it fetches anything.
pub open spec fn query_of(step: StepView) -> Option<Seq<char>> {
    match step {
        StepView::FetchPage { query, .. } => Some(query),
        StepView::FetchFeed { query, .. } => Some(query),
        StepView::Done { .. } => None,
    }
}

/// Every request of a search has the tool's timeout, and the query stays the same to
/// its end.
pub proof fn law_requests_keep_timeout_and_query(
    tool: ToolView,
    args: ArgsView,
    page: Page,
    query: Seq<char>,
    text: Seq<char>,
)
    ensures
        first_step(tool, args) matches Ok(step) ==> (request_of(step) matches Some(request)
            && request.timeout_secs == tool.timeout_secs) && query_of(step) == Some(args.query),
        page_step(tool, page, query, text) matches Ok(step) ==> (request_of(step) matches Some(
            request,
        ) ==> request.timeout_secs == tool.timeout_secs && query_of(step) == Some(query)),
{
}

/// An answer that ends a search reports success and no error.
pub proof fn law_answers_report_success(
    tool: ToolView,
    page: Page,
    feed: Feed,
    query: Seq<char>,
    text: Seq<char>,
    json: JsonView,
)
    ensures
        page_step(tool, page, query, text) matches Ok(StepView::Done { result }) ==> result.success
            && result.error is None,
        feed_step(tool, feed, query, json) matches Ok(StepView::Done { result }) ==> result.success
            && result.error is None,
{
}

} // verus!
