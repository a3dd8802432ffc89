//! The regular expressions that read DuckDuckGo's pages, and what they find.

use vstd::prelude::*;
use vstd::utf8::*;

use crate::text::{byte_range, can_cut, find, lemma_find_from_bounds, occurs_at};

verus! {

/// A result link: `<a class="result__a" href="...">Title</a>`. Its groups are the
/// address and the title.
pub const LINK_PATTERN: &'static str =
    r#"<a[^>]*class="[^"]*result__a[^"]*"[^>]*href="([^"]+)"[^>]*>([\s\S]*?)</a>"#;

/// A snippet: `<a class="result__snippet">...</a>`. Its group is what stands inside.
pub const SNIPPET_PATTERN: &'static str =
    r#"<a class="result__snippet[^"]*"[^>]*>([\s\S]*?)</a>"#;

/// A tag.
pub const TAG_PATTERN: &'static str = r"<[^>]+>";

/// The token that DuckDuckGo's news search asks for. Its group is the token itself.
pub const VQD_PATTERN: &'static str = r#"vqd=['"]([a-zA-Z0-9-]+)['"]"#;

/// What is left of `s` behind `prefix`, if `s` begins with it.
pub open spec fn behind(s: Seq<char>, prefix: Seq<char>) -> Option<Seq<char>> {
    if occurs_at(s, prefix, 0) {
        Some(s.skip(prefix.len() as int))
    } else {
        None
    }
}

/// `s` parted at the first `mark`: what stands before it and what stands behind.
pub open spec fn parted(s: Seq<char>, mark: Seq<char>) -> Option<(Seq<char>, Seq<char>)> {
    match find(s, mark) {
        Some(i) => Some((s.take(i), s.skip(i + mark.len()))),
        None => None,
    }
}

/// `s` without its tags. A tag is a `<`, one or more characters other than `>`, and
/// a `>`.
pub open spec fn without_tags(s: Seq<char>) -> Seq<char>
    decreases s.len(),
{
    if s.len() == 0 {
        s
    } else {
        proof {
            lemma_find_from_bounds(s, seq!['>'], 0);
        }
        match find(s, seq!['>']) {
            Some(i) if s[0] == '<' && i >= 2 => without_tags(s.skip(i + 1)),
            _ => seq![s[0]] + without_tags(s.skip(1)),
        }
    }
}

/// The text of the snippet that `s` begins with.
pub open spec fn snippet_at(s: Seq<char>) -> Option<Seq<char>> {
    match behind(s, "<a class=\"result__snippet"@) {
        Some(class_rest) => match parted(class_rest, seq!['"']) {
            Some((_, tag_rest)) => match parted(tag_rest, seq!['>']) {
                Some((_, inside)) => match parted(inside, "</a>"@) {
                    Some((text, _)) => Some(text),
                    None => None,
                },
                None => None,
            },
            None => None,
        },
        None => None,
    }
}

/// The text of the first snippet in `s`.
pub open spec fn first_snippet(s: Seq<char>) -> Option<Seq<char>>
    decreases s.len(),
{
    if snippet_at(s) is Some || s.len() == 0 {
        snippet_at(s)
    } else {
        first_snippet(s.skip(1))
    }
}

/// The characters of a news token.
pub open spec fn is_vqd_char(c: char) -> bool {
    'a' <= c <= 'z' || 'A' <= c <= 'Z' || '0' <= c <= '9' || c == '-'
}

pub open spec fn is_quote(c: char) -> bool {
    c == '\'' || c == '"'
}

/// The token characters that `s` begins with.
pub open spec fn vqd_run(s: Seq<char>) -> Seq<char>
    decreases s.len(),
{
    if s.len() > 0 && is_vqd_char(s[0]) {
        seq![s[0]] + vqd_run(s.skip(1))
    } else {
        Seq::empty()
    }
}

/// The token of the assignment that `s` begins with: `vqd=`, a quote, the token and
/// a quote.
pub open spec fn vqd_at(s: Seq<char>) -> Option<Seq<char>> {
    match behind(s, "vqd="@) {
        Some(rest) => {
            let token = vqd_run(rest.skip(1));
            if rest.len() > token.len() + 1 && is_quote(rest[0]) && token.len() > 0 && is_quote(
                rest[token.len() as int + 1],
            ) {
                Some(token)
            } else {
                None
            }
        },
        None => None,
    }
}

/// The first token in `s`.
pub open spec fn first_vqd(s: Seq<char>) -> Option<Seq<char>>
    decreases s.len(),
{
    if vqd_at(s) is Some || s.len() == 0 {
        vqd_at(s)
    } else {
        first_vqd(s.skip(1))
    }
}

/// The stretches between the fixed parts of a result link: before its class, in its
/// class before and behind `result__a`, before its address, and behind its address.
pub struct LinkParts {
    pub before_class: Seq<char>,
    pub class_head: Seq<char>,
    pub class_tail: Seq<char>,
    pub before_href: Seq<char>,
    pub after_href: Seq<char>,
}

impl LinkParts {
    /// The link up to its address.
    pub open spec fn head(self) -> Seq<char> {
        "<a"@ + self.before_class + "class=\""@ + self.class_head + "result__a"@ + self.class_tail
            + "\""@ + self.before_href + "href=\""@
    }

    /// Whether no reading from the same start is preferred to this one by greedy
    /// repetition: where the two first differ in the length of a stretch, this one has
    /// the longer stretch.
    pub open spec fn precedes(self, other: LinkParts) -> bool {
        if self.before_class.len() != other.before_class.len() {
            self.before_class.len() > other.before_class.len()
        } else if self.class_head.len() != other.class_head.len() {
            self.class_head.len() > other.class_head.len()
        } else if self.class_tail.len() != other.class_tail.len() {
            self.class_tail.len() > other.class_tail.len()
        } else {
            self.before_href.len() >= other.before_href.len()
        }
    }
}

/// Whether `link` is the text of a result link with that address and that title, put
/// together from those stretches.
pub open spec fn is_link_of(
    link: Seq<char>,
    href: Seq<char>,
    title: Seq<char>,
    parts: LinkParts,
) -> bool {
    &&& link == parts.head() + (href + "\""@ + parts.after_href + ">"@ + title + "</a>"@)
    &&& !parts.before_class.contains('>')
    &&& !parts.class_head.contains('"')
    &&& !parts.class_tail.contains('"')
    &&& !parts.before_href.contains('>')
    &&& !parts.after_href.contains('>')
    &&& !href.contains('"')
    &&& href.len() > 0
    &&& find(title + "</a>"@, "</a>"@) == Some(title.len() as int)
}

/// Whether `text` can be read from byte `start` to byte `end` as a result link that is
/// put together from those stretches.
pub open spec fn reads_as(
    text: Seq<char>,
    start: int,
    end: int,
    href: Seq<char>,
    title: Seq<char>,
    parts: LinkParts,
) -> bool {
    &&& 0 <= start <= end <= encode_utf8(text).len()
    &&& can_cut(text, start)
    &&& can_cut(text, end)
    &&& is_link_of(byte_range(text, start, end), href, title, parts)
}

/// Whether a result link stands in `text` from byte `start` to byte `end`.
pub open spec fn link_in(
    text: Seq<char>,
    start: int,
    end: int,
    href: Seq<char>,
    title: Seq<char>,
) -> bool {
    exists|parts: LinkParts| reads_as(text, start, end, href, title, parts)
}

/// Whether no other way to read a result link from byte `start` is preferred to that
/// with those stretches.
pub open spec fn is_first_reading(text: Seq<char>, start: int, parts: LinkParts) -> bool {
    forall|end: int, href: Seq<char>, title: Seq<char>, other: LinkParts| #[trigger]
        reads_as(text, start, end, href, title, other) ==> parts.precedes(other)
}

/// Whether that is the result link to be read from byte `start`, of all those that can
/// be read from there.
pub open spec fn link_read_in(
    text: Seq<char>,
    start: int,
    end: int,
    href: Seq<char>,
    title: Seq<char>,
) -> bool {
    exists|parts: LinkParts| #[trigger]
        reads_as(text, start, end, href, title, parts) && is_first_reading(text, start, parts)
}

/// Whether a result link stands anywhere in `text`.
pub open spec fn has_link(text: Seq<char>) -> bool {
    exists|start: int, end: int, href: Seq<char>, title: Seq<char>|
        link_in(text, start, end, href, title)
}

/// A match of a regular expression: the bytes at which it starts and ends, and the
/// text of each group that took part in it. The group at 0 is the whole match.
pub type MatchView = (usize, usize, Seq<Option<Seq<char>>>);

/// Whether the matches lie in `text` between characters, one behind the other.
pub open spec fn are_in_order(text: Seq<char>, found: Seq<MatchView>) -> bool {
    &&& forall|i: int|
        #![trigger found[i]]
        0 <= i < found.len() ==> found[i].0 <= found[i].1 <= encode_utf8(text).len() && can_cut(
            text,
            found[i].0 as int,
        ) && can_cut(text, found[i].1 as int)
    &&& forall|i: int, j: int|
        #![trigger found[i], found[j]]
        0 <= i < j < found.len() ==> found[i].1 <= found[j].0
}

/// Whether a match found a result link of `text`, with the address and the title in
/// its two groups.
pub open spec fn is_link_match(text: Seq<char>, found: MatchView) -> bool {
    &&& found.2.len() == 3
    &&& found.2[1] is Some
    &&& found.2[2] is Some
    &&& link_read_in(text, found.0 as int, found.1 as int, found.2[1]->0, found.2[2]->0)
}

/// Whether the byte at `start` lies inside one of the matches.
pub open spec fn starts_inside(found: Seq<MatchView>, start: int) -> bool {
    exists|i: int| 0 <= i < found.len() && (#[trigger] found[i]).0 <= start < found[i].1
}

/// The error of `regex::Regex::new`.
#[verifier::external_type_specification]
#[verifier::external_body]
pub struct ExRegexError(regex::Error);

/// What `regex::Regex::captures_iter` yields for a pattern on a text.
pub uninterp spec fn regex_captures_iter(pattern: Seq<char>, text: Seq<char>) -> Seq<MatchView>;

/// `regex::Regex::captures_iter`, on the pattern compiled by `regex::Regex::new`: all
/// successive matches, which depend on the pattern and the text alone. They do not
/// overlap, come from left to right and are bounded by whole characters.
/// [`LINK_PATTERN`] compiles. Each of its matches has the form that the pattern spells
/// out, with both groups taking part and the title ending at the first `</a>`. Of
/// several ways to read the form from the same start, it is the one that greedy
/// repetition prefers: the first repetition as long as can be, then the second, and so
/// on. Since each search goes on where the last match ended and finds the leftmost
/// match, every stretch of the text that has that form starts inside a match.
#[verifier::external_body]
pub(crate) fn captures_iter(pattern: &str, text: &str) -> (res: Result<
    Vec<(usize, usize, Vec<Option<String>>)>,
    regex::Error,
>)
    ensures
        pattern@ == LINK_PATTERN@ ==> res is Ok,
        res matches Ok(found) ==> found.deep_view() == regex_captures_iter(pattern@, text@),
        res matches Ok(found) ==> are_in_order(text@, found.deep_view()),
        res matches Ok(found) ==> pattern@ == LINK_PATTERN@ ==> forall|i: int|
            0 <= i < found@.len() ==> is_link_match(text@, #[trigger] found.deep_view()[i]),
        res matches Ok(found) ==> pattern@ == LINK_PATTERN@ ==> forall|
            start: int,
            end: int,
            href: Seq<char>,
            title: Seq<char>,
        | #[trigger]
            link_in(text@, start, end, href, title) ==> starts_inside(found.deep_view(), start),
{
    let regex = regex::Regex::new(pattern)?;
    let found = regex.captures_iter(text).map(
        |groups|
            {
                let whole = groups.get_match();
                let texts = groups.iter().map(|group| group.map(|m| m.as_str().to_string()));
                (whole.start(), whole.end(), texts.collect())
            },
    );
    Ok(found.collect())
}

/// The first group of `regex::Regex::captures`, on the pattern compiled by
/// `regex::Regex::new`: the text of that group in the leftmost match, if there is a match.
/// [`SNIPPET_PATTERN`] and [`VQD_PATTERN`] compile, and their matches have only one way to
/// go on from where they start, so that the group is the first snippet and the first
/// token.
#[verifier::external_body]
pub(crate) fn captures(pattern: &str, text: &str) -> (res: Result<Option<String>, regex::Error>)
    requires
        pattern@ == SNIPPET_PATTERN@ || pattern@ == VQD_PATTERN@,
    ensures
        res is Ok,
        pattern@ == SNIPPET_PATTERN@ ==> res->Ok_0.deep_view() == first_snippet(text@),
        pattern@ == VQD_PATTERN@ ==> res->Ok_0.deep_view() == first_vqd(text@),
{
    let regex = regex::Regex::new(pattern)?;
    let found = regex.captures(text);
    Ok(found.and_then(|groups| groups.get(1).map(|group| group.as_str().to_string())))
}

/// `regex::Regex::replace_all`, on the pattern compiled by `regex::Regex::new`: the text
/// with each of the successive matches replaced. [`TAG_PATTERN`] compiles, and to replace
/// it by nothing is to take the tags out.
#[verifier::external_body]
pub(crate) fn replace_all(pattern: &str, text: &str, replacement: &str) -> (res: Result<
    String,
    regex::Error,
>)
    requires
        pattern@ == TAG_PATTERN@,
        replacement@.len() == 0,
    ensures
        res is Ok,
        res->Ok_0@ == without_tags(text@),
{
    let regex = regex::Regex::new(pattern)?;
    Ok(regex.replace_all(text, replacement).into_owned())
}

/// Takes the tags out of `content`.
pub fn strip_tags(content: &str) -> (res: String)
    ensures
        res@ == without_tags(content@),
{
    proof {
        reveal_strlit("");
    }
    replace_all(TAG_PATTERN, content, "").unwrap()
}

/// A result link in a page: the bytes at which it starts and ends, its address and its
/// title, as the page has them.
pub struct ResultLink {
    pub start: usize,
    pub end: usize,
    pub href: String,
    pub title: String,
}

/// The view of a [`ResultLink`].
pub struct LinkView {
    pub start: int,
    pub end: int,
    pub href: Seq<char>,
    pub title: Seq<char>,
}

impl DeepView for ResultLink {
    type V = LinkView;

    open spec fn deep_view(&self) -> LinkView {
        LinkView {
            start: self.start as int,
            end: self.end as int,
            href: self.href@,
            title: self.title@,
        }
    }
}

/// The result link that a match of [`LINK_PATTERN`] found.
pub open spec fn link_of_match(found: MatchView) -> LinkView {
    LinkView {
        start: found.0 as int,
        end: found.1 as int,
        href: found.2[1]->0,
        title: found.2[2]->0,
    }
}

/// The result links that [`LINK_PATTERN`] finds in a page.
pub open spec fn result_links(html: Seq<char>) -> Seq<LinkView> {
    regex_captures_iter(LINK_PATTERN@, html).map_values(|found: MatchView| link_of_match(found))
}

/// Whether the links lie in the page between characters, one behind the other.
pub open spec fn links_in_order(html: Seq<char>, links: Seq<LinkView>) -> bool {
    &&& forall|i: int|
        #![trigger links[i]]
        0 <= i < links.len() ==> 0 <= links[i].start <= links[i].end <= encode_utf8(html).len()
            && can_cut(html, links[i].start) && can_cut(html, links[i].end)
    &&& forall|i: int, j: int|
        #![trigger links[i], links[j]]
        0 <= i < j < links.len() ==> links[i].end <= links[j].start
}

/// Whether `links` are the result links of a page: they lie in it one behind the other,
/// each is the one to be read from where it starts, and none is skipped, for each one in
/// the page starts inside one of them.
pub open spec fn are_links_of(html: Seq<char>, links: Seq<LinkView>) -> bool {
    &&& links_in_order(html, links)
    &&& forall|i: int|
        #![trigger links[i]]
        0 <= i < links.len() ==> link_read_in(
            html,
            links[i].start,
            links[i].end,
            links[i].href,
            links[i].title,
        )
    &&& forall|start: int, end: int, href: Seq<char>, title: Seq<char>| #[trigger]
        link_in(html, start, end, href, title) ==> is_covered(links, start)
    &&& links.len() > 0 <==> has_link(html)
}

/// Whether the byte at `start` lies inside one of the links.
pub open spec fn is_covered(links: Seq<LinkView>, start: int) -> bool {
    exists|i: int| 0 <= i < links.len() && (#[trigger] links[i]).start <= start < links[i].end
}

/// Finds the result links of a page.
pub fn find_result_links(html: &str) -> (res: Vec<ResultLink>)
    ensures
        res.deep_view() == result_links(html@),
        are_links_of(html@, res.deep_view()),
{
    let found = captures_iter(LINK_PATTERN, html).unwrap();
    let ghost all = found.deep_view();
    let mut res: Vec<ResultLink> = Vec::new();
    for i in 0..found.len()
        invariant
            all == found.deep_view(),
            forall|k: int| 0 <= k < all.len() ==> is_link_match(html@, #[trigger] all[k]),
            res.deep_view() == all.take(i as int).map_values(
                |m: MatchView| link_of_match(m),
            ),
    {
        let ghost done = res.deep_view();
        assert(is_link_match(html@, all[i as int]));
        let groups = &found[i].2;
        assert(groups.deep_view() == all[i as int].2);
        assert(groups@[1].deep_view() == all[i as int].2[1]);
        assert(groups@[2].deep_view() == all[i as int].2[2]);
        let href = groups[1].as_ref().unwrap().clone();
        let title = groups[2].as_ref().unwrap().clone();
        res.push(ResultLink { start: found[i].0, end: found[i].1, href, title });
        assert(res.deep_view() == done.push(link_of_match(all[i as int])));
        assert(all.take(i + 1) == all.take(i as int).push(all[i as int]));
    }
    proof {
        assert(all.take(all.len() as int) == all);
        assert forall|i: int| 0 <= i < all.len() implies {
            let link = #[trigger] res.deep_view()[i];
            link == link_of_match(all[i]) && link_read_in(
                html@,
                link.start,
                link.end,
                link.href,
                link.title,
            )
        } by {
            assert(is_link_match(html@, all[i]));
        }
        assert forall|start: int, end: int, href: Seq<char>, title: Seq<char>| #[trigger]
            link_in(html@, start, end, href, title) implies is_covered(
            res.deep_view(),
            start,
        ) by {
            assert(starts_inside(all, start));
            let i = choose|i: int|
                0 <= i < all.len() && (#[trigger] all[i]).0 <= start < all[i].1;
            assert(res.deep_view()[i] == link_of_match(all[i]));
        }
        if res@.len() > 0 {
            let link = res.deep_view()[0];
            assert(link_read_in(html@, link.start, link.end, link.href, link.title));
            assert(link_in(html@, link.start, link.end, link.href, link.title));
        }
    }
    res
}

/// Finds the first snippet in a stretch of a page.
pub fn find_snippet(area: &str) -> (res: Option<String>)
    ensures
        res.deep_view() == first_snippet(area@),
{
    captures(SNIPPET_PATTERN, area).unwrap()
}

/// Finds the news token in a page.
pub fn find_vqd(page: &str) -> (res: Option<String>)
    ensures
        res.deep_view() == first_vqd(page@),
{
    captures(VQD_PATTERN, page).unwrap()
}

} // verus!
