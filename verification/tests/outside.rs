//! What the contracts say of the outside calls, held against what the calls do.

use web_search::duckduckgo::decode_ddg_redirect_url;
use web_search::error::SearchError;
use web_search::json::{Json, Member};
use web_search::patterns::{find_result_links, find_snippet, find_vqd, strip_tags};
use web_search::tool::WebSearchTool;

/// Calls `check` on every text made of up to `len` of the parts.
fn for_all(parts: &[&str], len: usize, check: &mut dyn FnMut(&str)) {
    fn go(parts: &[&str], len: usize, text: &mut String, check: &mut dyn FnMut(&str)) {
        check(text);
        if len > 0 {
            for part in parts {
                let end = text.len();
                text.push_str(part);
                go(parts, len - 1, text, check);
                text.truncate(end);
            }
        }
    }
    go(parts, len, &mut String::new(), check);
}

fn without_tags(s: &str) -> String {
    let mut chars = s.chars();
    match chars.next() {
        None => String::new(),
        Some(first) => match s.find('>') {
            Some(end) if first == '<' && end >= 2 => without_tags(&s[end + 1..]),
            _ => format!("{}{}", first, without_tags(chars.as_str())),
        },
    }
}

#[test]
fn tags_are_taken_out_as_stated() {
    for_all(&["<", ">", "a", "\u{e9}"], 5, &mut |s| {
        assert_eq!(strip_tags(s), without_tags(s), "{:?}", s);
    });
}

fn snippet_at(s: &str) -> Option<&str> {
    let rest = s.strip_prefix("<a class=\"result__snippet")?;
    let rest = rest.split_once('"')?.1;
    let rest = rest.split_once('>')?.1;
    Some(rest.split_once("</a>")?.0)
}

#[test]
fn snippets_are_found_as_stated() {
    let mut found = 0;
    for_all(&["<a class=\"result__snippet", "\"", ">", "</a>", "x"], 5, &mut |s| {
        let first = s.char_indices().find_map(|(i, _)| snippet_at(&s[i..]));
        found += first.is_some() as usize;
        assert_eq!(find_snippet(s).as_deref(), first, "{:?}", s);
    });
    assert!(found > 0);
}

fn vqd_at(s: &str) -> Option<&str> {
    let rest = s.strip_prefix("vqd=")?;
    let rest = rest.strip_prefix(['\'', '"'])?;
    let end = rest.find(|c: char| !(c.is_ascii_alphanumeric() || c == '-'))?;
    if end > 0 && rest[end..].starts_with(['\'', '"']) {
        Some(&rest[..end])
    } else {
        None
    }
}

#[test]
fn tokens_are_found_as_stated() {
    let mut found = 0;
    for_all(&["vqd=", "'", "\"", "Z9", "-", " "], 5, &mut |s| {
        let first = s.char_indices().find_map(|(i, _)| vqd_at(&s[i..]));
        found += first.is_some() as usize;
        assert_eq!(find_vqd(s).as_deref(), first, "{:?}", s);
    });
    assert!(found > 0);
}

/// The places behind each `mark` in `s` before which no `stop` stands.
fn ways<'a>(s: &'a str, mark: &'a str, stop: char) -> Vec<&'a str> {
    s.match_indices(mark)
        .filter(|(i, _)| !s[..*i].contains(stop))
        .map(|(i, _)| &s[i + mark.len()..])
        .collect()
}

/// The address and the title of each link that `s` can be read to begin with, and the
/// length of that link. The one that greedy repetition prefers comes last.
fn links_at(s: &str) -> Vec<(String, String, usize)> {
    let mut links = Vec::new();
    if let Some(rest) = s.strip_prefix("<a") {
        for class in ways(rest, "class=\"", '>') {
            let Some((value, rest)) = class.split_once('"') else { continue };
            if !value.contains("result__a") {
                continue;
            }
            for address in ways(rest, "href=\"", '>') {
                let Some((href, rest)) = address.split_once('"') else { continue };
                let Some((_, rest)) = rest.split_once('>') else { continue };
                let Some((title, rest)) = rest.split_once("</a>") else { continue };
                if !href.is_empty() {
                    links.push((href.to_string(), title.to_string(), s.len() - rest.len()));
                }
            }
        }
    }
    links
}

#[test]
fn links_are_found_as_stated() {
    let link = ["<a", " class=\"", "result__a", "\"", " href=\"", "u", "\"", ">", "T", "</a>"];
    let mut seed: u64 = 1;
    let mut random = |n: usize| {
        seed = seed.wrapping_mul(6364136223846793005).wrapping_add(1442695040888963407);
        (seed >> 33) as usize % n
    };
    let mut found = 0;
    let mut missing = 0;
    for _ in 0..2000 {
        let mut parts: Vec<&str> = link.iter().chain(link.iter()).copied().collect();
        for _ in 0..random(6) {
            let at = random(parts.len());
            match random(3) {
                0 => {
                    parts.remove(at);
                }
                1 => parts.insert(at, link[random(link.len())]),
                _ => parts[at] = link[random(link.len())],
            }
        }
        let html = format!("\u{e9}{}\u{20ac}", parts.concat());
        let links = find_result_links(&html);
        let any = html.char_indices().any(|(i, _)| !links_at(&html[i..]).is_empty());
        assert_eq!(!links.is_empty(), any, "{:?}", html);
        let mut last = 0;
        for (i, _) in html.char_indices() {
            let covered = links.iter().any(|link| link.start <= i && i < link.end);
            assert!(covered || links_at(&html[i..]).is_empty(), "{:?}", html);
        }
        for link in &links {
            assert!(last <= link.start && link.start <= link.end && link.end <= html.len());
            last = link.end;
            let own = (link.href.clone(), link.title.clone(), link.end - link.start);
            assert_eq!(links_at(&html[link.start..]).last(), Some(&own), "{:?}", html);
        }
        found += any as usize;
        missing += !any as usize;
    }
    assert!(found > 100 && missing > 10);
}

fn is_white_space(c: char) -> bool {
    matches!(
        c,
        '\u{9}'..='\u{d}'
            | '\u{20}'
            | '\u{85}'
            | '\u{a0}'
            | '\u{1680}'
            | '\u{2000}'..='\u{200a}'
            | '\u{2028}'
            | '\u{2029}'
            | '\u{202f}'
            | '\u{205f}'
            | '\u{3000}'
    )
}

#[test]
fn white_space_is_trimmed_as_stated() {
    let tool = WebSearchTool::new("duckduckgo".to_string(), None, 5, 15);
    for c in '\0'..=char::MAX {
        let query = Member { name: "query".to_string(), value: Json::Str(c.to_string()) };
        let refused = matches!(
            tool.execute(&Json::Object(vec![query])),
            Err(SearchError::EmptyQuery)
        );
        assert_eq!(refused, is_white_space(c), "{:?}", c);
    }
}

#[test]
fn ascii_names_are_lowered_as_stated() {
    for c in '\0'..='\u{7f}' {
        let tool = WebSearchTool::new(format!("x{}x", c), None, 5, 15);
        let query = Member { name: "query".to_string(), value: Json::Str("q".to_string()) };
        match tool.execute(&Json::Object(vec![query])) {
            Err(SearchError::UnknownProvider(name)) => {
                assert_eq!(name, format!("x{}x", c.to_ascii_lowercase()))
            }
            _ => panic!("searched nowhere"),
        }
    }
}

fn name_of(provider: &str) -> String {
    let tool = WebSearchTool::new(provider.to_string(), None, 5, 15);
    let query = Member { name: "query".to_string(), value: Json::Str("q".to_string()) };
    match tool.execute(&Json::Object(vec![query])) {
        Err(SearchError::UnknownProvider(name)) => name,
        _ => panic!("searched nowhere"),
    }
}

#[test]
fn names_are_normalised_once() {
    for c in '\0'..=char::MAX {
        for name in [name_of(&format!("Z{}", c)), name_of(&c.to_string())] {
            assert_eq!(name_of(&name), name, "{:?}", c);
        }
    }
}

#[test]
fn bytes_are_encoded_as_stated() {
    let tool = WebSearchTool::new("duckduckgo".to_string(), None, 5, 15);
    for c in ('\0'..='\u{2fff}').chain('\u{1f900}'..='\u{1f9ff}') {
        let mut coded = String::new();
        for b in c.to_string().bytes() {
            if b.is_ascii_alphanumeric() || b"-_.~".contains(&b) {
                coded.push(b as char);
            } else {
                coded.push_str(&format!("%{:02X}", b));
            }
        }
        let url = tool.search_duckduckgo(&c.to_string()).url;
        assert_eq!(url, format!("https://html.duckduckgo.com/html/?q={}", coded));
        assert_eq!(decode_ddg_redirect_url(&format!("?uddg={}", coded)), c.to_string());
    }
}

fn percent_decoded(bytes: &[u8]) -> Vec<u8> {
    let value = |b: u8| (b as char).to_digit(16);
    match bytes {
        [] => Vec::new(),
        [b'%', a, b, rest @ ..] if value(*a).is_some() && value(*b).is_some() => {
            let byte = (value(*a).unwrap() * 16 + value(*b).unwrap()) as u8;
            let mut decoded = vec![byte];
            decoded.extend(percent_decoded(rest));
            decoded
        }
        [first, rest @ ..] => {
            let mut decoded = vec![*first];
            decoded.extend(percent_decoded(rest));
            decoded
        }
    }
}

#[test]
fn texts_are_decoded_as_stated() {
    for_all(&["%", "2", "c", "F", "g", "+", "\u{e9}"], 5, &mut |s| {
        let url = format!("?uddg={}", s);
        let expected = match String::from_utf8(percent_decoded(s.as_bytes())) {
            Ok(target) => target,
            Err(_) => url.clone(),
        };
        assert_eq!(decode_ddg_redirect_url(&url), expected, "{:?}", s);
    });
}
