//! Plain text: trimming, letter case, searching, decimal numbers, lines.

use vstd::prelude::*;
use vstd::string::*;
use vstd::utf8::*;

verus! {

/// The characters with the Unicode property `White_Space`.
pub open spec fn is_white_space(c: char) -> bool {
    ||| '\u{9}' <= c <= '\u{d}'
    ||| c == '\u{20}'
    ||| c == '\u{85}'
    ||| c == '\u{a0}'
    ||| c == '\u{1680}'
    ||| '\u{2000}' <= c <= '\u{200a}'
    ||| c == '\u{2028}'
    ||| c == '\u{2029}'
    ||| c == '\u{202f}'
    ||| c == '\u{205f}'
    ||| c == '\u{3000}'
}

/// `s` without its leading white space.
pub open spec fn trimmed_start(s: Seq<char>) -> Seq<char>
    decreases s.len(),
{
    if s.len() > 0 && is_white_space(s[0]) {
        trimmed_start(s.drop_first())
    } else {
        s
    }
}

/// `s` without its trailing white space.
pub open spec fn trimmed_end(s: Seq<char>) -> Seq<char>
    decreases s.len(),
{
    if s.len() > 0 && is_white_space(s.last()) {
        trimmed_end(s.drop_last())
    } else {
        s
    }
}

/// `s` without the white space at its two ends.
pub open spec fn trimmed(s: Seq<char>) -> Seq<char> {
    trimmed_end(trimmed_start(s))
}

/// `str::trim` of std: removes leading and trailing characters that have the
/// Unicode property `White_Space`, and nothing else.
pub assume_specification[ str::trim ](s: &str) -> (res: &str)
    ensures
        res@ == trimmed(s@),
;

/// The lower case of one ASCII letter; any other character is kept.
pub open spec fn ascii_lower(c: char) -> char {
    if 'A' <= c <= 'Z' {
        ((c as u32) + 32) as char
    } else {
        c
    }
}

/// `s` with each ASCII letter in lower case.
pub open spec fn ascii_lowercase(s: Seq<char>) -> Seq<char> {
    s.map_values(|c: char| ascii_lower(c))
}

/// What `str::to_lowercase` of std makes of a text.
pub uninterp spec fn lowercase(s: Seq<char>) -> Seq<char>;

/// `str::to_lowercase` of std: the Unicode lower case of a text, which depends on
/// the text alone. On ASCII text it lowers the letters `A` to `Z`. Nothing is said of
/// lowering a text twice, nor of white space in other lowered text.
pub assume_specification[ str::to_lowercase ](s: &str) -> (res: String)
    ensures
        res@ == lowercase(s@),
        is_ascii_chars(s@) ==> res@ == ascii_lowercase(s@),
;

/// `str::eq_ignore_ascii_case` of std: equality up to the case of ASCII letters.
pub assume_specification[ str::eq_ignore_ascii_case ](s: &str, other: &str) -> (res: bool)
    ensures
        res == (ascii_lowercase(s@) == ascii_lowercase(other@)),
;

/// Whether two texts are the same.
pub(crate) fn same_text(a: &str, b: &str) -> (res: bool)
    ensures
        res == (a@ == b@),
{
    a.to_string() == b.to_string()
}

/// The characters of a text.
pub(crate) fn to_chars(s: &str) -> (res: Vec<char>)
    ensures
        res@ == s@,
{
    let mut res: Vec<char> = Vec::new();
    for c in it: s.chars()
        invariant
            it.seq() == s@,
            res@ == s@.take(it.index() as int),
    {
        res.push(c);
    }
    res
}

/// Whether `needle` stands in `s` at position `i`.
pub open spec fn occurs_at(s: Seq<char>, needle: Seq<char>, i: int) -> bool {
    &&& 0 <= i
    &&& i + needle.len() <= s.len()
    &&& s.subrange(i, i + needle.len()) == needle
}

/// The first position from `i` on at which `needle` stands in `s`.
pub open spec fn find_from(s: Seq<char>, needle: Seq<char>, i: int) -> Option<int>
    decreases s.len() - i + 1,
{
    if i + needle.len() > s.len() {
        None
    } else if occurs_at(s, needle, i) {
        Some(i)
    } else {
        find_from(s, needle, i + 1)
    }
}

/// The first position at which `needle` stands in `s`.
pub open spec fn find(s: Seq<char>, needle: Seq<char>) -> Option<int> {
    find_from(s, needle, 0)
}

fn occurs(s: &Vec<char>, needle: &Vec<char>, i: usize) -> (res: bool)
    requires
        i + needle@.len() <= s@.len(),
    ensures
        res == occurs_at(s@, needle@, i as int),
{
    let end: usize = s.len();
    for k in 0..needle.len()
        invariant
            end == s@.len(),
            i + needle@.len() <= end,
            s@.subrange(i as int, i + k) == needle@.take(k as int),
    {
        if s[i + k] != needle[k] {
            assert(s@.subrange(i as int, i + needle@.len())[k as int] == s@[i + k]);
            return false;
        }
        assert(s@.subrange(i as int, i + k + 1) == s@.subrange(i as int, i + k).push(s@[i + k]));
        assert(needle@.take(k + 1) == needle@.take(k as int).push(needle@[k as int]));
    }
    assert(needle@.take(needle@.len() as int) == needle@);
    true
}

/// The position, in characters, of the first `needle` in `s`.
pub(crate) fn find_text(s: &str, needle: &str) -> (res: Option<usize>)
    ensures
        find(s@, needle@) == (match res {
            Some(i) => Some(i as int),
            None => None,
        }),
{
    let hay = to_chars(s);
    let pin = to_chars(needle);
    let mut i: usize = 0;
    while pin.len() <= hay.len() - i
        invariant
            hay@ == s@,
            pin@ == needle@,
            i <= hay@.len(),
            find(s@, needle@) == find_from(s@, needle@, i as int),
        decreases hay@.len() - i,
    {
        if occurs(&hay, &pin, i) {
            return Some(i);
        }
        assert(pin@.len() > 0) by {
            assert(pin@.len() == 0 ==> hay@.subrange(i as int, i as int) == pin@);
        }
        i = i + 1;
    }
    None
}

/// `s` up to its first `stop`, or all of it.
pub open spec fn before(s: Seq<char>, stop: Seq<char>) -> Seq<char> {
    match find(s, stop) {
        Some(i) => s.take(i),
        None => s,
    }
}

/// A position that [`find`] gives lies inside the text.
pub proof fn lemma_find_from_bounds(s: Seq<char>, needle: Seq<char>, i: int)
    requires
        0 <= i,
    ensures
        find_from(s, needle, i) matches Some(k) ==> i <= k && occurs_at(s, needle, k),
    decreases s.len() - i + 1,
{
    if i + needle.len() <= s.len() && !occurs_at(s, needle, i) {
        lemma_find_from_bounds(s, needle, i + 1);
    }
}

/// No character comes before NUL.
pub proof fn lemma_no_char_below_nul(c: char)
    ensures
        '\0' <= c,
{
}

/// The decimal digit of `n`, which is below ten.
pub open spec fn digit(n: nat) -> char {
    ((n + '0' as u32) as u32) as char
}

/// `n` in decimal, without leading zeros.
pub open spec fn decimal(n: nat) -> Seq<char>
    decreases n,
{
    if n < 10 {
        seq![digit(n)]
    } else {
        decimal(n / 10).push(digit(n % 10))
    }
}

fn digit_text(n: usize) -> (res: &'static str)
    requires
        n < 10,
    ensures
        res@ == seq![digit(n as nat)],
{
    proof {
        reveal_strlit("0");
        reveal_strlit("1");
        reveal_strlit("2");
        reveal_strlit("3");
        reveal_strlit("4");
        reveal_strlit("5");
        reveal_strlit("6");
        reveal_strlit("7");
        reveal_strlit("8");
        reveal_strlit("9");
    }
    match n {
        0 => "0",
        1 => "1",
        2 => "2",
        3 => "3",
        4 => "4",
        5 => "5",
        6 => "6",
        7 => "7",
        8 => "8",
        _ => "9",
    }
}

/// Writes `n` in decimal.
pub(crate) fn to_decimal(n: usize) -> (res: String)
    ensures
        res@ == decimal(n as nat),
    decreases n,
{
    if n < 10 {
        digit_text(n).to_string()
    } else {
        let mut res = to_decimal(n / 10);
        res.append(digit_text(n % 10));
        assert(res@ == decimal((n / 10) as nat).push(digit((n % 10) as nat)));
        res
    }
}

/// The lines put together, with a line break between each two.
pub open spec fn joined(lines: Seq<Seq<char>>) -> Seq<char>
    decreases lines.len(),
{
    if lines.len() == 0 {
        Seq::empty()
    } else if lines.len() == 1 {
        lines[0]
    } else {
        joined(lines.drop_last()) + "\n"@ + lines.last()
    }
}

/// Puts lines together, with a line break between each two.
pub(crate) fn join_lines(lines: &Vec<String>) -> (res: String)
    ensures
        res@ == joined(lines.deep_view()),
{
    let mut res = String::new();
    for i in 0..lines.len()
        invariant
            res@ == joined(lines.deep_view().take(i as int)),
    {
        let ghost all = lines.deep_view();
        if i > 0 {
            res.append("\n");
        }
        res.append(lines[i].as_str());
        assert(all.take(i + 1).drop_last() == all.take(i as int));
        assert(all.take(i + 1).last() == lines@[i as int]@);
        assert(i == 0 ==> res@ == lines@[0]@);
    }
    assert(lines.deep_view().take(lines@.len() as int) == lines.deep_view());
    res
}

/// Puts two texts one behind the other.
pub(crate) fn concat2(a: &str, b: &str) -> (res: String)
    ensures
        res@ == a@ + b@,
{
    let mut res = a.to_string();
    res.append(b);
    res
}

/// Puts three texts one behind the other.
pub(crate) fn concat3(a: &str, b: &str, c: &str) -> (res: String)
    ensures
        res@ == a@ + b@ + c@,
{
    let mut res = concat2(a, b);
    res.append(c);
    res
}

/// The part of `s` from byte `start` to byte `end` of its UTF-8 form.
pub open spec fn byte_range(s: Seq<char>, start: int, end: int) -> Seq<char> {
    decode_utf8(encode_utf8(s).subrange(start, end))
}

/// Whether `s` can be cut at byte `i` of its UTF-8 form.
pub open spec fn can_cut(s: Seq<char>, i: int) -> bool {
    is_char_boundary(encode_utf8(s), i)
}

proof fn lemma_boundary_in_prefix(bytes: Seq<u8>, i: int, end: int)
    requires
        valid_utf8(bytes),
        is_char_boundary(bytes, i),
        is_char_boundary(bytes, end),
        0 <= i <= end <= bytes.len(),
    ensures
        is_char_boundary(bytes.subrange(0, end), i),
{
    let head = bytes.subrange(0, end);
    valid_utf8_split(bytes, end);
    if i < end {
        is_char_boundary_iff_not_is_continuation_byte(bytes, i);
        is_char_boundary_iff_not_is_continuation_byte(head, i);
        assert(head[i] == bytes[i]);
    } else {
        is_char_boundary_start_end_of_seq(head);
    }
}

/// A part of `s` that is cut at whole characters has those bytes as its UTF-8 form, and
/// is where any longer part with the same start begins.
pub(crate) proof fn lemma_byte_range(s: Seq<char>, start: int, end: int, further: int)
    requires
        0 <= start <= end <= further <= encode_utf8(s).len(),
        can_cut(s, start),
        can_cut(s, end),
        can_cut(s, further),
    ensures
        encode_utf8(byte_range(s, start, end)) == encode_utf8(s).subrange(start, end),
        byte_range(s, start, end).len() <= byte_range(s, start, further).len(),
        byte_range(s, start, further).take(byte_range(s, start, end).len() as int)
            == byte_range(s, start, end),
{
    let bytes = encode_utf8(s);
    encode_utf8_valid_utf8(s);
    let head = bytes.subrange(0, further);
    lemma_boundary_in_prefix(bytes, start, further);
    lemma_boundary_in_prefix(bytes, end, further);
    valid_utf8_split(bytes, further);
    let short = bytes.subrange(0, end);
    lemma_boundary_in_prefix(bytes, start, end);
    valid_utf8_split(bytes, end);
    valid_utf8_split(short, start);
    assert(short.subrange(start, end) =~= bytes.subrange(start, end));
    decode_utf8_encode_utf8(bytes.subrange(start, end));
    // Both parts lie behind the same bytes.
    decode_utf8_split(head, start);
    decode_utf8_split(head, end);
    decode_utf8_split(short, start);
    assert(head.subrange(0, start) =~= short.subrange(0, start));
    assert(head.subrange(0, end) =~= short);
    assert(head.subrange(start, further) =~= bytes.subrange(start, further));
    let front = decode_utf8(short.subrange(0, start));
    let part = byte_range(s, start, end);
    let longer = byte_range(s, start, further);
    let behind = decode_utf8(head.subrange(end, further));
    assert(front + longer =~= front + part + behind);
    assert(longer =~= part + behind) by {
        assert((front + longer).skip(front.len() as int) =~= longer);
        assert((front + part + behind).skip(front.len() as int) =~= part + behind);
    }
    assert(longer.take(part.len() as int) =~= part);
}

/// Cuts out the part of `s` from byte `start` to byte `end`.
pub(crate) fn cut(s: &str, start: usize, end: usize) -> (res: &str)
    requires
        start <= end <= encode_utf8(s@).len(),
        can_cut(s@, start as int),
        can_cut(s@, end as int),
    ensures
        res@ == byte_range(s@, start as int, end as int),
{
    let ghost bytes = encode_utf8(s@);
    proof {
        encode_utf8_valid_utf8(s@);
        lemma_boundary_in_prefix(bytes, start as int, end as int);
    }
    let (head, _) = s.split_at(end);
    let (_, res) = head.split_at(start);
    proof {
        assert(bytes.subrange(0, end as int).subrange(start as int, end as int) == bytes.subrange(
            start as int,
            end as int,
        ));
        encode_utf8_decode_utf8(res@);
    }
    res
}

/// The number of bytes in the UTF-8 form of `s`.
pub(crate) fn byte_len(s: &str) -> (res: usize)
    ensures
        res == encode_utf8(s@).len(),
        can_cut(s@, res as int),
{
    proof {
        encode_utf8_valid_utf8(s@);
        is_char_boundary_start_end_of_seq(encode_utf8(s@));
    }
    s.as_bytes().len()
}

} // verus!
