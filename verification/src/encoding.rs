//! Percent-encoding, the form in which text is carried inside a URL.

use vstd::prelude::*;
use vstd::utf8::*;

use crate::text::lemma_no_char_below_nul;

verus! {

/// The bytes that stand for themselves in a percent-encoded text: letters, digits
/// and `-`, `_`, `.`, `~`.
pub open spec fn is_unreserved(b: u8) -> bool {
    let c = b as char;
    ||| 'a' <= c <= 'z'
    ||| 'A' <= c <= 'Z'
    ||| '0' <= c <= '9'
    ||| c == '-'
    ||| c == '_'
    ||| c == '.'
    ||| c == '~'
}

/// The upper-case hexadecimal digit of `n`, which is below sixteen.
pub open spec fn hex_digit(n: u8) -> char {
    if n < 10 {
        ((n + '0' as u8) as u8) as char
    } else {
        ((n - 10 + 'A' as u8) as u8) as char
    }
}

/// The bytes with each one that is not unreserved written as `%` and two digits.
pub open spec fn percent_encoded(bytes: Seq<u8>) -> Seq<char>
    decreases bytes.len(),
{
    if bytes.len() == 0 {
        Seq::empty()
    } else if is_unreserved(bytes[0]) {
        seq![bytes[0] as char] + percent_encoded(bytes.drop_first())
    } else {
        seq!['%', hex_digit(bytes[0] / 16), hex_digit(bytes[0] % 16)] + percent_encoded(
            bytes.drop_first(),
        )
    }
}

/// `text` percent-encoded, by the bytes of its UTF-8 form.
pub open spec fn url_encoded(text: Seq<char>) -> Seq<char> {
    percent_encoded(encode_utf8(text))
}

/// The value of a hexadecimal digit in either case.
pub open spec fn hex_value(b: u8) -> Option<u8> {
    let c = b as char;
    if '0' <= c <= '9' {
        Some((b - '0' as u8) as u8)
    } else if 'A' <= c <= 'F' {
        Some((b - 'A' as u8 + 10) as u8)
    } else if 'a' <= c <= 'f' {
        Some((b - 'a' as u8 + 10) as u8)
    } else {
        None
    }
}

/// The bytes with each `%` and the two hexadecimal digits behind it replaced by the
/// byte they stand for. Any other `%` is kept.
pub open spec fn percent_decoded(bytes: Seq<u8>) -> Seq<u8>
    decreases bytes.len(),
{
    if bytes.len() == 0 {
        Seq::empty()
    } else if bytes.len() >= 3 && bytes[0] == '%' as u8 && hex_value(bytes[1]) is Some && hex_value(
        bytes[2],
    ) is Some {
        seq![(hex_value(bytes[1])->0 * 16 + hex_value(bytes[2])->0) as u8] + percent_decoded(
            bytes.skip(3),
        )
    } else {
        seq![bytes[0]] + percent_decoded(bytes.skip(1))
    }
}

/// What the percent-encoded `text` stands for, unless that is no UTF-8.
pub open spec fn url_decoded(text: Seq<char>) -> Option<Seq<char>> {
    let bytes = percent_decoded(encode_utf8(text));
    if valid_utf8(bytes) {
        Some(decode_utf8(bytes))
    } else {
        None
    }
}

/// The error of `String::from_utf8`.
#[verifier::external_type_specification]
#[verifier::external_body]
pub struct ExFromUtf8Error(std::string::FromUtf8Error);

/// `urlencoding::encode`: percent-encodes every byte except letters, digits and
/// `-`, `_`, `.`, `~`, with upper-case digits.
#[verifier::external_body]
pub(crate) fn url_encode(text: &str) -> (res: String)
    ensures
        res@ == url_encoded(text@),
{
    urlencoding::encode(text).into_owned()
}

/// `urlencoding::decode`: undoes percent-encoding, keeps a `%` without two digits
/// behind it and a `+` as they are, and fails exactly where the bytes that come out
/// are no UTF-8.
#[verifier::external_body]
pub(crate) fn url_decode(text: &str) -> (res: Result<String, std::string::FromUtf8Error>)
    ensures
        url_decoded(text@) == (match res {
            Ok(decoded) => Some(decoded@),
            Err(_) => None,
        }),
{
    urlencoding::decode(text).map(|decoded| decoded.into_owned())
}

/// The characters that percent-encoded text is made of.
pub open spec fn is_url_char(c: char) -> bool {
    c == '%' || (c <= '\u{7f}' && is_unreserved(c as u8))
}

proof fn lemma_percent_encoded_chars(bytes: Seq<u8>)
    ensures
        forall|i: int|
            0 <= i < percent_encoded(bytes).len() ==> is_url_char(
                #[trigger] percent_encoded(bytes)[i],
            ),
    decreases bytes.len(),
{
    if bytes.len() > 0 {
        lemma_percent_encoded_chars(bytes.drop_first());
        let rest = percent_encoded(bytes.drop_first());
        let b = bytes[0];
        let all = percent_encoded(bytes);
        assert forall|i: int| 0 <= i < all.len() implies is_url_char(#[trigger] all[i]) by {
            if is_unreserved(b) {
                assert(i > 0 ==> all[i] == rest[i - 1]);
            } else {
                assert(i > 2 ==> all[i] == rest[i - 3]);
            }
        }
    }
}

/// Percent-encoded text holds only letters, digits and `-`, `_`, `.`, `~`, `%`, so
/// that nothing in it can end or split a parameter of a URL.
pub proof fn law_encoded_text_is_url_safe(text: Seq<char>)
    ensures
        forall|i: int|
            0 <= i < url_encoded(text).len() ==> is_url_char(#[trigger] url_encoded(text)[i]),
{
    lemma_percent_encoded_chars(encode_utf8(text));
}

spec fn ascii_bytes(chars: Seq<char>) -> Seq<u8> {
    Seq::new(chars.len(), |i: int| chars[i] as u8)
}

proof fn lemma_hex_digit(n: u8)
    requires
        n < 16,
    ensures
        hex_value(hex_digit(n) as u8) == Some(n),
{
}

proof fn lemma_decode_encoded(bytes: Seq<u8>)
    ensures
        percent_decoded(ascii_bytes(percent_encoded(bytes))) == bytes,
    decreases bytes.len(),
{
    if bytes.len() > 0 {
        let rest = bytes.drop_first();
        let b = bytes[0];
        lemma_decode_encoded(rest);
        let coded = ascii_bytes(percent_encoded(bytes));
        let tail = ascii_bytes(percent_encoded(rest));
        assert(bytes == seq![b] + rest);
        if is_unreserved(b) {
            assert(coded[0] == b);
            assert(coded.skip(1) == tail);
        } else {
            lemma_hex_digit(b / 16);
            lemma_hex_digit(b % 16);
            assert(coded[0] == '%' as u8);
            assert(coded[1] == hex_digit(b / 16) as u8);
            assert(coded[2] == hex_digit(b % 16) as u8);
            assert(coded.skip(3) == tail);
        }
    } else {
        assert(ascii_bytes(percent_encoded(bytes)) == Seq::<u8>::empty());
        assert(bytes == Seq::<u8>::empty());
    }
}

/// Decoding gives back what was encoded.
pub proof fn law_decoding_undoes_encoding(text: Seq<char>)
    ensures
        url_decoded(url_encoded(text)) == Some(text),
{
    let coded = url_encoded(text);
    law_encoded_text_is_url_safe(text);
    assert forall|i: int| 0 <= i < coded.len() implies '\0' <= #[trigger] coded[i] <= '\u{7f}' by {
        lemma_no_char_below_nul(coded[i]);
        assert(is_url_char(url_encoded(text)[i]));
    }
    is_ascii_chars_encode_utf8(coded);
    assert(encode_utf8(coded) == ascii_bytes(coded));
    lemma_decode_encoded(encode_utf8(text));
    encode_utf8_valid_utf8(text);
    encode_utf8_decode_utf8(text);
}

} // verus!
