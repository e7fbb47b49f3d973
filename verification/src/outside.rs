//! The calls that the library makes into other crates to read a value's
//! shape. Each is believed, not proved.

use vstd::prelude::*;
use crate::number::is_word;

verus! {

pub open spec fn is_hex_digit(c: char) -> bool {
    '0' <= c <= '9' || 'a' <= c <= 'f' || 'A' <= c <= 'F'
}

/// Thirty-two hexadecimal digits in groups of 8, 4, 4, 4 and 12 with a `-`
/// between the groups: the standard form of a UUID.
pub open spec fn is_hyphenated_uuid(text: Seq<char>) -> bool {
    &&& text.len() == 36
    &&& forall|i: int|
        0 <= i < 36 ==> if i == 8 || i == 13 || i == 18 || i == 23 {
            text[i] == '-'
        } else {
            is_hex_digit(#[trigger] text[i])
        }
}

/// Whether a text is a UUID in one of the forms that the `uuid` crate reads:
/// the standard form, the standard form in braces, the standard form after
/// `urn:uuid:` in upper or lower case, or thirty-two hexadecimal digits
/// without hyphens.
pub open spec fn uuid_parses(text: Seq<char>) -> bool {
    ||| is_hyphenated_uuid(text)
    ||| text.len() == 38 && text[0] == '{' && text[37] == '}' && is_hyphenated_uuid(
        text.subrange(1, 37),
    )
    ||| text.len() == 45 && is_word(text.take(9), "urn:uuid:"@) && is_hyphenated_uuid(
        text.skip(9),
    )
    ||| text.len() == 32 && forall|i: int| 0 <= i < 32 ==> is_hex_digit(#[trigger] text[i])
}

/// Whether a text is an RFC 3339 date and time with its offset, as the
/// `chrono` crate reads it.
pub uninterp spec fn rfc3339_parses(text: Seq<char>) -> bool;

/// The path of a URI as the `http` crate reads it, if it reads the text as a
/// URI at all.
pub uninterp spec fn uri_path(text: Seq<char>) -> Option<Seq<char>>;

/// `uuid::Uuid::parse_str`: whether the text parses. The parser goes by the
/// length of the text: 32 bytes must be hexadecimal digits, 36 the standard
/// form, 38 the standard form between `{` and `}`, 45 the standard form
/// after `urn:uuid:` in any case; every other length fails. A text that
/// parses is ASCII throughout, so its bytes are its characters.
#[verifier::external_body]
pub(crate) fn parses_as_uuid(text: &str) -> (parsed: bool)
    ensures
        parsed == uuid_parses(text@),
{
    uuid::Uuid::parse_str(text).is_ok()
}

/// `chrono::DateTime::parse_from_rfc3339`: whether the text parses. The
/// parser reads the text and nothing else, so the answer is the same for the
/// same text.
#[verifier::external_body]
pub(crate) fn parses_as_rfc3339(text: &str) -> (parsed: bool)
    ensures
        parsed == rfc3339_parses(text@),
{
    chrono::DateTime::parse_from_rfc3339(text).is_ok()
}

/// `http::Uri::from_str` followed by `http::Uri::path`: the path of the text
/// read as a URI, or nothing where it is not one.
#[verifier::external_body]
pub(crate) fn path_of_uri(text: &str) -> (path: Option<String>)
    ensures
        option_text(path) == uri_path(text@),
{
    match text.parse::<http::Uri>() {
        Ok(uri) => Some(uri.path().to_string()),
        Err(_) => None,
    }
}

/// The characters of an optional text.
pub open spec fn option_text(text: Option<String>) -> Option<Seq<char>> {
    match text {
        Some(text) => Some(text@),
        None => None,
    }
}

} // verus!
