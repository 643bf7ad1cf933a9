use vstd::prelude::*;
use vstd::utf8::{decode_utf8, valid_utf8};

verus! {

/// What the first capturing group of the leftmost-first match of the regular
/// expression `pattern` spans in `haystack`, in the byte-oriented matcher of
/// the regex crate; `None` where the pattern does not compile, does not match,
/// or the group takes no part in the match.
pub uninterp spec fn byte_capture(pattern: Seq<char>, haystack: Seq<u8>) -> Option<Seq<u8>>;

/// What the first capturing group of the leftmost-first match of the regular
/// expression `pattern` spans in `text`, in the text matcher of the regex
/// crate; `None` where the pattern does not compile, does not match, or the
/// group takes no part in the match.
pub uninterp spec fn text_capture(pattern: Seq<char>, text: Seq<char>) -> Option<Seq<char>>;

/// The text that `bytes` encode, where they are valid UTF-8.
pub open spec fn utf8_text(bytes: Seq<u8>) -> Option<Seq<char>> {
    if valid_utf8(bytes) {
        Some(decode_utf8(bytes))
    } else {
        None
    }
}

/// The text of a captured group, if there is one and it is valid UTF-8.
pub open spec fn capture_text(capture: Option<Seq<u8>>) -> Option<Seq<char>> {
    match capture {
        Some(bytes) => utf8_text(bytes),
        None => None,
    }
}

/// The version token that `pattern` finds in `haystack`: its first group, as
/// text.
pub open spec fn version_token(pattern: Seq<char>, haystack: Seq<u8>) -> Option<Seq<char>> {
    capture_text(byte_capture(pattern, haystack))
}

/// Relies on regex::bytes::Regex::new, Regex::captures and Captures::get:
/// compiles `pattern` and hands back the bytes of group 1 of the first match.
#[verifier::external_body]
fn capture_bytes(pattern: &str, haystack: &[u8]) -> (r: Option<Vec<u8>>)
    ensures
        r.deep_view() == byte_capture(pattern@, haystack@),
{
    let re = regex::bytes::Regex::new(pattern).ok()?;
    let group = re.captures(haystack)?.get(1)?;
    Some(group.as_bytes().to_vec())
}

/// Relies on regex::Regex::new, Regex::captures and Captures::get: compiles
/// `pattern` and hands back the text of group 1 of the first match.
#[verifier::external_body]
pub(crate) fn capture_in_text(pattern: &str, text: &str) -> (r: Option<String>)
    ensures
        r.deep_view() == text_capture(pattern@, text@),
{
    let re = regex::Regex::new(pattern).ok()?;
    let group = re.captures(text)?.get(1)?;
    Some(group.as_str().to_string())
}

/// Relies on String::from_utf8: it succeeds exactly on valid UTF-8, and the
/// string holds the characters that the bytes encode.
#[verifier::external_body]
fn utf8_string(bytes: Vec<u8>) -> (r: Option<String>)
    ensures
        r.deep_view() == utf8_text(bytes@),
{
    String::from_utf8(bytes).ok()
}

/// The text of a captured group; `None` where there is no group or its bytes
/// are not valid UTF-8, so that no lossy string is ever produced.
pub fn token_text(capture: Option<Vec<u8>>) -> (r: Option<String>)
    ensures
        r.deep_view() == capture_text(capture.deep_view()),
{
    match capture {
        Some(bytes) => {
            assert(bytes.deep_view() =~= bytes@);
            utf8_string(bytes)
        },
        None => None,
    }
}

/// Finds the version token of `pattern` in `haystack`.
pub fn find_token(pattern: &str, haystack: &[u8]) -> (r: Option<String>)
    ensures
        r.deep_view() == version_token(pattern@, haystack@),
{
    token_text(capture_bytes(pattern, haystack))
}

} // verus!
