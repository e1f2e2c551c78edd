use vstd::prelude::*;

use url::{ParseError, Url};

use crate::shortcode::{is_plain_path, is_rooted};

verus! {

/// Longest base URL, in characters, that `url_with_path` accepts.
pub const MAX_URL_BASE_CHARS: usize = 4096;

/// Longest path, in characters, that `url_with_path` accepts.
pub const MAX_URL_PATH_CHARS: usize = 0x1000_0000;

#[verifier::external_type_specification]
#[verifier::external_body]
pub struct ExParseError(ParseError);

/// The path (`url::Url::path`) of the URL that `url::Url::parse` reads from
/// `input`, or `None` where `url::Url::parse` refuses `input`.
pub uninterp spec fn parsed_url_path(input: Seq<char>) -> Option<Seq<char>>;

/// The serialization (`url::Url::as_str`) of the URL that `url::Url::parse`
/// reads from `base`, after `url::Url::set_path(path)`, or `None` where
/// `url::Url::parse` refuses `base`.
pub uninterp spec fn url_after_set_path(base: Seq<char>, path: Seq<char>) -> Option<Seq<char>>;

/// `input` parses as a URL whose path begins with a slash.
pub open spec fn has_rooted_path(input: Seq<char>) -> bool {
    parsed_url_path(input) matches Some(path) && is_rooted(path)
}

/// Calls `url::Url::parse(input)` and, on success, `url::Url::path`.
/// Trusted: the path returned is the named result `parsed_url_path(input)`;
/// the error is the one `Url::parse` gave. What the path is for a given input
/// (percent-encoding, dot segments, cannot-be-a-base URLs) is left to the url
/// crate and not stated.
#[verifier::external_body]
pub(crate) fn url_path_of(input: &str) -> (res: Result<String, ParseError>)
    ensures
        match res {
            Ok(path) => parsed_url_path(input@) == Some(path@),
            Err(_) => parsed_url_path(input@) is None,
        },
{
    match Url::parse(input) {
        Ok(parsed) => Ok(parsed.path().to_string()),
        Err(e) => Err(e),
    }
}

/// Calls `url::Url::parse(base)`, then `url::Url::set_path(path)` on the
/// result, and hands back the URL's serialization.
/// Trusted: it fails exactly where `url::Url::parse` refuses `base` (the same
/// call as in `url_path_of`), and on success the text is the named result
/// `url_after_set_path(base, path)`. Where `base` has a path that begins with
/// a slash (it is not cannot-be-a-base) and `path` is plain (non-empty
/// segments of ASCII letters and digits separated by single slashes), the
/// url crate neither encodes nor normalises `path`: `set_path` makes the path
/// `/` + `path`, and parsing the serialization again gives that path back (the
/// crate's own `check_invariants` re-parses the serialization to the same
/// URL). How other paths are encoded is left to the url crate and not stated.
/// `set_path` panics once the URL no longer fits in `u32::MAX` bytes; the
/// bounds in `requires` keep it well below that: a path character becomes at
/// most twelve (four UTF-8 bytes, each percent-encoded), and a base of at
/// most `MAX_URL_BASE_CHARS` characters serialises to a few megabytes at most
/// (IDNA mapping and punycode expand a character to well under a thousand
/// bytes).
#[verifier::external_body]
pub(crate) fn url_with_path(base: &str, path: &str) -> (res: Result<String, ParseError>)
    requires
        base@.len() <= MAX_URL_BASE_CHARS,
        path@.len() <= MAX_URL_PATH_CHARS,
    ensures
        res is Ok <==> parsed_url_path(base@) is Some,
        match res {
            Ok(text) => url_after_set_path(base@, path@) == Some(text@),
            Err(_) => url_after_set_path(base@, path@) is None,
        },
        res matches Ok(text) ==> (is_plain_path(path@) && has_rooted_path(base@) ==> parsed_url_path(text@)
            == Some(seq!['/'] + path@)),
{
    let mut parsed = Url::parse(base)?;
    parsed.set_path(path);
    Ok(parsed.into())
}

} // verus!
