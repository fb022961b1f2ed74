//! URLs as text. Parsing and path replacement are done by `reqwest::Url`.

use vstd::prelude::*;
use vstd::utf8::encode_utf8;

verus! {

/// What `Url::parse` makes of a text: the serialization of the URL, or the message of the error.
pub uninterp spec fn url_parse(input: Seq<char>) -> Result<Seq<char>, Seq<char>>;

/// What `Url::path` gives for the URL that `Url::parse` reads from a text.
pub uninterp spec fn url_path(input: Seq<char>) -> Seq<char>;

/// The serialization of the URL that `Url::parse` reads from a text, once `Url::set_path` has
/// given it the path `path`.
pub uninterp spec fn url_with_path(input: Seq<char>, path: Seq<char>) -> Seq<char>;

/// The text on either side of a result.
pub open spec fn result_text(r: Result<String, String>) -> Result<Seq<char>, Seq<char>> {
    match r {
        Ok(s) => Ok(s@),
        Err(e) => Err(e@),
    }
}

/// Whether the counters of `reqwest::Url`, of which the narrowest is an `i32`, can count the
/// characters of `input`.
pub open spec fn input_fits(input: Seq<char>) -> bool {
    input.len() <= i32::MAX
}

/// Whether the URL read from `input` surely stays within the 32-bit offsets of `reqwest::Url`
/// when it is given the path `path`: every byte of a path takes up to three bytes once it is
/// percent-encoded, and a few more bytes may be added around it.
pub open spec fn path_fits(input: Seq<char>, path: Seq<char>) -> bool {
    url_parse(input) matches Ok(text) && encode_utf8(text).len() + 3 * encode_utf8(path).len() + 16
        <= u32::MAX
}

/// Calls `reqwest::Url::parse`, and turns the URL or the error into text. Claims that the
/// outcome depends on the text alone. The text has no more characters than an `i32` can count,
/// since the parser counts the characters of the authority in one, and leading slashes in a `u32`.
#[verifier::external_body]
pub(crate) fn parse_url(input: &str) -> (r: Result<String, String>)
    requires
        input_fits(input@),
    ensures
        result_text(r) == url_parse(input@),
{
    match reqwest::Url::parse(input) {
        Ok(url) => Ok(url.to_string()),
        Err(error) => Err(error.to_string()),
    }
}

/// Calls `reqwest::Url::path` on the URL that a text holds. Claims that the path depends on the
/// text alone. The text has to hold a URL, and to be as short as for `parse_url`.
#[verifier::external_body]
pub(crate) fn path_of_url(input: &str) -> (r: String)
    requires
        input_fits(input@),
        url_parse(input@) is Ok,
    ensures
        r@ == url_path(input@),
{
    reqwest::Url::parse(input).unwrap().path().to_string()
}

/// Calls `reqwest::Url::set_path` on the URL that a text holds, and turns the new URL into text.
/// Claims that the new URL depends on the text and the path alone. The text has to hold a URL and
/// to be as short as for `parse_url`, and the new URL has to fit into 32-bit offsets, since
/// `set_path` panics where it does not.
#[verifier::external_body]
pub(crate) fn set_url_path(input: &str, path: &str) -> (r: String)
    requires
        input_fits(input@),
        path_fits(input@, path@),
    ensures
        r@ == url_with_path(input@, path@),
{
    let mut url = reqwest::Url::parse(input).unwrap();
    url.set_path(path);
    url.to_string()
}

/// No text of up to 2147483647 characters is too long, and no path is passed over with which the
/// URL surely stays below four gibibytes.
pub proof fn law_what_fits(input: Seq<char>, path: Seq<char>)
    ensures
        input_fits(input) <==> input.len() <= 2147483647,
        path_fits(input, path) <==> match url_parse(input) {
            Ok(text) => encode_utf8(text).len() + 3 * encode_utf8(path).len() + 16 <= 4294967295,
            Err(_) => false,
        },
{
}

} // verus!
