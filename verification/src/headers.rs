//! HTTP headers, held in a `reqwest::header::HeaderMap`.

use reqwest::header::{HeaderMap, HeaderValue};
use vstd::prelude::*;

verus! {

/// The header map of `reqwest`, opaque.
#[verifier::external_type_specification]
#[verifier::external_body]
#[verifier::reject_recursive_types(T)]
pub struct ExHeaderMap<T>(reqwest::header::HeaderMap<T>);

/// The header value of `reqwest`, opaque.
#[verifier::external_type_specification]
#[verifier::external_body]
pub struct ExHeaderValue(reqwest::header::HeaderValue);

/// The names, in lower case, of the headers that a header map holds a value for.
pub uninterp spec fn header_names(headers: HeaderMap<HeaderValue>) -> Set<Seq<char>>;

/// Whether a header map holds a value for the `authorization` header.
pub open spec fn authorized(headers: HeaderMap<HeaderValue>) -> bool {
    header_names(headers).contains("authorization"@)
}

/// Calls `HeaderMap::contains_key` with `reqwest::header::AUTHORIZATION`. Claims that it tells
/// whether the map holds a value for the header of that name.
#[verifier::external_body]
pub(crate) fn has_authorization(headers: &HeaderMap<HeaderValue>) -> (r: bool)
    ensures
        r == header_names(*headers).contains("authorization"@),
{
    headers.contains_key(reqwest::header::AUTHORIZATION)
}

} // verus!
