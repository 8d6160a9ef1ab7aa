//! The URIs that requests are sent to, built from a backend's base address.

use vstd::prelude::*;
use hyper::http::uri::InvalidUri;
use hyper::Uri;

verus! {

/// The URI type of the `http` crate. The library only carries it to the HTTP client.
#[verifier::external_type_specification]
#[verifier::external_body]
pub struct ExUri(hyper::Uri);

/// The error that the `http` crate returns for text that is not a URI.
#[verifier::external_type_specification]
#[verifier::external_body]
pub struct ExInvalidUri(hyper::http::uri::InvalidUri);

/// The URI that the `http` crate reads in `text`, or its error where it reads none.
pub uninterp spec fn parsed_uri(text: Seq<char>) -> Result<Uri, InvalidUri>;

/// Calls `<http::Uri as FromStr>::from_str`. Trusted: whether the text is accepted, the URI
/// that it is read as and the error where it is refused depend on the text alone, and are
/// what `parsed_uri` names.
#[verifier::external_body]
pub(crate) fn parse_uri(text: &str) -> (parsed: Result<Uri, InvalidUri>)
    ensures
        parsed == parsed_uri(text@),
{
    text.parse()
}

/// The path and query of `uri` as text, or `None` where it has neither.
pub uninterp spec fn uri_path_and_query(uri: Uri) -> Option<Seq<char>>;

/// Calls `http::Uri::path_and_query`, and `http::uri::PathAndQuery::as_str` on what it
/// returns. Trusted: the result depends on the URI alone, and is what `uri_path_and_query`
/// names.
#[verifier::external_body]
pub(crate) fn path_and_query(uri: &Uri) -> (text: Option<&str>)
    ensures
        match text {
            Some(text) => uri_path_and_query(*uri) == Some(text@),
            None => uri_path_and_query(*uri) is None,
        },
{
    match uri.path_and_query() {
        Some(text) => Some(text.as_str()),
        None => None,
    }
}

/// The URI that `base` directly followed by `path` spells, as the health check and the
/// request path both build it.
pub fn join_uri(base: &str, path: &str) -> (joined: Result<Uri, InvalidUri>)
    ensures
        joined == parsed_uri(base@ + path@),
{
    let text = base.to_owned().concat(path);
    parse_uri(text.as_str())
}

} // verus!
