//! Request URIs, as the `http` crate reads them.
use vstd::prelude::*;

verus! {

/// A URI in parts: as it is written, its path, and its scheme if it has one.
#[derive(Debug)]
pub struct UriParts {
    pub text: String,
    pub path: String,
    pub scheme: Option<String>,
}

/// What the parts of a URI say.
pub open spec fn parts_view(parts: UriParts) -> (Seq<char>, Seq<char>, Option<Seq<char>>) {
    (
        parts.text@,
        parts.path@,
        match parts.scheme {
            Some(scheme) => Some(scheme@),
            None => None,
        },
    )
}

/// The URI that `http::Uri` reads in a text: how it writes the URI, the path
/// and the scheme; nothing if it refuses the text.
pub uninterp spec fn parsed_uri(text: Seq<char>) -> Option<
    (Seq<char>, Seq<char>, Option<Seq<char>>),
>;

/// `http::Uri::from_str`, with what `to_string`, `path` and `scheme_str` give
/// of the URI: a function of the text alone.
#[verifier::external_body]
pub(crate) fn parse_uri(text: &str) -> (parts: Option<UriParts>)
    ensures
        parts is None ==> parsed_uri(text@) is None,
        parts matches Some(parts) ==> parsed_uri(text@) == Some(parts_view(parts)),
{
    let uri: http::Uri = text.parse().ok()?;
    Some(
        UriParts {
            text: uri.to_string(),
            path: uri.path().to_string(),
            scheme: uri.scheme_str().map(|scheme| scheme.to_string()),
        },
    )
}

} // verus!
