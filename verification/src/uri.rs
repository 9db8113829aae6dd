//! What the message layer takes from the URL libraries: the parts of a
//! parsed absolute URL, percent-decoding and the pairs of URL-encoded data.

use crate::datastructures::pair_views;
use vstd::prelude::*;

verus! {

/// The view of an optional string.
pub open spec fn opt_view(o: Option<String>) -> Option<Seq<char>> {
    match o {
        Some(s) => Some(s@),
        None => None,
    }
}

/// The two parts of a parsed URL that a request is asked for: the path, as
/// it is written in the URL, and the query, if the URL has one.
#[derive(Clone, Debug)]
pub struct UrlParts {
    pub path: String,
    pub query: Option<String>,
}

impl View for UrlParts {
    type V = (Seq<char>, Option<Seq<char>>);

    open spec fn view(&self) -> (Seq<char>, Option<Seq<char>>) {
        (self.path@, opt_view(self.query))
    }
}

/// The view of an optional parsed URL.
pub open spec fn opt_parts_view(o: Option<UrlParts>) -> Option<(Seq<char>, Option<Seq<char>>)> {
    match o {
        Some(p) => Some(p@),
        None => None,
    }
}

/// Path and query of the URL that `text` parses to; `None` where `text` is
/// no absolute URL.
pub uninterp spec fn parsed_url(text: Seq<char>) -> Option<(Seq<char>, Option<Seq<char>>)>;

/// The text that percent-decoding makes of `text`.
pub uninterp spec fn percent_decoded(text: Seq<char>) -> Seq<char>;

/// The name and value pairs that URL-encoded `input` decodes to.
pub uninterp spec fn urlencoded_pairs(input: Seq<u8>) -> Seq<(Seq<char>, Seq<char>)>;

/// Calls `url::Url::parse` and reads `path()` and `query()` of the result.
/// Trusted: the outcome is what `parsed_url` names for this text, and
/// `None` exactly where the parser reports an error.
#[verifier::external_body]
pub(crate) fn parse_url(text: &str) -> (r: Option<UrlParts>)
    ensures
        opt_parts_view(r) == parsed_url(text@),
{
    match url::Url::parse(text) {
        Ok(parsed) => {
            let query = match parsed.query() {
                Some(q) => Some(q.to_string()),
                None => None,
            };
            Some(UrlParts { path: parsed.path().to_string(), query })
        },
        Err(_) => None,
    }
}

/// Calls `percent_encoding::percent_decode_str` and reads the bytes as
/// UTF-8 with `decode_utf8_lossy`. Trusted: the result is what
/// `percent_decoded` names for this text.
#[verifier::external_body]
pub(crate) fn percent_decode(text: &str) -> (r: String)
    ensures
        r@ == percent_decoded(text@),
{
    percent_encoding::percent_decode_str(text).decode_utf8_lossy().into_owned()
}

/// Calls `form_urlencoded::parse` and collects the pairs it yields, in
/// order. Trusted: the result is what `urlencoded_pairs` names for these
/// bytes.
#[verifier::external_body]
pub(crate) fn parse_urlencoded(input: &[u8]) -> (r: Vec<(String, String)>)
    ensures
        pair_views(r@) == urlencoded_pairs(input@),
{
    form_urlencoded::parse(input).into_owned().collect()
}

} // verus!
