//! URL resolution through the `url` crate, and percent-decoding through
//! `percent-encoding`.

use vstd::prelude::*;
use crate::text::opt_chars;

verus! {

/// Whether `s` parses as an absolute URL.
pub uninterp spec fn parses_as_url(s: Seq<char>) -> bool;

/// The serialisation of `rel` resolved against the URL `base`; `None` when
/// `base` does not parse or `rel` does not resolve.
pub uninterp spec fn url_join(base: Seq<char>, rel: Seq<char>) -> Option<Seq<char>>;

/// The host of the URL `s` when it parses and its host is a domain name.
pub uninterp spec fn url_domain_of(s: Seq<char>) -> Option<Seq<char>>;

/// The path of the URL `s` when it parses.
pub uninterp spec fn url_path_of(s: Seq<char>) -> Option<Seq<char>>;

/// What percent-decoding `s` and reading the bytes as UTF-8 gives; `None` when
/// the bytes are not UTF-8.
pub uninterp spec fn percent_decoded(s: Seq<char>) -> Option<Seq<char>>;

/// Relies on url::Url::parse: whether `s` is an absolute URL.
#[verifier::external_body]
pub(crate) fn url_parses(s: &str) -> (r: bool)
    ensures
        r == parses_as_url(s@),
{
    url::Url::parse(s).is_ok()
}

/// Relies on url::Url::join: `rel` resolved against the URL `base` (parsed
/// with url::Url::parse), serialised.
#[verifier::external_body]
pub(crate) fn join_url(base: &str, rel: &str) -> (r: Option<String>)
    ensures
        opt_chars(r) == url_join(base@, rel@),
        r is Some ==> parses_as_url(base@),
{
    url::Url::parse(base).and_then(|b| b.join(rel)).ok().map(|u| u.to_string())
}

/// Relies on url::Url::domain: the domain of the URL `s` (parsed with
/// url::Url::parse).
#[verifier::external_body]
pub(crate) fn url_domain(s: &str) -> (r: Option<String>)
    ensures
        opt_chars(r) == url_domain_of(s@),
{
    url::Url::parse(s).ok().and_then(|u| u.domain().map(|d| d.to_string()))
}

/// Relies on url::Url::path: the path of the URL `s` (parsed with
/// url::Url::parse); `None` when `s` does not parse.
#[verifier::external_body]
pub(crate) fn url_path(s: &str) -> (r: Option<String>)
    ensures
        opt_chars(r) == url_path_of(s@),
        r is Some <==> parses_as_url(s@),
{
    url::Url::parse(s).ok().map(|u| u.path().to_string())
}

/// Relies on percent_encoding::percent_decode and PercentDecode::decode_utf8:
/// the decoded text depends on `s` alone.
#[verifier::external_body]
fn percent_unescape(s: &str) -> (r: Option<String>)
    ensures
        opt_chars(r) == percent_decoded(s@),
{
    percent_encoding::percent_decode(s.as_bytes()).decode_utf8().ok().map(|t| t.into_owned())
}

/// `s` percent-decoded; `s` itself when the decoded bytes are not UTF-8.
pub open spec fn unescaped(s: Seq<char>) -> Seq<char> {
    match percent_decoded(s) {
        Some(t) => t,
        None => s,
    }
}

/// `s` percent-decoded; `s` itself when the decoded bytes are not UTF-8.
pub fn unescape(s: &str) -> (r: String)
    ensures
        r@ == unescaped(s@),
{
    match percent_unescape(s) {
        Some(t) => t,
        None => String::from_str(s),
    }
}

/// `rel` resolved against `base` and percent-decoded.
pub open spec fn resolved(base: Seq<char>, rel: Seq<char>) -> Option<Seq<char>> {
    match url_join(base, rel) {
        Some(j) => Some(unescaped(j)),
        None => None,
    }
}

/// `rel` resolved against the URL `base` and percent-decoded; `None` when it
/// does not resolve.
pub fn resolve(base: &str, rel: &str) -> (r: Option<String>)
    ensures
        opt_chars(r) == resolved(base@, rel@),
{
    match join_url(base, rel) {
        Some(j) => Some(unescape(j.as_str())),
        None => None,
    }
}

} // verus!
