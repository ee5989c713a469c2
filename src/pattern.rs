//! Regular-expression tests through the `regex` crate.

use vstd::prelude::*;

verus! {

/// Whether `text` holds a match of the regular expression `pattern`.
pub uninterp spec fn regex_match(pattern: Seq<char>, text: Seq<char>) -> bool;

/// A link ending in `.gif`, in any case.
pub const GIF_PATTERN: &'static str = "([^\\s]+(\\.(?i)(gif))$)";

/// A link through the site's own outbound redirector.
pub const REDIRECT_PATTERN: &'static str = "^https?://(([-a-zA-Z0-9%_]+\\.)?reactor|joyreactor)\\.cc/redirect\\?url=.*";

/// A text that is itself a URL.
pub const URL_PATTERN: &'static str = "^(https?|ftp|file)://[-a-zA-Z0-9+&@#/%?=~_|!:,.;]*[-a-zA-Z0-9+&@#/%=~_|]";

/// The patterns the classifier tests, each a valid regular expression.
pub open spec fn known_pattern(p: Seq<char>) -> bool {
    p == GIF_PATTERN@ || p == REDIRECT_PATTERN@ || p == URL_PATTERN@
}

/// Relies on regex::Regex::new and Regex::is_match: whether `text` holds a
/// match of `pattern`. The three admitted patterns compile, so the fallback
/// is never taken.
#[verifier::external_body]
fn regex_is_match(pattern: &str, text: &str) -> (r: bool)
    requires
        known_pattern(pattern@),
    ensures
        r == regex_match(pattern@, text@),
{
    regex::Regex::new(pattern).map(|re| re.is_match(text)).unwrap_or(false)
}

/// Whether `text` matches one of the classifier's patterns.
pub fn matches_pattern(pattern: &str, text: &str) -> (r: bool)
    requires
        known_pattern(pattern@),
    ensures
        r == regex_match(pattern@, text@),
{
    regex_is_match(pattern, text)
}

} // verus!
