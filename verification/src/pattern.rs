//! Searching text for a regular expression, by the `regex` crate.

use regex::Regex;
use vstd::prelude::*;

verus! {

/// What a search for the regular expression `pattern` in `text` returns:
/// whether some part of `text` matches, or `None` where `pattern` is not a
/// regular expression that the `regex` crate takes.
pub uninterp spec fn regex_search(pattern: Seq<char>, text: Seq<char>) -> Option<bool>;

/// Compiles `pattern` by `Regex::new` and asks `Regex::is_match` whether it
/// matches anywhere in `text`.
///
/// Trusted, not proved: the answer depends on the two texts alone, so it
/// has the name [`regex_search`]. `None` is returned where `Regex::new`
/// refuses the pattern. Nothing is claimed of which texts match.
#[verifier::external_body]
pub(crate) fn search(pattern: &str, text: &str) -> (found: Option<bool>)
    ensures
        found == regex_search(pattern@, text@),
{
    match Regex::new(pattern) {
        Ok(regex) => Some(regex.is_match(text)),
        Err(_) => None,
    }
}

} // verus!
