//! Regular expressions. Matching is the work of the `regex` crate; this
//! module gives each operation a name for what it returns and a function
//! that makes the call. Nothing here is proved.

use crate::models::opt_view;
use regex::Regex;
use vstd::prelude::*;

verus! {

/// `text` with every match of `pattern` replaced by what `with` expands to
/// for that match, leftmost first and not overlapping; nothing where
/// `pattern` is no regular expression.
pub uninterp spec fn replaced_of(pattern: Seq<char>, text: Seq<char>, with: Seq<char>) -> Option<
    Seq<char>,
>;

/// What group `group` holds in the leftmost match of `pattern` in `text`;
/// nothing where `pattern` is no regular expression, matches nowhere, or
/// the group took no part in the match.
pub uninterp spec fn capture_of(pattern: Seq<char>, text: Seq<char>, group: usize) -> Option<
    Seq<char>,
>;

/// Calls `regex::Regex::new` and `regex::Regex::replace_all`. Believed: the
/// text returned is what `replaced_of` names.
#[verifier::external_body]
pub(crate) fn replace_all(pattern: &str, text: &str, with: &str) -> (r: Option<String>)
    ensures
        opt_view(r) == replaced_of(pattern@, text@, with@),
{
    match Regex::new(pattern) {
        Ok(re) => Some(re.replace_all(text, with).into_owned()),
        Err(_) => None,
    }
}

/// Calls `regex::Regex::new`, `regex::Regex::captures` and
/// `regex::Captures::get`. Believed: the text returned is what `capture_of` names.
#[verifier::external_body]
pub(crate) fn capture(pattern: &str, text: &str, group: usize) -> (r: Option<String>)
    ensures
        opt_view(r) == capture_of(pattern@, text@, group),
{
    match Regex::new(pattern) {
        Ok(re) => re.captures(text).and_then(|c| c.get(group)).map(|m| m.as_str().to_string()),
        Err(_) => None,
    }
}

} // verus!
