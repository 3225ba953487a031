//! Regular-expression search, done by the `regex` crate.

use vstd::prelude::*;

verus! {

/// The error that the `regex` crate gives for a pattern it does not compile.
#[verifier::external_type_specification]
#[verifier::external_body]
pub struct ExRegexError(regex::Error);

/// Whether `regex::Regex::new` compiles `pattern`.
pub uninterp spec fn pattern_accepted(pattern: Seq<char>) -> bool;

/// What the first capture group holds in the leftmost match that
/// `regex::Regex::captures` finds for `pattern` in `haystack`; `None` where
/// nothing matches, the pattern has no such group, or the group took no part
/// in the match.
pub uninterp spec fn first_capture(pattern: Seq<char>, haystack: Seq<char>) -> Option<Seq<char>>;

/// The characters of a capture, if there is one.
pub open spec fn capture_view(found: Option<Vec<char>>) -> Option<Seq<char>> {
    match found {
        Some(text) => Some(text@),
        None => None,
    }
}

/// Compiles `pattern` with `regex::Regex::new` and searches `haystack` with
/// `Regex::captures`, reading group 1 with `Captures::get`.
///
/// Trusted, not proved: the search fails exactly where the pattern does not
/// compile, and otherwise returns the text of the first capture group in the
/// leftmost match, if there is one; both depend on the pattern and the
/// haystack alone.
#[verifier::external_body]
pub(crate) fn search_first_capture(pattern: &str, haystack: &Vec<char>) -> (r: Result<
    Option<Vec<char>>,
    regex::Error,
>)
    ensures
        r is Ok <==> pattern_accepted(pattern@),
        r matches Ok(found) ==> capture_view(found) == first_capture(pattern@, haystack@),
{
    let text: String = haystack.iter().collect();
    let re = regex::Regex::new(pattern)?;
    Ok(re.captures(&text).and_then(|c| c.get(1)).map(|m| m.as_str().chars().collect()))
}

} // verus!
