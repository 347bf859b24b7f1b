//! Regular-expression matching, done by the `regex` crate.

use vstd::prelude::*;

verus! {

/// What compiling `pattern` with the `regex` crate and matching it against `haystack` gives:
/// `None` when the pattern does not compile, otherwise whether some part of `haystack` matches.
pub uninterp spec fn regex_match(pattern: Seq<char>, haystack: Seq<char>) -> Option<bool>;

/// `regex::Regex::new(pattern)` followed by `Regex::is_match(haystack)`. The result is a
/// function of the two strings alone; which strings match is not stated here.
#[verifier::external_body]
pub(crate) fn regex_is_match(pattern: &str, haystack: &str) -> (r: Option<bool>)
    ensures
        r == regex_match(pattern@, haystack@),
{
    match regex::Regex::new(pattern) {
        Ok(re) => Some(re.is_match(haystack)),
        Err(_) => None,
    }
}

/// What compiling `pattern` with the `regex` crate and taking the captures of its first
/// match in `haystack` gives, for a pattern with two groups that take part in every match:
/// `None` when the pattern does not compile or nothing matches, otherwise the text of the two
/// groups.
pub uninterp spec fn regex_two_groups(pattern: Seq<char>, haystack: Seq<char>) -> Option<(Seq<char>, Seq<char>)>;

/// `regex::Regex::new(pattern)` followed by `Regex::captures(haystack)`, giving groups 1
/// and 2 of the first match. The result is a function of the two strings alone; which texts
/// the groups hold is not stated here.
#[verifier::external_body]
pub(crate) fn regex_captures_two(pattern: &str, haystack: &str) -> (r: Option<(String, String)>)
    ensures
        match r {
            Some((a, b)) => regex_two_groups(pattern@, haystack@) == Some((a@, b@)),
            None => regex_two_groups(pattern@, haystack@) is None,
        },
{
    let re = regex::Regex::new(pattern).ok()?;
    let caps = re.captures(haystack)?;
    Some((caps.get(1)?.as_str().to_string(), caps.get(2)?.as_str().to_string()))
}

} // verus!
