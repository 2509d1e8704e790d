//! Matching device names against a regular expression.

use vstd::prelude::*;

verus! {

/// Why the regex crate refuses `pattern` as a regular expression; nothing if
/// it accepts it.
pub uninterp spec fn regex_rejection(pattern: Seq<char>) -> Option<Seq<char>>;

/// The regular expression `pattern` matches somewhere in `text`.
pub uninterp spec fn regex_matches(pattern: Seq<char>, text: Seq<char>) -> bool;

/// `regex::Regex::new`, reduced to the text of its error. Trusted: whether a
/// pattern compiles, and the words of the refusal, depend on the pattern
/// alone.
#[verifier::external_body]
pub(crate) fn regex_error(pattern: &str) -> (r: Option<String>)
    ensures
        r is Some <==> regex_rejection(pattern@) is Some,
        r matches Some(reason) ==> reason@ == regex_rejection(pattern@)->0,
{
    match regex::Regex::new(pattern) {
        Ok(_) => None,
        Err(e) => Some(e.to_string()),
    }
}

/// `regex::Regex::is_match`, on a pattern that compiles. Trusted: the answer
/// depends on the pattern and the text alone.
#[verifier::external_body]
pub(crate) fn regex_is_match(pattern: &str, text: &str) -> (r: bool)
    requires
        regex_rejection(pattern@) is None,
    ensures
        r == regex_matches(pattern@, text@),
{
    regex::Regex::new(pattern).unwrap().is_match(text)
}

} // verus!
