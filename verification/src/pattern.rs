//! Regular expressions, as the `regex` crate matches them.

use vstd::prelude::*;

verus! {

/// What the `regex` crate answers for the regular expression `pattern` and
/// the text `haystack`: `None` where it does not accept `pattern` as a regular
/// expression, and otherwise whether the expression matches somewhere in
/// `haystack`.
pub uninterp spec fn regex_match(pattern: Seq<char>, haystack: Seq<char>) -> Option<bool>;

/// Compiles `pattern` with `regex::Regex::new` and searches `haystack` with
/// `Regex::is_match`. Nothing is proved of the answer: the contract gives it
/// a name, on the ground that both calls depend on their arguments alone.
#[verifier::external_body]
pub(crate) fn search(pattern: &str, haystack: &str) -> (r: Option<bool>)
    ensures
        r == regex_match(pattern@, haystack@),
{
    match regex::Regex::new(pattern) {
        Ok(compiled) => Some(compiled.is_match(haystack)),
        Err(_) => None,
    }
}

/// Whether the answer `outcome` of a search says that the pattern was
/// accepted and matched.
pub fn found(outcome: Option<bool>) -> (r: bool)
    ensures
        r == (outcome == Some(true)),
{
    match outcome {
        Some(matched) => matched,
        None => false,
    }
}

} // verus!
