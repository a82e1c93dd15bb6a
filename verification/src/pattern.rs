//! Regular expressions, through the `regex` crate.
//!
//! Compiling and matching are the crate's work and are not proved here. What
//! they return is given a name, and the rest of the library is verified
//! against those names.

use vstd::prelude::*;

verus! {

/// `regex::Regex`, a compiled regular expression. Nothing is known of what
/// is inside one.
#[verifier::external_type_specification]
#[verifier::external_body]
pub struct ExRegex(regex::Regex);

/// `regex::Error`, the reason why a pattern does not compile. Nothing is
/// known of what is inside one.
#[verifier::external_type_specification]
#[verifier::external_body]
pub struct ExRegexError(regex::Error);

/// The capture groups of one match, by index. Group 0 is the whole match. A
/// group that took no part in the match is `None`.
pub type Groups = Seq<Option<Seq<char>>>;

/// What `regex::Regex::new` returns for `pattern`.
pub uninterp spec fn compiled(pattern: Seq<char>) -> Result<regex::Regex, regex::Error>;

/// What `regex::Regex::captures` finds in `text`: the groups of the first
/// match, or `None` where nothing matches.
pub uninterp spec fn first_match_of(re: regex::Regex, text: Seq<char>) -> Option<Groups>;

/// What `regex::Regex::captures_iter` yields on `text`: the groups of each of
/// the successive matches, none overlapping another.
pub uninterp spec fn all_matches_of(re: regex::Regex, text: Seq<char>) -> Seq<Groups>;

/// Whether `pattern` compiles.
pub open spec fn is_valid(pattern: Seq<char>) -> bool {
    compiled(pattern) is Ok
}

/// The groups of the first match of `pattern` in `text`.
pub open spec fn first_match(pattern: Seq<char>, text: Seq<char>) -> Option<Groups> {
    first_match_of(compiled(pattern)->Ok_0, text)
}

/// The groups of every match of `pattern` in `text`, in order.
pub open spec fn all_matches(pattern: Seq<char>, text: Seq<char>) -> Seq<Groups> {
    all_matches_of(compiled(pattern)->Ok_0, text)
}

/// `regex::Regex::new`: the outcome of compiling depends on the pattern alone.
pub assume_specification[ regex::Regex::new ](re: &str) -> (r: Result<regex::Regex, regex::Error>)
    ensures
        r == compiled(re@),
;

/// `regex::Regex::captures`, with each group of the match copied out as a
/// string: the result is what the name `first_match_of` stands for.
#[verifier::external_body]
pub(crate) fn captures(re: &regex::Regex, text: &str) -> (r: Option<Vec<Option<String>>>)
    ensures
        r.deep_view() == first_match_of(*re, text@),
{
    re.captures(text).map(|c| c.iter().map(|g| g.map(|m| m.as_str().to_string())).collect())
}

/// `regex::Regex::captures_iter`, run to its end, with each group of each
/// match copied out as a string: the result is what the name
/// `all_matches_of` stands for.
#[verifier::external_body]
pub(crate) fn captures_all(re: &regex::Regex, text: &str) -> (r: Vec<Vec<Option<String>>>)
    ensures
        r.deep_view() == all_matches_of(*re, text@),
{
    re.captures_iter(text).map(
        |c| c.iter().map(|g| g.map(|m| m.as_str().to_string())).collect(),
    ).collect()
}

} // verus!
