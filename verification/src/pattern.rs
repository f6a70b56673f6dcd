//! Regular expressions, through the `regex` crate.

use vstd::prelude::*;

verus! {

/// What `Regex::new(pattern)` followed by `replace_all(text, replacement)` gives:
/// `None` when the pattern does not compile. The matching rules of the `regex`
/// crate are not restated here.
pub uninterp spec fn regex_replace_all(pattern: Seq<char>, text: Seq<char>, replacement: Seq<char>) -> Option<
    Seq<char>,
>;

/// What `Regex::new(pattern)` followed by `is_match(text)` gives: `None` when the
/// pattern does not compile.
pub uninterp spec fn regex_is_match(pattern: Seq<char>, text: Seq<char>) -> Option<bool>;

/// `Regex::new(pattern)` and `replace_all(text, replacement)` of the `regex` crate;
/// `None` when the pattern does not compile. The result is named by
/// `regex_replace_all`.
#[verifier::external_body]
pub(crate) fn replace_all_matches(pattern: &str, text: &str, replacement: &str) -> (r: Option<String>)
    ensures
        match r {
            Some(t) => regex_replace_all(pattern@, text@, replacement@) == Some(t@),
            None => regex_replace_all(pattern@, text@, replacement@) is None,
        },
{
    match regex::Regex::new(pattern) {
        Ok(re) => Some(re.replace_all(text, replacement).into_owned()),
        Err(_) => None,
    }
}

/// `Regex::new(pattern)` and `is_match(text)` of the `regex` crate; `None` when
/// the pattern does not compile. The result is named by `regex_is_match`.
#[verifier::external_body]
pub(crate) fn matches_pattern(pattern: &str, text: &str) -> (r: Option<bool>)
    ensures
        r == regex_is_match(pattern@, text@),
{
    match regex::Regex::new(pattern) {
        Ok(re) => Some(re.is_match(text)),
        Err(_) => None,
    }
}

/// The text with every match of `pattern` replaced, or the text itself when the
/// pattern does not compile.
pub open spec fn replaced_or_same(pattern: Seq<char>, text: Seq<char>, replacement: Seq<char>) -> Seq<char> {
    match regex_replace_all(pattern, text, replacement) {
        Some(t) => t,
        None => text,
    }
}

/// Replaces every match of `pattern` (see `replaced_or_same`).
pub fn replace_all_or_same(pattern: &str, text: &str, replacement: &str) -> (r: String)
    ensures
        r@ == replaced_or_same(pattern@, text@, replacement@),
{
    match replace_all_matches(pattern, text, replacement) {
        Some(t) => t,
        None => String::from_str(text),
    }
}

/// Whether `pattern` matches somewhere in the text (`false` when the pattern does
/// not compile).
pub open spec fn found(pattern: Seq<char>, text: Seq<char>) -> bool {
    regex_is_match(pattern, text) == Some(true)
}

/// Whether `pattern` matches somewhere in the text (see `found`).
pub fn is_found(pattern: &str, text: &str) -> (b: bool)
    ensures
        b == found(pattern@, text@),
{
    match matches_pattern(pattern, text) {
        Some(b) => b,
        None => false,
    }
}

} // verus!
