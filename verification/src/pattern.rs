//! The regular-expression engine behind the classification rules.
//!
//! Matching is done by the `regex` crate. This module declares its types to
//! the verifier, names what its functions return, and wraps the calls the
//! library makes. Nothing in this file is proved: every contract here is an
//! assumption about `regex`.

use regex::Regex;
use vstd::prelude::*;

verus! {

/// `regex::Regex`, a compiled expression. The verifier sees nothing inside.
#[verifier::external_type_specification]
#[verifier::external_body]
pub struct ExRegex(regex::Regex);

/// `regex::Error`, why a pattern did not compile. The verifier sees nothing
/// inside.
#[verifier::external_type_specification]
#[verifier::external_body]
pub struct ExRegexError(regex::Error);

/// The pattern text that a compiled expression stands for: what the
/// expression matches depends on this text alone. Of an expression that
/// `regex::Regex::new` built, it is the text that was compiled.
pub uninterp spec fn regex_source(re: Regex) -> Seq<char>;

/// Whether `regex::Regex::new` accepts the pattern text.
pub uninterp spec fn regex_compiles(pattern: Seq<char>) -> bool;

/// Whether the expression built from `pattern` matches anywhere in `text`,
/// as `regex::Regex::is_match` reports it.
pub uninterp spec fn regex_matches(pattern: Seq<char>, text: Seq<char>) -> bool;

/// The text captured by group `group` in the leftmost match of the
/// expression built from `pattern` in `text`: `None` when there is no match,
/// when the expression has no such group, or when the group took no part in
/// the match.
pub uninterp spec fn regex_group(pattern: Seq<char>, text: Seq<char>, group: int) -> Option<
    Seq<char>,
>;

/// `regex::Regex::new`. Assumed: compilation succeeds exactly on the patterns
/// for which `regex_compiles` holds, and the compiled expression remembers
/// the pattern text it was given.
#[verifier::external_body]
pub(crate) fn compile(pattern: &str) -> (r: Result<Regex, regex::Error>)
    ensures
        r is Ok <==> regex_compiles(pattern@),
        r matches Ok(re) ==> regex_source(re) == pattern@,
{
    Regex::new(pattern)
}

/// `regex::Regex::is_match`. Assumed: the answer depends only on the pattern
/// text and the haystack.
#[verifier::external_body]
pub(crate) fn is_match(re: &Regex, text: &str) -> (b: bool)
    ensures
        b == regex_matches(regex_source(*re), text@),
{
    re.is_match(text)
}

/// `regex::Regex::captures`, then `regex::Captures::get` and
/// `regex::Match::as_str` on what it found. Assumed: the captured text
/// depends only on the pattern text, the haystack and the group index.
#[verifier::external_body]
pub(crate) fn capture_group(re: &Regex, text: &str, group: usize) -> (r: Option<String>)
    ensures
        r.deep_view() == regex_group(regex_source(*re), text@, group as int),
{
    match re.captures(text) {
        Some(caps) => match caps.get(group) {
            Some(m) => Some(m.as_str().to_string()),
            None => None,
        },
        None => None,
    }
}

} // verus!
