//! The regular-expression engine, as far as this library relies on it.
//!
//! Nothing here is proved: the engine is the `regex` crate, and what it
//! answers is given a name so that contracts can speak of it.

use crate::text::option_view;
use vstd::prelude::*;

verus! {

/// Whether `regex::Regex::new` accepts `pattern`, with the engine's default
/// settings.
pub uninterp spec fn pattern_compiles(pattern: Seq<char>) -> bool;

/// What `regex::Regex::captures` reports for the leftmost match of `pattern`
/// in `text`: the texts of capture groups 1 and 2, each absent when the
/// group took no part in the match, or nothing at all when `pattern` matches
/// nowhere in `text`.
pub uninterp spec fn captured_pair(pattern: Seq<char>, text: Seq<char>) -> Option<
    (Option<Seq<char>>, Option<Seq<char>>),
>;

/// The characters of an optional pair of optional texts.
pub open spec fn pair_view(found: Option<(Option<&str>, Option<&str>)>) -> Option<
    (Option<Seq<char>>, Option<Seq<char>>),
> {
    match found {
        Some((a, b)) => Some((option_view(a), option_view(b))),
        None => None,
    }
}

/// Asks `regex::Regex::new` whether it accepts `pattern`. The answer is the
/// one that `pattern_compiles` names.
#[verifier::external_body]
pub(crate) fn pattern_accepted(pattern: &str) -> (ok: bool)
    ensures
        ok == pattern_compiles(pattern@),
{
    regex::Regex::new(pattern).is_ok()
}

/// Compiles `pattern` with `regex::Regex::new`, searches `text` with
/// `Regex::captures` and reads groups 1 and 2 with `Captures::get` and
/// `Match::as_str`. The result is the one that `captured_pair` names; the
/// pattern must be one that the engine accepts.
#[verifier::external_body]
pub(crate) fn search_pair<'t>(pattern: &str, text: &'t str) -> (found: Option<
    (Option<&'t str>, Option<&'t str>),
>)
    requires
        pattern_compiles(pattern@),
    ensures
        pair_view(found) == captured_pair(pattern@, text@),
{
    let re = regex::Regex::new(pattern).unwrap();
    re.captures(text).map(|caps| (caps.get(1).map(|m| m.as_str()), caps.get(2).map(|m| m.as_str())))
}

/// Whether `regex::Regex::is_match` finds a match of `pattern` anywhere in
/// `text`, for a pattern compiled with the engine's default settings.
pub uninterp spec fn pattern_matches(pattern: Seq<char>, text: Seq<char>) -> bool;

/// Compiles `pattern` with `regex::Regex::new` and asks `Regex::is_match`
/// for a match anywhere in `text`. The answer is the one that
/// `pattern_matches` names; the pattern must be one that the engine
/// accepts.
#[verifier::external_body]
pub(crate) fn matches_anywhere(pattern: &str, text: &str) -> (found: bool)
    requires
        pattern_compiles(pattern@),
    ensures
        found == pattern_matches(pattern@, text@),
{
    regex::Regex::new(pattern).unwrap().is_match(text)
}

/// Whether `regex::RegexBuilder::build` accepts `pattern` when letter case
/// is to be ignored or not, as `insensitive` says, and every other setting
/// is the default.
pub uninterp spec fn pattern_builds(pattern: Seq<char>, insensitive: bool) -> bool;

/// Asks `regex::RegexBuilder`, through `new`, `case_insensitive` and
/// `build`, whether it accepts `pattern`. The answer is the one that
/// `pattern_builds` names.
#[verifier::external_body]
pub(crate) fn pattern_built(pattern: &str, insensitive: bool) -> (ok: bool)
    ensures
        ok == pattern_builds(pattern@, insensitive),
{
    regex::RegexBuilder::new(pattern).case_insensitive(insensitive).build().is_ok()
}

} // verus!
