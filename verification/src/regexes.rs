//! Regular expressions.
use regex::RegexBuilder;
use vstd::prelude::*;

verus! {

/// Whether the pattern compiles within the size limit.
pub uninterp spec fn regex_accepted(
    pattern: Seq<char>,
    case_insensitive: bool,
    size_limit: usize,
) -> bool;

/// Calls `regex::RegexBuilder::build` with the limit as the size limit of the program and of its
/// lazy automaton. Whether the pattern compiles depends on the arguments alone.
#[verifier::external_body]
pub(crate) fn regex_compiles(pattern: &str, case_insensitive: bool, size_limit: usize) -> (result:
    bool)
    ensures
        result == regex_accepted(pattern@, case_insensitive, size_limit),
{
    RegexBuilder::new(pattern)
        .case_insensitive(case_insensitive)
        .size_limit(size_limit)
        .dfa_size_limit(size_limit)
        .build()
        .is_ok()
}

/// Whether the pattern, once compiled, finds a match in the text.
pub uninterp spec fn regex_found(
    pattern: Seq<char>,
    case_insensitive: bool,
    size_limit: usize,
    text: Seq<char>,
) -> bool;

/// Calls `regex::Regex::is_match` on the pattern compiled as by `regex_compiles`. A pattern that
/// does not compile gives `None`; otherwise the answer depends on the arguments alone.
#[verifier::external_body]
pub(crate) fn regex_is_match(
    pattern: &str,
    case_insensitive: bool,
    size_limit: usize,
    text: &str,
) -> (result: Option<bool>)
    ensures
        result == (if regex_accepted(pattern@, case_insensitive, size_limit) {
            Some(regex_found(pattern@, case_insensitive, size_limit, text@))
        } else {
            None
        }),
{
    RegexBuilder::new(pattern)
        .case_insensitive(case_insensitive)
        .size_limit(size_limit)
        .dfa_size_limit(size_limit)
        .build()
        .ok()
        .map(|regex| regex.is_match(text))
}

} // verus!
