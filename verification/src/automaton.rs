//! The multi-pattern matcher of the `aho-corasick` crate, as the library sees it.
use aho_corasick::{AhoCorasick, AhoCorasickBuilder, BuildError};
use vstd::prelude::*;

use crate::text::any_occurs;

verus! {

/// The automaton type of `aho-corasick`; opaque here.
#[verifier::external_type_specification]
#[verifier::external_body]
pub struct ExAhoCorasick(AhoCorasick);

/// The error `aho-corasick` reports when an automaton cannot be built.
#[verifier::external_type_specification]
#[verifier::external_body]
pub struct ExBuildError(BuildError);

/// The patterns an automaton was built from, in order.
pub uninterp spec fn automaton_patterns(aut: AhoCorasick) -> Seq<Seq<char>>;

/// Whether an automaton was built to ignore ASCII case.
pub uninterp spec fn automaton_ignores_ascii_case(aut: AhoCorasick) -> bool;

/// Whether building an automaton from these patterns, with this case setting,
/// fails (the crate's limits on states and pattern identifiers are exceeded).
pub uninterp spec fn automaton_build_fails(patterns: Seq<Seq<char>>, ascii_case_insensitive: bool) -> bool;

/// `AhoCorasickBuilder::new().ascii_case_insensitive(..).build(patterns)`,
/// with the default (standard) match semantics. The contract claims that the
/// outcome depends on the patterns and the case setting alone, and that a
/// built automaton remembers both; when building fails is left to the name
/// `automaton_build_fails`.
#[verifier::external_body]
pub(crate) fn build_automaton(patterns: &Vec<String>, ascii_case_insensitive: bool) -> (r: Result<AhoCorasick, BuildError>)
    ensures
        r is Err <==> automaton_build_fails(patterns.deep_view(), ascii_case_insensitive),
        r matches Ok(aut) ==> automaton_patterns(aut) == patterns.deep_view()
            && automaton_ignores_ascii_case(aut) == ascii_case_insensitive,
{
    AhoCorasickBuilder::new().ascii_case_insensitive(ascii_case_insensitive).build(patterns)
}

/// `AhoCorasick::is_match`: true exactly when one of the automaton's patterns
/// occurs somewhere in the haystack (ASCII letters compared without case when
/// the automaton was built so). The crate matches UTF-8 bytes; for valid
/// UTF-8 on both sides that is the same as matching characters.
#[verifier::external_body]
pub(crate) fn automaton_is_match(aut: &AhoCorasick, haystack: &str) -> (r: bool)
    ensures
        r == any_occurs(automaton_patterns(*aut), haystack@, automaton_ignores_ascii_case(*aut)),
{
    aut.is_match(haystack)
}

} // verus!
