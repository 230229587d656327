//! Compiled search terms and the three ways a line can be tested against them.
use aho_corasick::AhoCorasick;
use vstd::prelude::*;

use crate::automaton::{
    automaton_build_fails, automaton_ignores_ascii_case, automaton_is_match,
    automaton_patterns, build_automaton,
};
use crate::text::{
    all_ascii, all_occur, any_occurs, chars_agree, fold_ascii, occurs, occurs_at, str_contains,
    str_to_lowercase, unicode_lowercase,
};

verus! {

/// Up to this many case-sensitive terms are tested one by one; more go
/// through the automaton in a single pass.
pub const SENSITIVE_THRESHOLD: usize = 8;

/// Up to this many case-insensitive terms are tested one by one against the
/// lower-cased line; more go through the ASCII case-insensitive automaton.
pub const INSENSITIVE_THRESHOLD: usize = 4;

/// A set of search terms prepared once for repeated matching.
pub enum SearchMode {
    /// Terms compared exactly.
    Sensitive { terms: Vec<String>, aho: AhoCorasick },
    /// Terms compared without case: `terms_lower` holds each term
    /// lower-cased; the automaton holds the terms as given and ignores
    /// ASCII case.
    Insensitive { terms_lower: Vec<String>, aho: AhoCorasick },
}

/// Why a `SearchMode` could not be prepared.
#[derive(Debug, PartialEq, Eq)]
pub enum SearchModeError {
    /// The automaton for the terms could not be built.
    AutomatonBuild,
}

impl SearchMode {
    /// The terms as given and the automaton agree.
    pub open spec fn wf(&self) -> bool {
        match self {
            SearchMode::Sensitive { terms, aho } => {
                &&& automaton_patterns(*aho) == terms.deep_view()
                &&& !automaton_ignores_ascii_case(*aho)
            },
            SearchMode::Insensitive { terms_lower, aho } => {
                &&& automaton_ignores_ascii_case(*aho)
                &&& terms_lower.deep_view().len() == automaton_patterns(*aho).len()
                &&& forall|i: int|
                    0 <= i < terms_lower.deep_view().len() ==> #[trigger] terms_lower.deep_view()[i]
                        == unicode_lowercase(automaton_patterns(*aho)[i])
                &&& forall|i: int|
                    0 <= i < terms_lower.deep_view().len() && all_ascii(automaton_patterns(*aho)[i])
                        ==> #[trigger] terms_lower.deep_view()[i] == automaton_patterns(
                        *aho,
                    )[i].map_values(|c: char| fold_ascii(c))
            },
        }
    }

    /// The terms as they were given when this mode was prepared.
    pub open spec fn given_terms(&self) -> Seq<Seq<char>> {
        match self {
            SearchMode::Sensitive { aho, .. } => automaton_patterns(*aho),
            SearchMode::Insensitive { aho, .. } => automaton_patterns(*aho),
        }
    }

    /// Whether this mode ignores case.
    pub open spec fn is_insensitive(&self) -> bool {
        self is Insensitive
    }

    /// At least one term is found in `line`. A case-sensitive term is found
    /// when it occurs exactly. With few case-insensitive terms, a term is
    /// found when its lower-cased form occurs in the lower-cased line; with
    /// more, when it occurs up to ASCII case.
    pub open spec fn spec_matches_any(&self, line: Seq<char>) -> bool {
        match self {
            SearchMode::Sensitive { terms, .. } => any_occurs(terms.deep_view(), line, false),
            SearchMode::Insensitive { terms_lower, aho } => {
                if terms_lower.len() <= INSENSITIVE_THRESHOLD {
                    any_occurs(terms_lower.deep_view(), unicode_lowercase(line), false)
                } else {
                    any_occurs(automaton_patterns(*aho), line, true)
                }
            },
        }
    }

    /// Every term is found in `line`: exactly, or, ignoring case, as its
    /// lower-cased form in the lower-cased line.
    pub open spec fn spec_matches_all(&self, line: Seq<char>) -> bool {
        match self {
            SearchMode::Sensitive { terms, .. } => all_occur(terms.deep_view(), line, false),
            SearchMode::Insensitive { terms_lower, .. } => all_occur(
                terms_lower.deep_view(),
                unicode_lowercase(line),
                false,
            ),
        }
    }

    /// Prepares `search_terms`; ignoring case if `case_insensitive`. Fails
    /// exactly when the automaton for the terms cannot be built.
    pub fn new(search_terms: Vec<String>, case_insensitive: bool) -> (r: Result<SearchMode, SearchModeError>)
        ensures
            r is Err <==> automaton_build_fails(search_terms.deep_view(), case_insensitive),
            r matches Ok(m) ==> {
                &&& m.wf()
                &&& m.given_terms() == search_terms.deep_view()
                &&& m.is_insensitive() == case_insensitive
            },
    {
        if case_insensitive {
            let mut terms_lower: Vec<String> = Vec::new();
            let n = search_terms.len();
            let mut i: usize = 0;
            while i < n
                invariant
                    n == search_terms@.len(),
                    i <= n,
                    terms_lower.deep_view().len() == i,
                    forall|j: int|
                        0 <= j < i ==> #[trigger] terms_lower.deep_view()[j] == unicode_lowercase(
                            search_terms.deep_view()[j],
                        ),
                    forall|j: int|
                        0 <= j < i && all_ascii(search_terms.deep_view()[j])
                            ==> #[trigger] terms_lower.deep_view()[j] == search_terms.deep_view()[j].map_values(
                            |c: char| fold_ascii(c),
                        ),
                decreases n - i,
            {
                let lower = str_to_lowercase(search_terms[i].as_str());
                let ghost prev = terms_lower.deep_view();
                terms_lower.push(lower);
                assert(terms_lower.deep_view() =~= prev.push(
                    unicode_lowercase(search_terms.deep_view()[i as int]),
                ));
                i = i + 1;
            }
            match build_automaton(&search_terms, true) {
                Ok(aho) => Ok(SearchMode::Insensitive { terms_lower, aho }),
                Err(_) => Err(SearchModeError::AutomatonBuild),
            }
        } else {
            match build_automaton(&search_terms, false) {
                Ok(aho) => Ok(SearchMode::Sensitive { terms: search_terms, aho }),
                Err(_) => Err(SearchModeError::AutomatonBuild),
            }
        }
    }

    /// The terms as given and `line` are all ASCII.
    pub open spec fn ascii_only(&self, line: Seq<char>) -> bool {
        &&& all_ascii(line)
        &&& forall|i: int| 0 <= i < self.given_terms().len() ==> all_ascii(#[trigger] self.given_terms()[i])
    }

    /// Whether at least one term is found in `line` (see `spec_matches_any`).
    /// On ASCII text, ignoring case means ignoring ASCII case, however many
    /// terms there are.
    pub fn matches_any(&self, line: &str) -> (r: bool)
        requires
            self.wf(),
        ensures
            r == self.spec_matches_any(line@),
            r == some_term_found(*self, line@),
            self.is_insensitive() && self.ascii_only(line@) ==> r == any_occurs(self.given_terms(), line@, true),
    {
        proof {
            lemma_term_tests_meaning(*self, line@);
        }
        match self {
            SearchMode::Sensitive { terms, aho } => {
                if terms.len() <= SENSITIVE_THRESHOLD {
                    any_term_in(terms, line)
                } else {
                    automaton_is_match(aho, line)
                }
            },
            SearchMode::Insensitive { terms_lower, aho } => {
                if terms_lower.len() <= INSENSITIVE_THRESHOLD {
                    let lower = str_to_lowercase(line);
                    proof {
                        if self.ascii_only(line@) {
                            lemma_insensitive_ascii_agrees(*self, line@);
                        }
                    }
                    any_term_in(terms_lower, lower.as_str())
                } else {
                    automaton_is_match(aho, line)
                }
            },
        }
    }

    /// Whether no term is found in `line`.
    pub fn matches_none(&self, line: &str) -> (r: bool)
        requires
            self.wf(),
        ensures
            r == !self.spec_matches_any(line@),
            r == !some_term_found(*self, line@),
    {
        !self.matches_any(line)
    }

    /// Whether every term is found in `line` (see `spec_matches_all`). On
    /// ASCII text, ignoring case means ignoring ASCII case.
    pub fn matches_all(&self, line: &str) -> (r: bool)
        requires
            self.wf(),
        ensures
            r == self.spec_matches_all(line@),
            r == every_term_found(*self, line@),
            self.is_insensitive() && self.ascii_only(line@) ==> r == all_occur(self.given_terms(), line@, true),
    {
        proof {
            lemma_term_tests_meaning(*self, line@);
        }
        match self {
            SearchMode::Sensitive { terms, .. } => all_terms_in(terms, line),
            SearchMode::Insensitive { terms_lower, .. } => {
                let lower = str_to_lowercase(line);
                proof {
                    if self.ascii_only(line@) {
                        lemma_insensitive_ascii_agrees(*self, line@);
                    }
                }
                all_terms_in(terms_lower, lower.as_str())
            },
        }
    }
}

/// Some term, as it was given, is found in `line`: exactly when case
/// matters; ignoring case, as its lower-cased form in the lower-cased line
/// when there are at most `INSENSITIVE_THRESHOLD` terms, and up to ASCII case
/// when there are more.
pub open spec fn some_term_found(m: SearchMode, line: Seq<char>) -> bool {
    let ts = m.given_terms();
    if !m.is_insensitive() {
        exists|i: int| 0 <= i < ts.len() && #[trigger] occurs(ts[i], line, false)
    } else if ts.len() <= INSENSITIVE_THRESHOLD {
        exists|i: int|
            0 <= i < ts.len() && #[trigger] occurs(unicode_lowercase(ts[i]), unicode_lowercase(line), false)
    } else {
        exists|i: int| 0 <= i < ts.len() && #[trigger] occurs(ts[i], line, true)
    }
}

/// Every term, as it was given, is found in `line`: exactly when case
/// matters; ignoring case, as its lower-cased form in the lower-cased line.
pub open spec fn every_term_found(m: SearchMode, line: Seq<char>) -> bool {
    let ts = m.given_terms();
    if !m.is_insensitive() {
        forall|i: int| 0 <= i < ts.len() ==> #[trigger] occurs(ts[i], line, false)
    } else {
        forall|i: int|
            0 <= i < ts.len() ==> #[trigger] occurs(unicode_lowercase(ts[i]), unicode_lowercase(line), false)
    }
}

/// What the term tests mean, in terms of the terms as given: "any" holds
/// exactly when some given term is found in the line, "all" exactly when
/// every given term is (see `some_term_found`, `every_term_found`).
pub proof fn lemma_term_tests_meaning(m: SearchMode, line: Seq<char>)
    requires
        m.wf(),
    ensures
        m.spec_matches_any(line) == some_term_found(m, line),
        m.spec_matches_all(line) == every_term_found(m, line),
{
    if let SearchMode::Insensitive { terms_lower, aho } = m {
        let ts = m.given_terms();
        let lowered = terms_lower.deep_view();
        let ll = unicode_lowercase(line);
        assert(lowered.len() == ts.len());
        assert(terms_lower@.len() == lowered.len());
        assert(ts == automaton_patterns(aho));
        if any_occurs(lowered, ll, false) {
            let i = choose|i: int| 0 <= i < lowered.len() && #[trigger] occurs(lowered[i], ll, false);
            assert(lowered[i] == unicode_lowercase(ts[i]));
        }
        if ts.len() <= INSENSITIVE_THRESHOLD && some_term_found(m, line) {
            let i = choose|i: int|
                0 <= i < ts.len() && #[trigger] occurs(unicode_lowercase(ts[i]), ll, false);
            assert(lowered[i] == unicode_lowercase(ts[i]));
            assert(occurs(lowered[i], ll, false));
        }
        assert forall|i: int| 0 <= i < ts.len() implies #[trigger] occurs(unicode_lowercase(ts[i]), ll, false)
            == occurs(lowered[i], ll, false) by {
            assert(lowered[i] == unicode_lowercase(ts[i]));
        }
        if all_occur(lowered, ll, false) {
            assert forall|i: int| 0 <= i < ts.len() implies #[trigger] occurs(unicode_lowercase(ts[i]), ll, false) by {
                assert(occurs(lowered[i], ll, false));
            }
        }
        if every_term_found(m, line) {
            assert forall|i: int| 0 <= i < lowered.len() implies #[trigger] occurs(lowered[i], ll, false) by {
                assert(occurs(unicode_lowercase(ts[i]), ll, false));
            }
        }
        assert(m.spec_matches_all(line) == all_occur(lowered, ll, false));
        assert(m.spec_matches_all(line) == every_term_found(m, line));
        if ts.len() <= INSENSITIVE_THRESHOLD {
            assert(m.spec_matches_any(line) == any_occurs(lowered, ll, false));
            assert(m.spec_matches_any(line) == some_term_found(m, line));
        } else {
            assert(m.spec_matches_any(line) == any_occurs(ts, line, true));
        }
    } else if let SearchMode::Sensitive { terms, aho } = m {
        assert(m.given_terms() == terms.deep_view());
        assert(m.spec_matches_any(line) == any_occurs(m.given_terms(), line, false));
        assert(m.spec_matches_all(line) == all_occur(m.given_terms(), line, false));
    }
}

/// Whether some term occurs in `line`, testing the terms one by one.
fn any_term_in(terms: &Vec<String>, line: &str) -> (r: bool)
    ensures
        r == any_occurs(terms.deep_view(), line@, false),
{
    let n = terms.len();
    let mut i: usize = 0;
    while i < n
        invariant
            n == terms.deep_view().len(),
            i <= n,
            forall|j: int| 0 <= j < i ==> !#[trigger] occurs(terms.deep_view()[j], line@, false),
        decreases n - i,
    {
        if str_contains(line, terms[i].as_str()) {
            assert(occurs(terms.deep_view()[i as int], line@, false));
            return true;
        }
        i = i + 1;
    }
    false
}

/// Whether every term occurs in `line`.
fn all_terms_in(terms: &Vec<String>, line: &str) -> (r: bool)
    ensures
        r == all_occur(terms.deep_view(), line@, false),
{
    let n = terms.len();
    let mut i: usize = 0;
    while i < n
        invariant
            n == terms.deep_view().len(),
            i <= n,
            forall|j: int| 0 <= j < i ==> #[trigger] occurs(terms.deep_view()[j], line@, false),
        decreases n - i,
    {
        if !str_contains(line, terms[i].as_str()) {
            assert(!occurs(terms.deep_view()[i as int], line@, false));
            return false;
        }
        i = i + 1;
    }
    true
}


/// Lower-casing both sides by ASCII rules and comparing exactly finds the
/// same places as comparing without ASCII case.
proof fn lemma_folded_occurs(needle: Seq<char>, haystack: Seq<char>)
    ensures
        occurs(
            needle.map_values(|c: char| fold_ascii(c)),
            haystack.map_values(|c: char| fold_ascii(c)),
            false,
        ) == occurs(needle, haystack, true),
{
    let fneedle = needle.map_values(|c: char| fold_ascii(c));
    let fhay = haystack.map_values(|c: char| fold_ascii(c));
    if occurs(fneedle, fhay, false) {
        let k = choose|k: int| occurs_at(fneedle, fhay, k, false);
        assert forall|j: int| 0 <= j < needle.len() implies chars_agree(
            haystack[k + j],
            #[trigger] needle[j],
            true,
        ) by {
            assert(fneedle[j] == fhay[k + j]);
        }
        assert(occurs_at(needle, haystack, k, true));
    }
    if occurs(needle, haystack, true) {
        let k = choose|k: int| occurs_at(needle, haystack, k, true);
        assert forall|j: int| 0 <= j < fneedle.len() implies chars_agree(
            fhay[k + j],
            #[trigger] fneedle[j],
            false,
        ) by {
            assert(chars_agree(haystack[k + j], needle[j], true));
        }
        assert(occurs_at(fneedle, fhay, k, false));
    }
}

/// For ASCII terms and an ASCII line, the lower-cased comparison finds the
/// same as the comparison up to ASCII case.
proof fn lemma_insensitive_ascii_agrees(m: SearchMode, line: Seq<char>)
    requires
        m.wf(),
        m.is_insensitive(),
        m.ascii_only(line),
        unicode_lowercase(line) == line.map_values(|c: char| fold_ascii(c)),
    ensures
        m.spec_matches_any(line) == any_occurs(m.given_terms(), line, true),
        m.spec_matches_all(line) == all_occur(m.given_terms(), line, true),
{
    if let SearchMode::Insensitive { terms_lower, aho } = m {
        let ts = m.given_terms();
        let lowered = terms_lower.deep_view();
        let fline = line.map_values(|c: char| fold_ascii(c));
        assert forall|i: int| 0 <= i < ts.len() implies #[trigger] occurs(lowered[i], unicode_lowercase(line), false)
            == occurs(ts[i], line, true) by {
            assert(all_ascii(ts[i]));
            lemma_folded_occurs(ts[i], line);
        }
        if terms_lower.len() <= INSENSITIVE_THRESHOLD {
            if any_occurs(lowered, unicode_lowercase(line), false) {
                let i = choose|i: int| 0 <= i < lowered.len() && #[trigger] occurs(lowered[i], unicode_lowercase(line), false);
                assert(occurs(ts[i], line, true));
            }
            if any_occurs(ts, line, true) {
                let i = choose|i: int| 0 <= i < ts.len() && #[trigger] occurs(ts[i], line, true);
                assert(occurs(lowered[i], unicode_lowercase(line), false));
            }
        }
        assert forall|i: int| 0 <= i < ts.len() implies #[trigger] occurs(ts[i], line, true)
            == occurs(lowered[i], unicode_lowercase(line), false) by {}
    }
}

} // verus!
