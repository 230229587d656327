//! The settings a search runs with.
use vstd::prelude::*;

use crate::input_source::{InputSource, InputSourceView};

verus! {

/// What was asked for on the command line.
pub struct Arguments {
    pub path: InputSource,
    pub or_search_terms: Option<Vec<String>>,
    pub and_search_terms: Option<Vec<String>>,
    pub ex_search_terms: Option<Vec<String>>,
    pub case_insensitive: bool,
    pub before_lines: u16,
    pub after_lines: u16,
    pub numerate_lines: bool,
    pub file_types: Option<Vec<String>>,
}

/// `Arguments` with all text as character sequences.
pub struct ArgumentsView {
    pub path: InputSourceView,
    pub or_search_terms: Option<Seq<Seq<char>>>,
    pub and_search_terms: Option<Seq<Seq<char>>>,
    pub ex_search_terms: Option<Seq<Seq<char>>>,
    pub case_insensitive: bool,
    pub before_lines: u16,
    pub after_lines: u16,
    pub numerate_lines: bool,
    pub file_types: Option<Seq<Seq<char>>>,
}

/// A list of strings, if present, as character sequences.
pub open spec fn terms_view(terms: Option<Vec<String>>) -> Option<Seq<Seq<char>>> {
    match terms {
        Some(ts) => Some(ts.deep_view()),
        None => None,
    }
}

/// A list of strings as character sequences; empty when absent.
pub open spec fn terms_or_empty(terms: Option<Vec<String>>) -> Seq<Seq<char>> {
    match terms {
        Some(ts) => ts.deep_view(),
        None => Seq::<Seq<char>>::empty(),
    }
}

impl View for Arguments {
    type V = ArgumentsView;

    open spec fn view(&self) -> ArgumentsView {
        ArgumentsView {
            path: self.path@,
            or_search_terms: terms_view(self.or_search_terms),
            and_search_terms: terms_view(self.and_search_terms),
            ex_search_terms: terms_view(self.ex_search_terms),
            case_insensitive: self.case_insensitive,
            before_lines: self.before_lines,
            after_lines: self.after_lines,
            numerate_lines: self.numerate_lines,
            file_types: terms_view(self.file_types),
        }
    }
}

/// The terms of a list, if present; none when absent.
fn terms_slice(terms: &Option<Vec<String>>) -> (r: &[String])
    ensures
        r@.map_values(|s: String| s@) == terms_or_empty(*terms),
{
    match terms {
        Some(ts) => {
            assert(ts@.map_values(|s: String| s@) =~= ts.deep_view());
            ts.as_slice()
        },
        None => {
            let empty: &[String] = &[];
            assert(empty@.map_values(|s: String| s@) =~= Seq::<Seq<char>>::empty());
            empty
        },
    }
}

impl Arguments {
    /// Searching `current_dir`, with no terms, no context, exact case and no
    /// line numbers.
    pub fn new(current_dir: String) -> (r: Arguments)
        ensures
            r@ == (ArgumentsView {
                path: InputSourceView::Normal(current_dir@),
                or_search_terms: None,
                and_search_terms: None,
                ex_search_terms: None,
                case_insensitive: false,
                before_lines: 0,
                after_lines: 0,
                numerate_lines: false,
                file_types: None,
            }),
    {
        Arguments {
            path: InputSource::Normal(current_dir),
            or_search_terms: None,
            and_search_terms: None,
            ex_search_terms: None,
            case_insensitive: false,
            before_lines: 0,
            after_lines: 0,
            numerate_lines: false,
            file_types: None,
        }
    }

    /// Where to search.
    pub fn get_path(&self) -> (r: &InputSource)
        ensures
            *r == self.path,
    {
        &self.path
    }

    /// The "or" terms; none when not given.
    pub fn get_search_terms_or(&self) -> (r: &[String])
        ensures
            r@.map_values(|s: String| s@) == terms_or_empty(self.or_search_terms),
    {
        terms_slice(&self.or_search_terms)
    }

    /// The "and" terms; none when not given.
    pub fn get_search_terms_and(&self) -> (r: &[String])
        ensures
            r@.map_values(|s: String| s@) == terms_or_empty(self.and_search_terms),
    {
        terms_slice(&self.and_search_terms)
    }

    /// The excluded terms; none when not given.
    pub fn get_search_terms_ex(&self) -> (r: &[String])
        ensures
            r@.map_values(|s: String| s@) == terms_or_empty(self.ex_search_terms),
    {
        terms_slice(&self.ex_search_terms)
    }

    /// Whether case is ignored.
    pub fn get_case_insensitive(&self) -> (r: bool)
        ensures
            r == self.case_insensitive,
    {
        self.case_insensitive
    }

    /// Lines of context ahead of a match.
    pub fn get_before_lines(&self) -> (r: u16)
        ensures
            r == self.before_lines,
    {
        self.before_lines
    }

    /// Lines of context behind a match.
    pub fn get_after_lines(&self) -> (r: u16)
        ensures
            r == self.after_lines,
    {
        self.after_lines
    }

    /// Whether shown lines carry their numbers.
    pub fn get_numerate_lines(&self) -> (r: bool)
        ensures
            r == self.numerate_lines,
    {
        self.numerate_lines
    }

    /// The file types to search; none when not given.
    pub fn get_file_types(&self) -> (r: &[String])
        ensures
            r@.map_values(|s: String| s@) == terms_or_empty(self.file_types),
    {
        terms_slice(&self.file_types)
    }
}

} // verus!
