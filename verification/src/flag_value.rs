//! The value recorded for a command-line flag.
use vstd::prelude::*;

verus! {

/// What a flag carries.
#[derive(Debug)]
pub enum FlagValue {
    /// The path given with `-f`.
    Path(String),
    /// Terms or file types given as a `|`-separated list.
    SearchTerms(Vec<String>),
    /// A switch that was given.
    EnableDisable(bool),
    /// A number of context lines.
    ExtraLines(u16),
}

/// `FlagValue` with its text as character sequences.
pub enum FlagValueView {
    Path(Seq<char>),
    SearchTerms(Seq<Seq<char>>),
    EnableDisable(bool),
    ExtraLines(u16),
}

impl View for FlagValue {
    type V = FlagValueView;

    open spec fn view(&self) -> FlagValueView {
        match self {
            FlagValue::Path(p) => FlagValueView::Path(p@),
            FlagValue::SearchTerms(ts) => FlagValueView::SearchTerms(ts.deep_view()),
            FlagValue::EnableDisable(b) => FlagValueView::EnableDisable(*b),
            FlagValue::ExtraLines(n) => FlagValueView::ExtraLines(*n),
        }
    }
}

} // verus!
