//! Where the text to search comes from.
use vstd::prelude::*;

verus! {

/// A file or directory path, or standard input.
pub enum InputSource {
    /// A file or directory at this path.
    Normal(String),
    /// Text piped in on standard input.
    Stdin,
}

/// `InputSource` with the path as a character sequence.
pub enum InputSourceView {
    Normal(Seq<char>),
    Stdin,
}

impl View for InputSource {
    type V = InputSourceView;

    open spec fn view(&self) -> InputSourceView {
        match self {
            InputSource::Normal(p) => InputSourceView::Normal(p@),
            InputSource::Stdin => InputSourceView::Stdin,
        }
    }
}

} // verus!
