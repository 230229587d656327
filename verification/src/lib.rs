//! A small line-oriented text searcher: argument parsing, term matching and
//! context-line selection.
pub mod text;
pub mod automaton;
pub mod search_mode;
pub mod context;
pub mod searcher;
pub mod flag_value;
pub mod input_source;
pub mod arguments;
pub mod arg_parser;
pub mod file_walker;
