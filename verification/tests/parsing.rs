use minigrep::arg_parser::{parse_arguments, ArgError, ParseOutcome};
use minigrep::arguments::Arguments;
use minigrep::flag_value::FlagValue;
use minigrep::input_source::InputSource;

fn words(ws: &[&str]) -> Vec<String> {
    ws.iter().map(|w| w.to_string()).collect()
}

fn run(ws: &[&str]) -> Arguments {
    match parse_arguments(words(ws), "/work".to_string(), true) {
        Ok(ParseOutcome::Run(a)) => a,
        Ok(ParseOutcome::Help) => panic!("help"),
        Err(e) => panic!("refused: {:?}", e),
    }
}

fn refused(ws: &[&str]) -> ArgError {
    match parse_arguments(words(ws), "/work".to_string(), true) {
        Err(e) => e,
        _ => panic!("accepted"),
    }
}

fn path_of(a: &Arguments) -> Option<String> {
    match a.get_path() {
        InputSource::Normal(p) => Some(p.clone()),
        InputSource::Stdin => None,
    }
}

#[test]
fn or_terms_and_path() {
    let a = run(&["mgrp", "-c", "fn|pub", "-f", "src"]);
    assert_eq!(a.get_search_terms_or(), &["fn".to_string(), "pub".to_string()][..]);
    assert!(a.get_search_terms_and().is_empty());
    assert!(a.get_search_terms_ex().is_empty());
    assert_eq!(path_of(&a), Some("src".to_string()));
    assert!(!a.get_case_insensitive());
    assert_eq!(a.get_before_lines(), 0);
    assert_eq!(a.get_after_lines(), 0);
    assert!(!a.get_numerate_lines());
    assert!(a.get_file_types().is_empty());
}

#[test]
fn every_flag() {
    let a = run(&[
        "mgrp", "-eq", "fn|search", "-ne", "deprecated", "-i", "-a", "2", "-b", "+3", "-n", "-t",
        "rs|toml",
    ]);
    assert_eq!(a.get_search_terms_and(), &["fn".to_string(), "search".to_string()][..]);
    assert_eq!(a.get_search_terms_ex(), &["deprecated".to_string()][..]);
    assert!(a.get_case_insensitive());
    assert_eq!(a.get_after_lines(), 2);
    assert_eq!(a.get_before_lines(), 3);
    assert!(a.get_numerate_lines());
    assert_eq!(a.get_file_types(), &["rs".to_string(), "toml".to_string()][..]);
    assert_eq!(path_of(&a), Some("/work".to_string()));
}

#[test]
fn path_is_trimmed() {
    let a = run(&["mgrp", "-c", "x", "-f", "  poem.txt \t"]);
    assert_eq!(path_of(&a), Some("poem.txt".to_string()));
}

#[test]
fn piped_input_without_path() {
    let r = parse_arguments(words(&["mgrp", "-c", "x"]), "/work".to_string(), false);
    match r {
        Ok(ParseOutcome::Run(a)) => assert!(matches!(a.get_path(), InputSource::Stdin)),
        _ => panic!("expected a search"),
    }
    let r = parse_arguments(words(&["mgrp", "-c", "x", "-f", "a.txt"]), "/work".to_string(), false);
    match r {
        Ok(ParseOutcome::Run(a)) => assert_eq!(path_of(&a), Some("a.txt".to_string())),
        _ => panic!("expected a search"),
    }
}

#[test]
fn last_value_wins() {
    let a = run(&["mgrp", "-c", "a", "-c", "b|c", "-a", "1", "-a", "7"]);
    assert_eq!(a.get_search_terms_or(), &["b".to_string(), "c".to_string()][..]);
    assert_eq!(a.get_after_lines(), 7);
}

#[test]
fn empty_pieces_are_kept() {
    let a = run(&["mgrp", "-c", "a||b|"]);
    let expect: Vec<String> = vec!["a".into(), "".into(), "b".into(), "".into()];
    assert_eq!(a.get_search_terms_or(), &expect[..]);
    let a = run(&["mgrp", "-c", ""]);
    assert_eq!(a.get_search_terms_or(), &["".to_string()][..]);
}

#[test]
fn help_is_asked_for() {
    assert!(matches!(
        parse_arguments(words(&["mgrp", "-h"]), "/w".to_string(), true),
        Ok(ParseOutcome::Help)
    ));
    assert!(matches!(
        parse_arguments(words(&["mgrp", "-c", "x", "--help"]), "/w".to_string(), true),
        Ok(ParseOutcome::Help)
    ));
    // a refusal that comes first wins over help
    assert_eq!(refused(&["mgrp", "-a", "x", "-h"]), ArgError::InvalidAfterLines);
    // help wins over the missing search terms
    assert!(matches!(
        parse_arguments(words(&["mgrp", "-h", "-f"]), "/w".to_string(), true),
        Ok(ParseOutcome::Help)
    ));
}

#[test]
fn refusals() {
    assert_eq!(refused(&["mgrp"]), ArgError::MissingSearchTerms);
    assert_eq!(refused(&["mgrp", "-i", "-n"]), ArgError::MissingSearchTerms);
    assert_eq!(refused(&["mgrp", "-c", "x", "-f"]), ArgError::FilePathRequired);
    assert_eq!(refused(&["mgrp", "-f", "-c", "x"]), ArgError::MissingFilePath);
    assert_eq!(refused(&["mgrp", "-eq"]), ArgError::AndTermsRequired);
    assert_eq!(refused(&["mgrp", "-eq", "-x"]), ArgError::MissingAndTerms);
    assert_eq!(refused(&["mgrp", "-c"]), ArgError::OrTermsRequired);
    assert_eq!(refused(&["mgrp", "-c", "-x"]), ArgError::MissingOrTerms);
    assert_eq!(refused(&["mgrp", "-ne"]), ArgError::ExcludeTermsRequired);
    assert_eq!(refused(&["mgrp", "-ne", "-x"]), ArgError::MissingExcludeTerms);
    assert_eq!(refused(&["mgrp", "-c", "x", "-a"]), ArgError::AfterLinesRequired);
    assert_eq!(refused(&["mgrp", "-c", "x", "-a", "-1"]), ArgError::InvalidAfterLines);
    assert_eq!(refused(&["mgrp", "-c", "x", "-a", "65536"]), ArgError::InvalidAfterLines);
    assert_eq!(refused(&["mgrp", "-c", "x", "-a", "+"]), ArgError::InvalidAfterLines);
    assert_eq!(refused(&["mgrp", "-c", "x", "-a", " 1"]), ArgError::InvalidAfterLines);
    assert_eq!(refused(&["mgrp", "-c", "x", "-b"]), ArgError::BeforeLinesRequired);
    assert_eq!(refused(&["mgrp", "-c", "x", "-b", ""]), ArgError::InvalidBeforeLines);
    assert_eq!(refused(&["mgrp", "-c", "x", "-t"]), ArgError::FileTypesRequired);
    assert_eq!(refused(&["mgrp", "-c", "x", "-t", "-rs"]), ArgError::MissingFileTypes);
}

#[test]
fn counts_read_as_u16() {
    let a = run(&["mgrp", "-c", "x", "-a", "65535", "-b", "007"]);
    assert_eq!(a.get_after_lines(), 65535);
    assert_eq!(a.get_before_lines(), 7);
    assert_eq!(a.get_after_lines(), "65535".parse::<u16>().unwrap());
}

#[test]
fn messages() {
    assert_eq!(ArgError::FilePathRequired.message(), "File path required after -f flag.");
    assert_eq!(
        ArgError::MissingSearchTerms.message(),
        "At least one of the search arguments required: -eq, -ne or -c"
    );
    assert_eq!(ArgError::MissingAndTerms.message(), "Missing search terms after -eq.");
    assert!(ArgError::MissingAndTerms.to_standard_output());
    assert!(ArgError::AndTermsRequired.to_standard_output());
    assert!(!ArgError::MissingOrTerms.to_standard_output());
}

#[test]
fn defaults() {
    let a = Arguments::new("/home".to_string());
    assert_eq!(path_of(&a), Some("/home".to_string()));
    assert!(a.get_search_terms_or().is_empty());
    assert!(!a.get_case_insensitive());
    let v = FlagValue::ExtraLines(3);
    assert_eq!(format!("{:?}", v), "ExtraLines(3)");
}

#[test]
fn flag_order_does_not_matter() {
    let a = run(&["mgrp", "-c", "x|y", "-a", "2", "-i", "-f", "dir", "-b", "1"]);
    let b = run(&["mgrp", "-f", "dir", "-i", "-b", "1", "-a", "2", "-c", "x|y"]);
    assert_eq!(path_of(&a), path_of(&b));
    assert_eq!(a.get_search_terms_or(), b.get_search_terms_or());
    assert_eq!(a.get_case_insensitive(), b.get_case_insensitive());
    assert_eq!(a.get_after_lines(), b.get_after_lines());
    assert_eq!(a.get_before_lines(), b.get_before_lines());
}
