use minigrep::file_walker::{extension_allowed, is_binary_head};
use minigrep::search_mode::SearchMode;
use minigrep::searcher::{build_filters, line_matches};
use minigrep::arguments::Arguments;

fn terms(ts: &[&str]) -> Vec<String> {
    ts.iter().map(|t| t.to_string()).collect()
}

fn mode(ts: &[&str], ci: bool) -> SearchMode {
    SearchMode::new(terms(ts), ci).expect("built")
}

#[test]
fn sensitive_few_terms() {
    let m = mode(&["fn", "pub"], false);
    assert!(m.matches_any("pub struct X"));
    assert!(!m.matches_any("Pub struct X"));
    assert!(m.matches_none("let x = 1;"));
    assert!(!m.matches_all("pub struct X"));
    assert!(m.matches_all("pub fn x()"));
}

#[test]
fn sensitive_many_terms_use_the_automaton() {
    let ts = ["a1", "b2", "c3", "d4", "e5", "f6", "g7", "h8", "needle"];
    let m = mode(&ts, false);
    assert!(m.matches_any("hay needle hay"));
    assert!(!m.matches_any("hay NEEDLE hay"));
    assert!(!m.matches_any("nothing here"));
    assert!(m.matches_all("a1 b2 c3 d4 e5 f6 g7 h8 needle"));
    assert!(!m.matches_all("a1 b2"));
}

#[test]
fn insensitive_few_terms_lowercase_everything() {
    let m = mode(&["Nobody", "ÉTÉ"], true);
    assert!(m.matches_any("NOBODY knows"));
    assert!(m.matches_any("un été"));
    assert!(m.matches_all("nobody in été"));
    assert!(!m.matches_all("nobody"));
}

#[test]
fn insensitive_many_terms_fold_ascii_only() {
    let m = mode(&["aa", "bb", "cc", "dd", "ÉTÉ"], true);
    assert!(m.matches_any("xx AA yy"));
    assert!(m.matches_any("un ÉTÉ"));
    // only ASCII letters are folded on this path
    assert!(!m.matches_any("un été"));
    // matching all still lower-cases both sides
    assert!(m.matches_all("AA BB CC DD été"));
}

#[test]
fn empty_term_matches_everything() {
    let m = mode(&[""], false);
    assert!(m.matches_any(""));
    assert!(m.matches_any("abc"));
}

#[test]
fn combined_filters() {
    let or = Some(mode(&["fn", "pub"], false));
    let and = Some(mode(&["x"], false));
    let ex = Some(mode(&["deprecated"], false));
    assert!(line_matches("pub fn x()", &or, &and, &ex));
    assert!(!line_matches("pub fn y()", &or, &and, &ex));
    assert!(!line_matches("pub fn x() // deprecated", &or, &and, &ex));
    assert!(line_matches("anything", &None, &None, &None));
    assert!(line_matches("keep", &None, &None, &ex));
    assert!(!line_matches("deprecated", &None, &None, &ex));
}

#[test]
fn filters_from_arguments() {
    let mut a = Arguments::new(".".to_string());
    a.or_search_terms = Some(terms(&["Foo"]));
    a.ex_search_terms = Some(terms(&["bar"]));
    a.case_insensitive = true;
    let (or, and, ex) = build_filters(&a).expect("built");
    assert!(and.is_none());
    assert!(line_matches("a FOO b", &or, &and, &ex));
    assert!(!line_matches("a FOO BAR", &or, &and, &ex));
    assert!(!line_matches("nothing", &or, &and, &ex));
}

#[test]
fn binary_heads() {
    assert!(is_binary_head(&[1, 2, 0, 3]));
    assert!(!is_binary_head(b"plain text"));
    assert!(!is_binary_head(&[]));
}

#[test]
fn extensions() {
    let types = terms(&["rs", "toml"]);
    assert!(extension_allowed(&Some("rs".to_string()), &types));
    assert!(!extension_allowed(&Some("md".to_string()), &types));
    assert!(!extension_allowed(&None, &types));
    assert!(extension_allowed(&None, &Vec::new()));
    assert!(extension_allowed(&Some("md".to_string()), &Vec::new()));
}

#[test]
fn insensitive_ascii_same_whatever_the_count() {
    let few = mode(&["NoBody", "xyz"], true);
    let many = mode(&["NoBody", "xyz", "q1", "q2", "q3"], true);
    for line in ["nobody here", "NOBODY", "no body", "XyZ!", "none"] {
        assert_eq!(few.matches_any(line), many.matches_any(line));
    }
}
