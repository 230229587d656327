use minigrep::search_mode::SearchMode;
use minigrep::searcher::{file_heading, indented_line, printed_line, search_on_buffer, ContextScanner};

const SEP: &str = "--";

fn lines(ls: &[&str]) -> Vec<String> {
    ls.iter().map(|l| l.to_string()).collect()
}

fn or_mode(ts: &[&str]) -> Option<SearchMode> {
    Some(SearchMode::new(ts.iter().map(|t| t.to_string()).collect(), false).expect("built"))
}

fn search(ls: &[&str], t: &[&str], before: u16, after: u16, numbered: bool) -> Vec<String> {
    search_on_buffer(lines(ls), &or_mode(t), &None, &None, before, after, numbered)
}

#[test]
fn only_matching_lines_without_context() {
    let out = search(&["a", "x1", "b", "x2", "c"], &["x"], 0, 0, false);
    assert_eq!(out, lines(&["x1", "x2"]));
}

#[test]
fn no_match_no_output() {
    let out = search(&["a", "b"], &["x"], 2, 2, true);
    assert!(out.is_empty());
}

#[test]
fn context_and_separators() {
    let ls = ["a", "x1", "b", "c", "x2", "d", "e", "f", "x3"];
    let out = search(&ls, &["x"], 1, 1, false);
    assert_eq!(out, lines(&["a", "x1", "b", "c", "x2", "d", SEP, "f", "x3"]));
}

#[test]
fn after_context_only() {
    let ls = ["x1", "a", "b", "x2", "c"];
    let out = search(&ls, &["x"], 0, 1, false);
    assert_eq!(out, lines(&["x1", "a", SEP, "x2", "c"]));
}

#[test]
fn match_inside_after_window_continues_group() {
    let ls = ["x1", "a", "x2", "b", "c", "d"];
    let out = search(&ls, &["x"], 0, 2, false);
    assert_eq!(out, lines(&["x1", "a", "x2", "b", "c"]));
}

#[test]
fn before_context_drops_oldest() {
    let ls = ["a", "b", "c", "d", "x"];
    let out = search(&ls, &["x"], 2, 0, false);
    assert_eq!(out, lines(&["c", "d", "x"]));
}

#[test]
fn first_group_has_no_separator() {
    let ls = ["a", "b", "c", "x"];
    let out = search(&ls, &["x"], 1, 0, false);
    assert_eq!(out, lines(&["c", "x"]));
}

#[test]
fn numbered_lines_are_trimmed() {
    let ls = ["  a  ", "\tx here ", "b"];
    let out = search(&ls, &["x"], 1, 0, true);
    assert_eq!(out, lines(&["1:\ta", "2:\tx here"]));
    let out = search(&ls, &["x"], 0, 0, false);
    assert_eq!(out, lines(&["\tx here "]));
}

#[test]
fn numbering_counts_from_one() {
    let mut ls: Vec<&str> = vec!["z"; 11];
    ls.push("x");
    let out = search(&ls, &["x"], 0, 0, true);
    assert_eq!(out, lines(&["12:\tx"]));
}

#[test]
fn streaming_equals_batch() {
    let ls = ["a", "x1", "b", "c", "x2", "d", "e", "f", "x3", "g"];
    let or = or_mode(&["x"]);
    let mut scanner = ContextScanner::new(1, 1, true);
    let mut streamed = Vec::new();
    for l in ls.iter() {
        streamed.extend(scanner.feed(l.to_string(), &or, &None, &None));
    }
    assert_eq!(scanner.lines_seen(), ls.len());
    let batch = search_on_buffer(lines(&ls), &or, &None, &None, 1, 1, true);
    assert_eq!(streamed, batch);
}

#[test]
fn disjoint_groups_are_separated_by_dashes() {
    let ls = ["a", "foo", "b", "c", "d", "e", "foo", "f"];
    let out = search(&ls, &["foo"], 1, 1, false);
    assert_eq!(out, lines(&["a", "foo", "b", "--", "e", "foo", "f"]));
    let out = search(&ls, &["foo"], 0, 0, false);
    assert_eq!(out, lines(&["foo", "foo"]));
}

#[test]
fn printed_forms() {
    assert_eq!(printed_line("  hi there \t"), "hi there");
    assert_eq!(printed_line("\u{3000}x\u{a0}"), "x");
    assert_eq!(printed_line(SEP), "--");
    assert_eq!(indented_line(SEP), "\t--");
    assert_eq!(file_heading("src/main.rs"), "src/main.rs: ");
    assert_eq!(indented_line("  fn main() "), "\tfn main()");
    assert_eq!(printed_line("  hi "), "  hi ".trim());
}
