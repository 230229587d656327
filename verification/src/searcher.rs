//! Selecting the lines to show: which lines match, and which surround a match.
use std::collections::VecDeque;
use vstd::prelude::*;

use crate::context::{
    context_output, held_from, last_hit, lemma_last_hit, lemma_step, pending_start, render_line,
    separator, step_block,
};
use crate::arguments::Arguments;
use crate::automaton::automaton_build_fails;
use crate::search_mode::{
    every_term_found, lemma_term_tests_meaning, some_term_found, SearchMode, SearchModeError,
};
use crate::text::occurs;
use crate::text::{chars_of, decimal_chars, string_from_chars, trim, trim_chars};

verus! {

/// All three term sets are prepared consistently (absent sets impose nothing).
pub open spec fn filters_wf(
    or_terms: Option<SearchMode>,
    and_terms: Option<SearchMode>,
    ex_terms: Option<SearchMode>,
) -> bool {
    &&& (or_terms matches Some(t) ==> t.wf())
    &&& (and_terms matches Some(t) ==> t.wf())
    &&& (ex_terms matches Some(t) ==> t.wf())
}

/// A line is selected when it holds some "or" term, all "and" terms and no
/// excluded term; an absent set of terms imposes nothing.
pub open spec fn spec_line_matches(
    or_terms: Option<SearchMode>,
    and_terms: Option<SearchMode>,
    ex_terms: Option<SearchMode>,
    line: Seq<char>,
) -> bool {
    &&& (or_terms matches Some(t) ==> t.spec_matches_any(line))
    &&& (and_terms matches Some(t) ==> t.spec_matches_all(line))
    &&& (ex_terms matches Some(t) ==> !t.spec_matches_any(line))
}

/// A line that holds an excluded term is never selected, whatever the other
/// terms say.
pub proof fn lemma_excluded_never_selected(
    or_terms: Option<SearchMode>,
    and_terms: Option<SearchMode>,
    ex_terms: Option<SearchMode>,
    line: Seq<char>,
)
    requires
        ex_terms matches Some(t) && t.spec_matches_any(line),
    ensures
        !spec_line_matches(or_terms, and_terms, ex_terms, line),
{
}

/// What selecting a line means in terms of the terms as given: some "or"
/// term is found, every "and" term is found, and no excluded term is found
/// (absent lists impose nothing).
pub open spec fn selected_by_terms(
    or_terms: Option<SearchMode>,
    and_terms: Option<SearchMode>,
    ex_terms: Option<SearchMode>,
    line: Seq<char>,
) -> bool {
    &&& (or_terms matches Some(t) ==> some_term_found(t, line))
    &&& (and_terms matches Some(t) ==> every_term_found(t, line))
    &&& (ex_terms matches Some(t) ==> !some_term_found(t, line))
}

/// A line is selected exactly when it holds some "or" term, every "and"
/// term and no excluded term. In particular a line that lacks one of the
/// case-sensitive "and" terms is never selected, and neither is a line that
/// holds none of the case-sensitive "or" terms.
pub proof fn lemma_line_selection(
    or_terms: Option<SearchMode>,
    and_terms: Option<SearchMode>,
    ex_terms: Option<SearchMode>,
    line: Seq<char>,
)
    requires
        filters_wf(or_terms, and_terms, ex_terms),
    ensures
        spec_line_matches(or_terms, and_terms, ex_terms, line) == selected_by_terms(
            or_terms,
            and_terms,
            ex_terms,
            line,
        ),
        (and_terms matches Some(t) && !t.is_insensitive() && exists|i: int|
            0 <= i < t.given_terms().len() && !#[trigger] occurs(t.given_terms()[i], line, false))
            ==> !spec_line_matches(or_terms, and_terms, ex_terms, line),
        (or_terms matches Some(t) && !t.is_insensitive() && forall|i: int|
            0 <= i < t.given_terms().len() ==> !#[trigger] occurs(t.given_terms()[i], line, false))
            ==> !spec_line_matches(or_terms, and_terms, ex_terms, line),
{
    if let Some(t) = or_terms {
        lemma_term_tests_meaning(t, line);
    }
    if let Some(t) = and_terms {
        lemma_term_tests_meaning(t, line);
    }
    if let Some(t) = ex_terms {
        lemma_term_tests_meaning(t, line);
    }
}

/// Decides `spec_line_matches`.
pub fn line_matches(
    line: &str,
    or_terms: &Option<SearchMode>,
    and_terms: &Option<SearchMode>,
    ex_terms: &Option<SearchMode>,
) -> (r: bool)
    requires
        filters_wf(*or_terms, *and_terms, *ex_terms),
    ensures
        r == spec_line_matches(*or_terms, *and_terms, *ex_terms, line@),
        r == selected_by_terms(*or_terms, *and_terms, *ex_terms, line@),
{
    proof {
        lemma_line_selection(*or_terms, *and_terms, *ex_terms, line@);
    }
    (match or_terms {
        Some(terms) => terms.matches_any(line),
        None => true,
    }) && (match and_terms {
        Some(terms) => terms.matches_all(line),
        None => true,
    }) && (match ex_terms {
        Some(terms) => terms.matches_none(line),
        None => true,
    })
}

/// The separator line between groups of output.
fn separator_string() -> (r: String)
    ensures
        r@ == separator(),
{
    let mut v: Vec<char> = Vec::new();
    v.push('-');
    v.push('-');
    assert(v@ =~= separator());
    string_from_chars(&v)
}

/// Shows line number `index` (counted from 0) as `render_line` says.
fn render(index: usize, line: String, numbered: bool) -> (r: String)
    requires
        index < usize::MAX,
    ensures
        r@ == render_line(line@, index as int, numbered),
{
    if numbered {
        let mut v = decimal_chars(index + 1);
        v.push(':');
        v.push('\t');
        let mut t = trim_chars(&chars_of(line.as_str()));
        v.append(&mut t);
        string_from_chars(&v)
    } else {
        line
    }
}

/// Renders the held lines, oldest first, onto `block`, leaving none held.
fn drain_held(buf: &mut VecDeque<(usize, String)>, block: &mut Vec<String>, numbered: bool)
    requires
        forall|j: int| 0 <= j < old(buf)@.len() ==> (#[trigger] old(buf)@[j]).0 < usize::MAX,
    ensures
        final(buf)@.len() == 0,
        final(block).deep_view() == old(block).deep_view() + Seq::new(
            old(buf)@.len(),
            |j: int| render_line(old(buf)@[j].1@, old(buf)@[j].0 as int, numbered),
        ),
{
    let ghost buf0 = old(buf)@;
    let ghost head = old(block).deep_view();
    let ghost held = buf0.len() as int;
    while buf.len() > 0
        invariant
            buf0.len() == held,
            forall|j: int| 0 <= j < held ==> (#[trigger] buf0[j]).0 < usize::MAX,
            buf@.len() <= held,
            buf@ == buf0.subrange(held - buf@.len(), held),
            block.deep_view() == head + Seq::new(
                (held - buf@.len()) as nat,
                |j: int| render_line(buf0[j].1@, buf0[j].0 as int, numbered),
            ),
        decreases buf@.len(),
    {
        let ghost done = held - buf@.len();
        let entry = buf.pop_front();
        match entry {
            Some((i, text)) => {
                assert(buf0[done] == (i, text));
                let shown = render(i, text, numbered);
                let ghost prev = block.deep_view();
                let ghost shown_view = shown@;
                block.push(shown);
                assert(block.deep_view() =~= prev.push(shown_view));
                assert(block.deep_view() =~= head + Seq::new(
                    (held - buf@.len()) as nat,
                    |j: int| render_line(buf0[j].1@, buf0[j].0 as int, numbered),
                ));
            },
            None => {},
        }
    }
}

/// Reads lines one at a time and hands back, after each, the output lines
/// that it makes final: matching lines with `before` lines of context ahead
/// and `after` lines behind, groups that follow skipped lines preceded by a
/// separator. Only the lines that may still become before-context are held.
pub struct ContextScanner {
    before: u16,
    after: u16,
    numbered: bool,
    before_buf: VecDeque<(usize, String)>,
    after_left: u16,
    gap: bool,
    emitted_any: bool,
    next_index: usize,
    lines: Ghost<Seq<Seq<char>>>,
    hits: Ghost<Seq<bool>>,
}

impl ContextScanner {
    /// The lines read so far.
    pub closed spec fn seen(&self) -> Seq<Seq<char>> {
        self.lines@
    }

    /// For each line read so far, whether it matched.
    pub closed spec fn hits(&self) -> Seq<bool> {
        self.hits@
    }

    /// Lines of context asked for ahead of a match.
    pub closed spec fn before_count(&self) -> int {
        self.before as int
    }

    /// Lines of context asked for behind a match.
    pub closed spec fn after_count(&self) -> int {
        self.after as int
    }

    /// Whether shown lines carry their numbers.
    pub closed spec fn is_numbered(&self) -> bool {
        self.numbered
    }

    /// How many lines are held as possible before-context.
    pub closed spec fn held_count(&self) -> int {
        self.before_buf@.len() as int
    }

    /// Everything handed back so far.
    pub open spec fn output(&self) -> Seq<Seq<char>> {
        context_output(
            self.seen(),
            self.hits(),
            self.before_count(),
            self.after_count(),
            self.is_numbered(),
            self.seen().len() as int,
        )
    }

    /// The scanner's fields agree with the lines read so far.
    pub closed spec fn wf(&self) -> bool {
        let k = self.lines@.len() as int;
        let h = self.hits@;
        let lo = held_from(h, self.before as int, self.after as int);
        let lh = last_hit(h);
        &&& h.len() == k
        &&& self.next_index == k
        &&& self.before_buf@.len() == (if lo < k { k - lo } else { 0 })
        &&& forall|j: int|
            0 <= j < self.before_buf@.len() ==> (#[trigger] self.before_buf@[j]).0 == lo + j
                && self.before_buf@[j].1@ == self.lines@[lo + j]
        &&& self.after_left == (if lh < 0 || lh + self.after + 1 - k <= 0 {
            0
        } else {
            lh + self.after + 1 - k
        })
        &&& self.gap == (k - pending_start(h, self.after as int) > self.before)
        &&& self.emitted_any == (lh >= 0)
    }

    /// A scanner that has read nothing yet.
    pub fn new(before_lines: u16, after_lines: u16, numerate_lines: bool) -> (r: ContextScanner)
        ensures
            r.wf(),
            r.seen() == Seq::<Seq<char>>::empty(),
            r.hits() == Seq::<bool>::empty(),
            r.before_count() == before_lines,
            r.after_count() == after_lines,
            r.is_numbered() == numerate_lines,
    {
        ContextScanner {
            before: before_lines,
            after: after_lines,
            numbered: numerate_lines,
            before_buf: VecDeque::with_capacity(before_lines as usize),
            after_left: 0,
            gap: false,
            emitted_any: false,
            next_index: 0,
            lines: Ghost(Seq::empty()),
            hits: Ghost(Seq::empty()),
        }
    }

    /// Memory stays bounded: a scanner never holds more lines than the
    /// before-context asked for.
    pub proof fn lemma_held_lines_bounded(&self)
        requires
            self.wf(),
        ensures
            0 <= self.held_count() <= self.before_count(),
    {
    }

    /// How many lines have been read.
    pub fn lines_seen(&self) -> (r: usize)
        requires
            self.wf(),
        ensures
            r == self.seen().len(),
    {
        self.next_index
    }

    /// Reads one more line, testing it against the terms, and returns the
    /// output lines it makes final.
    #[verifier::rlimit(40)]
    #[verifier::spinoff_prover]
    pub fn feed(
        &mut self,
        line: String,
        or_terms: &Option<SearchMode>,
        and_terms: &Option<SearchMode>,
        ex_terms: &Option<SearchMode>,
    ) -> (block: Vec<String>)
        requires
            old(self).wf(),
            old(self).seen().len() < usize::MAX,
            filters_wf(*or_terms, *and_terms, *ex_terms),
        ensures
            final(self).wf(),
            final(self).seen() == old(self).seen().push(line@),
            final(self).hits() == old(self).hits().push(
                spec_line_matches(*or_terms, *and_terms, *ex_terms, line@),
            ),
            final(self).before_count() == old(self).before_count(),
            final(self).after_count() == old(self).after_count(),
            final(self).is_numbered() == old(self).is_numbered(),
            final(self).output() == old(self).output() + block.deep_view(),
            final(self).held_count() <= final(self).before_count(),
    {
        let ghost lines0 = self.lines@;
        let ghost hits0 = self.hits@;
        let ghost b = self.before as int;
        let ghost a = self.after as int;
        let ghost k = hits0.len() as int;
        let ghost lo = held_from(hits0, b, a);
        let ghost lh = last_hit(hits0);
        let ghost ps = pending_start(hits0, a);
        proof {
            lemma_last_hit(hits0);
            lemma_step(lines0, hits0, b, a, self.numbered, line@, spec_line_matches(
                *or_terms,
                *and_terms,
                *ex_terms,
                line@,
            ));
        }
        let index = self.next_index;
        let matched = line_matches(line.as_str(), or_terms, and_terms, ex_terms);
        let ghost line_view = line@;
        let mut block: Vec<String> = Vec::new();
        proof {
            self.lines@ = lines0.push(line@);
            self.hits@ = hits0.push(matched);
        }
        if matched {
            let context_wanted = (self.after as u32) + (self.before as u32) > 0;
            if self.after_left == 0 && self.gap && self.emitted_any && context_wanted {
                block.push(separator_string());
                assert(block.deep_view() =~= seq![separator()]);
            }
            assert(block.deep_view() =~= (if b + a > 0 && lh >= 0 && k - ps > b {
                seq![separator()]
            } else {
                Seq::<Seq<char>>::empty()
            }));
            let ghost head = block.deep_view();
            let ghost buf0 = self.before_buf@;
            assert forall|j: int| 0 <= j < buf0.len() implies (#[trigger] buf0[j]).0 < usize::MAX by {
                assert(buf0[j].0 == lo + j);
            }
            drain_held(&mut self.before_buf, &mut block, self.numbered);
            assert(block.deep_view() =~= head + Seq::new(
                (if lo < k { k - lo } else { 0 }) as nat,
                |j: int| render_line(lines0[lo + j], lo + j, self.numbered),
            ));
            let shown = render(index, line, self.numbered);
            let ghost prev = block.deep_view();
            let ghost shown_view = shown@;
            block.push(shown);
            assert(block.deep_view() =~= prev.push(shown_view));
            self.after_left = self.after;
            self.gap = false;
            self.emitted_any = true;
            proof {
                lemma_last_hit(self.hits@);
            }
        } else if self.after_left > 0 {
            let shown = render(index, line, self.numbered);
            let ghost shown_view = shown@;
            block.push(shown);
            assert(block.deep_view() =~= seq![shown_view]);
            self.after_left = self.after_left - 1;
            proof {
                assert(self.hits@.drop_last() =~= hits0);
            }
        } else {
            self.before_buf.push_back((index, line));
            if self.before_buf.len() > self.before as usize {
                let _ = self.before_buf.pop_front();
                self.gap = true;
            }
            proof {
                assert(self.hits@.drop_last() =~= hits0);
            }
        }
        self.next_index = index + 1;
        assert(block.deep_view() =~= step_block(lines0, hits0, b, a, self.numbered, line_view, matched));
        block
    }
}


/// For each line, whether it is selected by the terms.
pub open spec fn line_hits(
    lines: Seq<Seq<char>>,
    or_terms: Option<SearchMode>,
    and_terms: Option<SearchMode>,
    ex_terms: Option<SearchMode>,
) -> Seq<bool> {
    Seq::new(lines.len(), |i: int| spec_line_matches(or_terms, and_terms, ex_terms, lines[i]))
}

/// The lines to show for `lines`: every line within `before_lines` lines ahead
/// of or `after_lines` lines behind a selected line, once and in order,
/// numbered if asked, with a separator before a group that follows skipped
/// lines when context was asked for. This reads a whole sequence at once;
/// to keep memory bounded while reading a stream, feed its lines one by one
/// to a `ContextScanner`, which gives the same output.
pub fn search_on_buffer(
    lines: Vec<String>,
    or_terms: &Option<SearchMode>,
    and_terms: &Option<SearchMode>,
    ex_terms: &Option<SearchMode>,
    before_lines: u16,
    after_lines: u16,
    numerate_lines: bool,
) -> (r: Vec<String>)
    requires
        filters_wf(*or_terms, *and_terms, *ex_terms),
        lines@.len() < usize::MAX,
    ensures
        r.deep_view() == context_output(
            lines.deep_view(),
            line_hits(lines.deep_view(), *or_terms, *and_terms, *ex_terms),
            before_lines as int,
            after_lines as int,
            numerate_lines,
            lines@.len() as int,
        ),
{
    let ghost all = lines.deep_view();
    let mut scanner = ContextScanner::new(before_lines, after_lines, numerate_lines);
    let mut out: Vec<String> = Vec::new();
    for line in it: lines
        invariant
            scanner.wf(),
            all.len() == it.seq().len(),
            it.seq().len() < usize::MAX,
            forall|j: int| 0 <= j < all.len() ==> #[trigger] all[j] == it.seq()[j]@,
            scanner.seen() == all.take(it.index() as int),
            scanner.hits() == line_hits(all, *or_terms, *and_terms, *ex_terms).take(it.index() as int),
            scanner.before_count() == before_lines,
            scanner.after_count() == after_lines,
            scanner.is_numbered() == numerate_lines,
            out.deep_view() == scanner.output(),
            filters_wf(*or_terms, *and_terms, *ex_terms),
    {
        let ghost prev_out = out.deep_view();
        let ghost i = it.index() as int;
        let mut block = scanner.feed(line, or_terms, and_terms, ex_terms);
        out.append(&mut block);
        proof {
            assert(all.take(i + 1) =~= all.take(i).push(all[i]));
            assert(line_hits(all, *or_terms, *and_terms, *ex_terms).take(i + 1) =~= line_hits(
                all,
                *or_terms,
                *and_terms,
                *ex_terms,
            ).take(i).push(spec_line_matches(*or_terms, *and_terms, *ex_terms, all[i])));
            assert(out.deep_view() =~= scanner.output());
        }
    }
    proof {
        assert(all.take(all.len() as int) =~= all);
        assert(line_hits(all, *or_terms, *and_terms, *ex_terms).take(all.len() as int) =~= line_hits(
            all,
            *or_terms,
            *and_terms,
            *ex_terms,
        ));
    }
    out
}


/// The terms, if given, prepared as a `SearchMode` that ignores case or not.
pub open spec fn prepared_as(terms: Option<Seq<Seq<char>>>, case_insensitive: bool, m: Option<SearchMode>) -> bool {
    match terms {
        None => m is None,
        Some(ts) => m matches Some(x) && x.wf() && x.given_terms() == ts && x.is_insensitive()
            == case_insensitive,
    }
}

/// The terms, if given, cannot be prepared.
pub open spec fn fails_to_prepare(terms: Option<Seq<Seq<char>>>, case_insensitive: bool) -> bool {
    terms matches Some(ts) && automaton_build_fails(ts, case_insensitive)
}

fn clone_terms(v: &Vec<String>) -> (r: Vec<String>)
    ensures
        r.deep_view() == v.deep_view(),
{
    let mut r: Vec<String> = Vec::new();
    let n = v.len();
    let mut i: usize = 0;
    while i < n
        invariant
            n == v@.len(),
            i <= n,
            r.deep_view() == v.deep_view().take(i as int),
        decreases n - i,
    {
        let s = v[i].clone();
        let ghost prev = r.deep_view();
        r.push(s);
        assert(r.deep_view() =~= prev.push(v.deep_view()[i as int]));
        assert(v.deep_view().take(i + 1) =~= v.deep_view().take(i as int).push(v.deep_view()[i as int]));
        i = i + 1;
    }
    assert(v.deep_view().take(n as int) =~= v.deep_view());
    r
}

fn prepare(terms: &Option<Vec<String>>, case_insensitive: bool) -> (r: Result<Option<SearchMode>, SearchModeError>)
    ensures
        r is Err <==> fails_to_prepare(crate::arguments::terms_view(*terms), case_insensitive),
        r matches Ok(m) ==> prepared_as(crate::arguments::terms_view(*terms), case_insensitive, m),
{
    match terms {
        None => Ok(None),
        Some(ts) => {
            let m = SearchMode::new(clone_terms(ts), case_insensitive)?;
            Ok(Some(m))
        },
    }
}

/// Prepares the "or", "and" and excluded terms of `arguments`, in that order,
/// ignoring case as asked. Fails exactly when one of the given lists cannot
/// be prepared.
pub fn build_filters(arguments: &Arguments) -> (r: Result<
    (Option<SearchMode>, Option<SearchMode>, Option<SearchMode>),
    SearchModeError,
>)
    ensures
        r is Err <==> (fails_to_prepare(arguments@.or_search_terms, arguments.case_insensitive)
            || fails_to_prepare(arguments@.and_search_terms, arguments.case_insensitive)
            || fails_to_prepare(arguments@.ex_search_terms, arguments.case_insensitive)),
        r matches Ok((o, a, e)) ==> {
            &&& prepared_as(arguments@.or_search_terms, arguments.case_insensitive, o)
            &&& prepared_as(arguments@.and_search_terms, arguments.case_insensitive, a)
            &&& prepared_as(arguments@.ex_search_terms, arguments.case_insensitive, e)
            &&& filters_wf(o, a, e)
        },
{
    let ci = arguments.case_insensitive;
    let or_terms = prepare(&arguments.or_search_terms, ci)?;
    let and_terms = prepare(&arguments.and_search_terms, ci)?;
    let ex_terms = prepare(&arguments.ex_search_terms, ci)?;
    Ok((or_terms, and_terms, ex_terms))
}

/// A found line as printed: without surrounding white space.
pub fn printed_line(line: &str) -> (r: String)
    ensures
        r@ == trim(line@),
{
    string_from_chars(&trim_chars(&chars_of(line)))
}

/// The heading printed before what was found in one file of a directory:
/// the path, a colon and a space.
pub fn file_heading(path: &str) -> (r: String)
    ensures
        r@ == path@ + seq![':', ' '],
{
    let mut v = chars_of(path);
    v.push(':');
    v.push(' ');
    string_from_chars(&v)
}

/// A found line as printed under its file's heading: a tab, then the line
/// without surrounding white space.
pub fn indented_line(line: &str) -> (r: String)
    ensures
        r@ == seq!['\t'] + trim(line@),
{
    let mut v: Vec<char> = Vec::new();
    v.push('\t');
    let mut t = trim_chars(&chars_of(line));
    v.append(&mut t);
    string_from_chars(&v)
}

} // verus!
