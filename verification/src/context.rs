//! What a search prints for a sequence of lines: every line within the
//! context window of a matching line, once and in order, with a separator
//! before each group that follows skipped lines.
use vstd::prelude::*;

use crate::text::{decimal, trim};

verus! {

/// Line `i` lies within `before` lines ahead of, or `after` lines behind, some
/// matching line (a matching line lies within its own window).
pub open spec fn in_window(hits: Seq<bool>, before: int, after: int, i: int) -> bool {
    exists|m: int| 0 <= m < hits.len() && #[trigger] hits[m] && m - before <= i && i <= m + after
}

/// Some line ahead of line `i` is shown.
pub open spec fn shown_before(hits: Seq<bool>, before: int, after: int, i: int) -> bool {
    exists|j: int| 0 <= j < i && #[trigger] in_window(hits, before, after, j)
}

/// Line `i` is shown, the line just ahead of it is not, an earlier line is,
/// and context lines were asked for: a separator goes before it.
pub open spec fn starts_new_group(hits: Seq<bool>, before: int, after: int, i: int) -> bool {
    &&& before + after > 0
    &&& i > 0
    &&& !in_window(hits, before, after, i - 1)
    &&& shown_before(hits, before, after, i)
}

/// The line printed between groups of output: `--`.
pub open spec fn separator() -> Seq<char> {
    seq!['-', '-']
}

/// How line number `index` (counted from 0) is shown: as it is, or, when
/// lines are numbered, as its number counted from 1, a colon, a tab and the
/// line without surrounding white space.
pub open spec fn render_line(line: Seq<char>, index: int, numbered: bool) -> Seq<char> {
    if numbered {
        decimal((index + 1) as nat) + seq![':', '\t'] + trim(line)
    } else {
        line
    }
}

/// What line `i` contributes to the output.
pub open spec fn output_piece(
    lines: Seq<Seq<char>>,
    hits: Seq<bool>,
    before: int,
    after: int,
    numbered: bool,
    i: int,
) -> Seq<Seq<char>> {
    if in_window(hits, before, after, i) {
        (if starts_new_group(hits, before, after, i) {
            seq![separator()]
        } else {
            Seq::<Seq<char>>::empty()
        }) + seq![render_line(lines[i], i, numbered)]
    } else {
        Seq::<Seq<char>>::empty()
    }
}

/// The output for the first `n` lines, given which lines match.
pub open spec fn context_output(
    lines: Seq<Seq<char>>,
    hits: Seq<bool>,
    before: int,
    after: int,
    numbered: bool,
    n: int,
) -> Seq<Seq<char>>
    decreases n,
{
    if n <= 0 {
        Seq::<Seq<char>>::empty()
    } else {
        context_output(lines, hits, before, after, numbered, n - 1) + output_piece(
            lines,
            hits,
            before,
            after,
            numbered,
            n - 1,
        )
    }
}

/// The contributions of lines `lo` up to `hi`, in order.
pub open spec fn pieces_between(
    lines: Seq<Seq<char>>,
    hits: Seq<bool>,
    before: int,
    after: int,
    numbered: bool,
    lo: int,
    hi: int,
) -> Seq<Seq<char>>
    decreases hi - lo,
{
    if hi <= lo {
        Seq::<Seq<char>>::empty()
    } else {
        pieces_between(lines, hits, before, after, numbered, lo, hi - 1) + output_piece(
            lines,
            hits,
            before,
            after,
            numbered,
            hi - 1,
        )
    }
}

/// The position of the last matching line, or -1 when none matches.
pub open spec fn last_hit(hits: Seq<bool>) -> int
    decreases hits.len(),
{
    if hits.len() == 0 {
        -1
    } else if hits.last() {
        hits.len() - 1
    } else {
        last_hit(hits.drop_last())
    }
}

/// The first line not yet decided: past the after-context of the last match.
pub open spec fn pending_start(hits: Seq<bool>, after: int) -> int {
    if last_hit(hits) < 0 {
        0
    } else {
        last_hit(hits) + after + 1
    }
}

/// The first line still held as possible before-context.
pub open spec fn held_from(hits: Seq<bool>, before: int, after: int) -> int {
    let ps = pending_start(hits, after);
    let k = hits.len() - before;
    if ps >= k { ps } else { k }
}

pub proof fn lemma_last_hit(hits: Seq<bool>)
    ensures
        -1 <= last_hit(hits) < hits.len(),
        last_hit(hits) >= 0 ==> hits[last_hit(hits)],
        forall|m: int| last_hit(hits) < m < hits.len() ==> !#[trigger] hits[m],
    decreases hits.len(),
{
    if hits.len() > 0 && !hits.last() {
        lemma_last_hit(hits.drop_last());
        assert forall|m: int| last_hit(hits) < m < hits.len() implies !#[trigger] hits[m] by {
            if m < hits.len() - 1 {
                assert(hits[m] == hits.drop_last()[m]);
            }
        }
    }
}

/// Outputs agree on a prefix where the contributions agree.
pub proof fn lemma_output_agree(
    l1: Seq<Seq<char>>,
    h1: Seq<bool>,
    l2: Seq<Seq<char>>,
    h2: Seq<bool>,
    before: int,
    after: int,
    numbered: bool,
    n: int,
)
    requires
        forall|i: int|
            0 <= i < n ==> #[trigger] output_piece(l1, h1, before, after, numbered, i) == output_piece(
                l2,
                h2,
                before,
                after,
                numbered,
                i,
            ),
    ensures
        context_output(l1, h1, before, after, numbered, n) == context_output(
            l2,
            h2,
            before,
            after,
            numbered,
            n,
        ),
    decreases n,
{
    if n > 0 {
        lemma_output_agree(l1, h1, l2, h2, before, after, numbered, n - 1);
        assert(output_piece(l1, h1, before, after, numbered, n - 1) == output_piece(
            l2,
            h2,
            before,
            after,
            numbered,
            n - 1,
        ));
    }
}

/// The output up to `hi` is the output up to `lo` followed by the pieces between.
pub proof fn lemma_output_split(
    lines: Seq<Seq<char>>,
    hits: Seq<bool>,
    before: int,
    after: int,
    numbered: bool,
    lo: int,
    hi: int,
)
    requires
        0 <= lo <= hi,
    ensures
        context_output(lines, hits, before, after, numbered, hi) == context_output(
            lines,
            hits,
            before,
            after,
            numbered,
            lo,
        ) + pieces_between(lines, hits, before, after, numbered, lo, hi),
    decreases hi - lo,
{
    if hi > lo {
        lemma_output_split(lines, hits, before, after, numbered, lo, hi - 1);
        assert(context_output(lines, hits, before, after, numbered, lo) + pieces_between(
            lines,
            hits,
            before,
            after,
            numbered,
            lo,
            hi,
        ) =~= context_output(lines, hits, before, after, numbered, lo) + pieces_between(
            lines,
            hits,
            before,
            after,
            numbered,
            lo,
            hi - 1,
        ) + output_piece(lines, hits, before, after, numbered, hi - 1));
    } else {
        assert(context_output(lines, hits, before, after, numbered, lo) + pieces_between(
            lines,
            hits,
            before,
            after,
            numbered,
            lo,
            hi,
        ) =~= context_output(lines, hits, before, after, numbered, lo));
    }
}

/// Lines outside every window contribute nothing.
pub proof fn lemma_pieces_silent(
    lines: Seq<Seq<char>>,
    hits: Seq<bool>,
    before: int,
    after: int,
    numbered: bool,
    lo: int,
    hi: int,
)
    requires
        forall|i: int| lo <= i < hi ==> !#[trigger] in_window(hits, before, after, i),
    ensures
        pieces_between(lines, hits, before, after, numbered, lo, hi) == Seq::<Seq<char>>::empty(),
    decreases hi - lo,
{
    if hi > lo {
        lemma_pieces_silent(lines, hits, before, after, numbered, lo, hi - 1);
        assert(!in_window(hits, before, after, hi - 1));
        assert(pieces_between(lines, hits, before, after, numbered, lo, hi) =~= Seq::<
            Seq<char>,
        >::empty());
    }
}


/// What reading one more line adds to the output: when it matches, a
/// separator if lines were skipped since the last output, then the held
/// before-context lines and the line itself; when it does not match but lies
/// within the after-context of the last match, the line itself; else nothing.
pub open spec fn step_block(
    lines: Seq<Seq<char>>,
    hits: Seq<bool>,
    before: int,
    after: int,
    numbered: bool,
    line: Seq<char>,
    hit: bool,
) -> Seq<Seq<char>> {
    let k = hits.len() as int;
    let ps = pending_start(hits, after);
    if hit {
        let lo = held_from(hits, before, after);
        let held = if lo < k { k - lo } else { 0 };
        (if before + after > 0 && last_hit(hits) >= 0 && k - ps > before {
            seq![separator()]
        } else {
            Seq::<Seq<char>>::empty()
        }) + Seq::new(held as nat, |j: int| render_line(lines[lo + j], lo + j, numbered)) + seq![
            render_line(line, k, numbered),
        ]
    } else if ps > k {
        seq![render_line(line, k, numbered)]
    } else {
        Seq::<Seq<char>>::empty()
    }
}

proof fn lemma_window_push_false(hits: Seq<bool>, before: int, after: int)
    ensures
        forall|i: int|
            #[trigger] in_window(hits.push(false), before, after, i) == in_window(
                hits,
                before,
                after,
                i,
            ),
{
    let hp = hits.push(false);
    assert forall|i: int| #[trigger]
        in_window(hp, before, after, i) == in_window(hits, before, after, i) by {
        if in_window(hp, before, after, i) {
            let m = choose|m: int|
                0 <= m < hp.len() && #[trigger] hp[m] && m - before <= i && i <= m + after;
            assert(hits[m]);
        }
        if in_window(hits, before, after, i) {
            let m = choose|m: int|
                0 <= m < hits.len() && #[trigger] hits[m] && m - before <= i && i <= m + after;
            assert(hp[m]);
        }
    }
}

proof fn lemma_window_push_true(hits: Seq<bool>, before: int, after: int)
    ensures
        forall|i: int|
            #[trigger] in_window(hits.push(true), before, after, i) == (in_window(
                hits,
                before,
                after,
                i,
            ) || (hits.len() - before <= i && i <= hits.len() + after)),
{
    let hp = hits.push(true);
    let k = hits.len() as int;
    assert forall|i: int| #[trigger]
        in_window(hp, before, after, i) == (in_window(hits, before, after, i) || (k - before <= i
            && i <= k + after)) by {
        if in_window(hp, before, after, i) {
            let m = choose|m: int|
                0 <= m < hp.len() && #[trigger] hp[m] && m - before <= i && i <= m + after;
            if m < k {
                assert(hits[m]);
            }
        }
        if in_window(hits, before, after, i) {
            let m = choose|m: int|
                0 <= m < hits.len() && #[trigger] hits[m] && m - before <= i && i <= m + after;
            assert(hp[m]);
        }
        if k - before <= i && i <= k + after {
            assert(hp[k]);
        }
    }
}

/// Lines from the pending start on lie in no window; lines around the last
/// match lie in its window.
proof fn lemma_window_bounds(hits: Seq<bool>, before: int, after: int)
    requires
        before >= 0,
        after >= 0,
    ensures
        forall|i: int|
            i >= pending_start(hits, after) ==> !#[trigger] in_window(hits, before, after, i),
        forall|i: int|
            last_hit(hits) >= 0 && last_hit(hits) - before <= i && i <= last_hit(hits) + after
                ==> #[trigger] in_window(hits, before, after, i),
{
    lemma_last_hit(hits);
    let lh = last_hit(hits);
    assert forall|i: int| i >= pending_start(hits, after) implies !#[trigger] in_window(
        hits,
        before,
        after,
        i,
    ) by {
        if in_window(hits, before, after, i) {
            let m = choose|m: int|
                0 <= m < hits.len() && #[trigger] hits[m] && m - before <= i && i <= m + after;
            assert(m <= lh);
        }
    }
    assert forall|i: int|
        lh >= 0 && lh - before <= i && i <= lh + after implies #[trigger] in_window(
        hits,
        before,
        after,
        i,
    ) by {
        assert(hits[lh]);
    }
}

/// A run of shown lines, only the first of which may start a group.
proof fn lemma_group_pieces(
    lines: Seq<Seq<char>>,
    hits: Seq<bool>,
    before: int,
    after: int,
    numbered: bool,
    lo: int,
    hi: int,
)
    requires
        lo <= hi,
        forall|i: int| lo <= i < hi ==> #[trigger] in_window(hits, before, after, i),
    ensures
        pieces_between(lines, hits, before, after, numbered, lo, hi) == (if hi > lo
            && starts_new_group(hits, before, after, lo) {
            seq![separator()]
        } else {
            Seq::<Seq<char>>::empty()
        }) + Seq::new((hi - lo) as nat, |j: int| render_line(lines[lo + j], lo + j, numbered)),
    decreases hi - lo,
{
    if hi > lo {
        lemma_group_pieces(lines, hits, before, after, numbered, lo, hi - 1);
        assert(in_window(hits, before, after, hi - 1));
        if hi - 1 > lo {
            assert(in_window(hits, before, after, hi - 2));
            assert(!starts_new_group(hits, before, after, hi - 1));
        }
        let sep = if starts_new_group(hits, before, after, lo) {
            seq![separator()]
        } else {
            Seq::<Seq<char>>::empty()
        };
        assert(sep + Seq::new((hi - lo) as nat, |j: int| render_line(lines[lo + j], lo + j, numbered))
            =~= (if hi - 1 > lo && starts_new_group(hits, before, after, lo) {
            seq![separator()]
        } else {
            Seq::<Seq<char>>::empty()
        }) + Seq::new((hi - 1 - lo) as nat, |j: int| render_line(lines[lo + j], lo + j, numbered))
            + output_piece(lines, hits, before, after, numbered, hi - 1));
    }
}


/// Output is final once given: reading one more line leaves everything
/// output so far in place and adds exactly `step_block` after it.
pub proof fn lemma_step(
    lines: Seq<Seq<char>>,
    hits: Seq<bool>,
    before: int,
    after: int,
    numbered: bool,
    line: Seq<char>,
    hit: bool,
)
    requires
        lines.len() == hits.len(),
        before >= 0,
        after >= 0,
    ensures
        context_output(lines.push(line), hits.push(hit), before, after, numbered, hits.len() + 1 as int)
            == context_output(lines, hits, before, after, numbered, hits.len() as int)
            + step_block(lines, hits, before, after, numbered, line, hit),
{
    let k = hits.len() as int;
    let lp = lines.push(line);
    let hp = hits.push(hit);
    lemma_last_hit(hits);
    lemma_window_bounds(hits, before, after);
    let lh = last_hit(hits);
    let ps = pending_start(hits, after);
    if !hit {
        lemma_window_push_false(hits, before, after);
        assert forall|i: int| 0 <= i < k implies #[trigger] output_piece(
            lp,
            hp,
            before,
            after,
            numbered,
            i,
        ) == output_piece(lines, hits, before, after, numbered, i) by {
            assert(lp[i] == lines[i]);
            assert(in_window(hp, before, after, i) == in_window(hits, before, after, i));
            assert(in_window(hp, before, after, i - 1) == in_window(hits, before, after, i - 1));
            assert(shown_before(hp, before, after, i) == shown_before(hits, before, after, i)) by {
                if shown_before(hp, before, after, i) {
                    let j = choose|j: int| 0 <= j < i && #[trigger] in_window(hp, before, after, j);
                    assert(in_window(hits, before, after, j));
                }
                if shown_before(hits, before, after, i) {
                    let j = choose|j: int|
                        0 <= j < i && #[trigger] in_window(hits, before, after, j);
                    assert(in_window(hp, before, after, j));
                }
            }
        }
        lemma_output_agree(lp, hp, lines, hits, before, after, numbered, k);
        assert(in_window(hp, before, after, k) == in_window(hits, before, after, k));
        if ps > k {
            assert(in_window(hits, before, after, k));
            assert(in_window(hits, before, after, k - 1));
            assert(in_window(hp, before, after, k - 1));
            assert(!starts_new_group(hp, before, after, k));
            assert(output_piece(lp, hp, before, after, numbered, k) =~= seq![
                render_line(line, k, numbered),
            ]);
        } else {
            assert(!in_window(hits, before, after, k));
        }
        assert(context_output(lp, hp, before, after, numbered, k + 1) =~= context_output(
            lines,
            hits,
            before,
            after,
            numbered,
            k,
        ) + step_block(lines, hits, before, after, numbered, line, hit));
    } else {
        lemma_window_push_true(hits, before, after);
        let lo = held_from(hits, before, after);
        let lo2 = if lo < k { lo } else { k };
        assert(0 <= lo2 <= k);
        assert forall|i: int| 0 <= i < lo2 implies #[trigger] in_window(hp, before, after, i)
            == in_window(hits, before, after, i) by {
            if k - before <= i && i <= k + after {
                assert(lh >= 0);
                assert(lh - before <= i && i <= lh + after);
                assert(in_window(hits, before, after, i));
            }
        }
        assert forall|i: int| 0 <= i < lo2 implies #[trigger] output_piece(
            lp,
            hp,
            before,
            after,
            numbered,
            i,
        ) == output_piece(lines, hits, before, after, numbered, i) by {
            assert(lp[i] == lines[i]);
            assert(in_window(hp, before, after, i) == in_window(hits, before, after, i));
            if i > 0 {
                assert(in_window(hp, before, after, i - 1) == in_window(
                    hits,
                    before,
                    after,
                    i - 1,
                ));
            }
            assert(shown_before(hp, before, after, i) == shown_before(hits, before, after, i)) by {
                if shown_before(hp, before, after, i) {
                    let j = choose|j: int| 0 <= j < i && #[trigger] in_window(hp, before, after, j);
                    assert(in_window(hits, before, after, j));
                }
                if shown_before(hits, before, after, i) {
                    let j = choose|j: int|
                        0 <= j < i && #[trigger] in_window(hits, before, after, j);
                    assert(in_window(hp, before, after, j));
                }
            }
        }
        lemma_output_agree(lp, hp, lines, hits, before, after, numbered, lo2);
        lemma_output_split(lines, hits, before, after, numbered, lo2, k);
        assert forall|i: int| lo2 <= i < k implies !#[trigger] in_window(
            hits,
            before,
            after,
            i,
        ) by {
            assert(i >= ps);
        }
        lemma_pieces_silent(lines, hits, before, after, numbered, lo2, k);
        assert(context_output(lines, hits, before, after, numbered, k) =~= context_output(
            lines,
            hits,
            before,
            after,
            numbered,
            lo2,
        ));
        lemma_output_split(lp, hp, before, after, numbered, lo2, k + 1);
        assert forall|i: int| lo2 <= i < k + 1 implies #[trigger] in_window(
            hp,
            before,
            after,
            i,
        ) by {}
        lemma_group_pieces(lp, hp, before, after, numbered, lo2, k + 1);
        let sep = before + after > 0 && lh >= 0 && k - ps > before;
        assert(starts_new_group(hp, before, after, lo2) == sep) by {
            if sep {
                assert(lo2 == k - before);
                assert(!in_window(hits, before, after, lo2 - 1));
                assert(!in_window(hp, before, after, lo2 - 1));
                assert(in_window(hits, before, after, lh));
                assert(in_window(hp, before, after, lh));
                assert(shown_before(hp, before, after, lo2));
            }
            if starts_new_group(hp, before, after, lo2) {
                let j = choose|j: int| 0 <= j < lo2 && #[trigger] in_window(hp, before, after, j);
                assert(in_window(hits, before, after, j));
                let m = choose|m: int|
                    0 <= m < hits.len() && #[trigger] hits[m] && m - before <= j && j <= m
                        + after;
                assert(lh >= 0);
                if k - ps <= before {
                    if lo2 == ps {
                        assert(in_window(hits, before, after, lo2 - 1));
                    } else {
                        assert(in_window(hits, before, after, k - 1));
                    }
                }
            }
        }
        let held = if lo < k { k - lo } else { 0 };
        assert(Seq::new((k + 1 - lo2) as nat, |j: int| render_line(lp[lo2 + j], lo2 + j, numbered))
            =~= Seq::new(held as nat, |j: int| render_line(lines[lo + j], lo + j, numbered)) + seq![
            render_line(line, k, numbered),
        ]);
        assert(context_output(lp, hp, before, after, numbered, k + 1) =~= context_output(
            lines,
            hits,
            before,
            after,
            numbered,
            k,
        ) + step_block(lines, hits, before, after, numbered, line, hit));
    }
}


/// The matching lines among the first `n`, in order.
pub open spec fn matching_lines(lines: Seq<Seq<char>>, hits: Seq<bool>, n: int) -> Seq<Seq<char>>
    decreases n,
{
    if n <= 0 {
        Seq::<Seq<char>>::empty()
    } else {
        matching_lines(lines, hits, n - 1) + (if hits[n - 1] {
            seq![lines[n - 1]]
        } else {
            Seq::<Seq<char>>::empty()
        })
    }
}

/// Without context lines and numbering, the output is exactly the matching
/// lines, in order, with no separators.
pub proof fn lemma_no_context_shows_matching_lines(lines: Seq<Seq<char>>, hits: Seq<bool>, n: int)
    requires
        0 <= n <= hits.len(),
        lines.len() == hits.len(),
    ensures
        context_output(lines, hits, 0, 0, false, n) == matching_lines(lines, hits, n),
    decreases n,
{
    if n > 0 {
        lemma_no_context_shows_matching_lines(lines, hits, n - 1);
        let i = n - 1;
        if in_window(hits, 0, 0, i) {
            let m = choose|m: int| 0 <= m < hits.len() && #[trigger] hits[m] && m - 0 <= i && i <= m + 0;
            assert(m == i);
        }
        if hits[i] {
            assert(in_window(hits, 0, 0, i));
        }
        assert(!starts_new_group(hits, 0, 0, i));
    }
}

} // verus!
