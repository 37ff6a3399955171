//! The segment algebra: pure computations over byte ranges.
//!
//! Given the full range of the source and the multiset of ranges already
//! covered by a backup group, [`next_uncovered`] yields the next contiguous
//! extent that still needs attention, merging overlapping and adjacent
//! coverage.  [`overlap`] intersects two ranges.  The result of
//! [`next_uncovered`] depends only on the multiset of covering segments,
//! never on the order in which they are supplied
//! ([`lemma_next_uncovered_permutation_invariant`]), the reported gap is
//! genuinely uncovered ([`lemma_next_uncovered_gap_uncovered`]), nothing
//! uncovered precedes it ([`lemma_next_uncovered_prefix_covered`]), and it
//! extends as far as the true gap does
//! ([`lemma_next_uncovered_gap_maximal`]).

use vstd::prelude::*;
use vstd::relations::{sorted_by, total_ordering};
use vstd::seq_lib::group_to_multiset_ensures;
use vstd::seq_lib::lemma_sorted_unique;

use crate::index::{Fragment, Index, Slice};

verus! {

/// Lexicographic order on `(start, end)`: the order in which covering
/// segments are merged.
pub open spec fn slice_leq(a: Slice, b: Slice) -> bool {
    a.start < b.start || (a.start == b.start && a.end <= b.end)
}

/// [`slice_leq`] as a relation value, for use with the sequence library.
pub open spec fn slice_order() -> spec_fn(Slice, Slice) -> bool {
    |a: Slice, b: Slice| slice_leq(a, b)
}

pub proof fn lemma_slice_order_total()
    ensures
        total_ordering(slice_order()),
{
    let leq = slice_order();
    assert forall|a: Slice, b: Slice| #[trigger] leq(a, b) && #[trigger] leq(b, a) implies a == b by {
        assert(a.start == b.start && a.end == b.end);
    }
}

/// Whether point `p` of the coordinate space lies inside some segment of the
/// covering set.
pub open spec fn covered(cov: Seq<Slice>, p: int) -> bool {
    exists|i: int| 0 <= i < cov.len() && cov[i].spec_contains(p)
}

/// The scan at the heart of [`next_uncovered`]: walk the covering segments
/// in sorted order; a segment starting at or before the cursor merges in (the
/// cursor advances past it), a segment starting beyond the cursor reveals a
/// gap (the range's end is clipped to the segment's start and the scan
/// stops).
pub open spec fn scan_cursor(cur: Slice, cov: Seq<Slice>) -> Slice
    decreases cov.len(),
{
    if cov.len() == 0 {
        cur
    } else {
        let seg = cov[0];
        if seg.start <= cur.start {
            let advanced = Slice {
                start: if seg.end > cur.start { seg.end } else { cur.start },
                end: cur.end,
            };
            scan_cursor(advanced, cov.drop_first())
        } else {
            Slice { start: cur.start, end: if seg.start < cur.end { seg.start } else { cur.end } }
        }
    }
}

/// A scanned range is a gap only if it is nonempty.
pub open spec fn interp_gap(s: Slice) -> Option<Slice> {
    if s.start < s.end {
        Some(s)
    } else {
        None
    }
}

/// The next contiguous extent of `full` not covered by `cov`, or `None` when
/// `full` is fully covered.
pub open spec fn spec_next_uncovered(full: Slice, cov: Seq<Slice>) -> Option<Slice> {
    interp_gap(scan_cursor(full, cov.sort_by(slice_order())))
}

proof fn lemma_covered_unfold(cov: Seq<Slice>, p: int)
    requires
        cov.len() > 0,
    ensures
        covered(cov, p) == (cov[0].spec_contains(p) || covered(cov.drop_first(), p)),
{
    if covered(cov, p) {
        let i = choose|i: int| 0 <= i < cov.len() && cov[i].spec_contains(p);
        if i > 0 {
            assert(cov.drop_first()[i - 1].spec_contains(p));
        }
    }
    if covered(cov.drop_first(), p) {
        let i = choose|i: int| 0 <= i < cov.drop_first().len() && cov.drop_first()[i].spec_contains(
            p,
        );
        assert(cov[i + 1].spec_contains(p));
    }
}

proof fn lemma_sorted_drop_first(cov: Seq<Slice>)
    requires
        cov.len() > 0,
        sorted_by(cov, slice_order()),
    ensures
        sorted_by(cov.drop_first(), slice_order()),
{
    let rest = cov.drop_first();
    assert forall|i: int, j: int| 0 <= i < j < rest.len() implies #[trigger] slice_order()(
        rest[i],
        rest[j],
    ) by {
        assert(slice_order()(cov[i + 1], cov[j + 1]));
    }
}

/// What one pass of the scan guarantees: the cursor only moves forward, the
/// end only moves back, every point passed over is covered, no point of the
/// resulting range is covered, and an empty result means the cursor ran past
/// the range's end.
proof fn lemma_scan_properties(cur: Slice, cov: Seq<Slice>)
    requires
        sorted_by(cov, slice_order()),
    ensures
        cur.start <= scan_cursor(cur, cov).start,
        scan_cursor(cur, cov).end <= cur.end,
        forall|p: int|
            cur.start <= p < scan_cursor(cur, cov).start ==> covered(cov, p),
        forall|p: int|
            scan_cursor(cur, cov).start <= p < scan_cursor(cur, cov).end ==> !covered(cov, p),
        scan_cursor(cur, cov).start >= scan_cursor(cur, cov).end ==> scan_cursor(cur, cov).start
            >= cur.end,
    decreases cov.len(),
{
    let res = scan_cursor(cur, cov);
    if cov.len() == 0 {
    } else {
        let seg = cov[0];
        let rest = cov.drop_first();
        lemma_sorted_drop_first(cov);
        if seg.start <= cur.start {
            let advanced = Slice {
                start: if seg.end > cur.start { seg.end } else { cur.start },
                end: cur.end,
            };
            lemma_scan_properties(advanced, rest);
            assert forall|p: int| cur.start <= p < res.start implies covered(cov, p) by {
                lemma_covered_unfold(cov, p);
                if p < advanced.start {
                    assert(seg.spec_contains(p));
                }
            }
            assert forall|p: int| res.start <= p < res.end implies !covered(cov, p) by {
                lemma_covered_unfold(cov, p);
                assert(!seg.spec_contains(p));
            }
        } else {
            assert forall|p: int| res.start <= p < res.end implies !covered(cov, p) by {
                if covered(cov, p) {
                    let i = choose|i: int| 0 <= i < cov.len() && cov[i].spec_contains(p);
                    assert(slice_order()(cov[0], cov[i]));
                }
            }
        }
    }
}

/// When every covering segment is nonempty, a gap that stops short of the
/// range's end stops exactly at a covered point.
proof fn lemma_scan_end_covered(cur: Slice, cov: Seq<Slice>)
    requires
        sorted_by(cov, slice_order()),
        forall|i: int| 0 <= i < cov.len() ==> cov[i].start < cov[i].end,
        scan_cursor(cur, cov).end < cur.end,
    ensures
        covered(cov, scan_cursor(cur, cov).end as int),
    decreases cov.len(),
{
    let res = scan_cursor(cur, cov);
    let seg = cov[0];
    let rest = cov.drop_first();
    lemma_sorted_drop_first(cov);
    lemma_covered_unfold(cov, res.end as int);
    if seg.start <= cur.start {
        let advanced = Slice {
            start: if seg.end > cur.start { seg.end } else { cur.start },
            end: cur.end,
        };
        lemma_scan_end_covered(advanced, rest);
    } else {
        assert(seg.spec_contains(res.end as int));
    }
}

proof fn lemma_covered_permuted(a: Seq<Slice>, b: Seq<Slice>, p: int)
    requires
        a.to_multiset() == b.to_multiset(),
        covered(a, p),
    ensures
        covered(b, p),
{
    broadcast use group_to_multiset_ensures;

    let i = choose|i: int| 0 <= i < a.len() && a[i].spec_contains(p);
    assert(a.contains(a[i]));
    assert(a.to_multiset().contains(a[i]));
    assert(b.to_multiset().contains(a[i]));
    assert(b.contains(a[i]));
    let j = choose|j: int| 0 <= j < b.len() && b[j] == a[i];
    assert(b[j].spec_contains(p));
}

/// Law: the next uncovered extent depends only on the multiset of covering
/// segments.  Any two orderings of the same covering set give the same
/// result.
pub proof fn lemma_next_uncovered_permutation_invariant(full: Slice, a: Seq<Slice>, b: Seq<Slice>)
    requires
        a.to_multiset() == b.to_multiset(),
    ensures
        spec_next_uncovered(full, a) == spec_next_uncovered(full, b),
{
    lemma_slice_order_total();
    a.lemma_sort_by_ensures(slice_order());
    b.lemma_sort_by_ensures(slice_order());
    assert(a.sort_by(slice_order()).to_multiset() == b.sort_by(slice_order()).to_multiset());
    lemma_sorted_unique(a.sort_by(slice_order()), b.sort_by(slice_order()), slice_order());
}

/// Law: a reported gap is genuinely uncovered — no point inside it lies in
/// any covering segment.
pub proof fn lemma_next_uncovered_gap_uncovered(full: Slice, cov: Seq<Slice>, p: int)
    requires
        spec_next_uncovered(full, cov) matches Some(gap) && gap.spec_contains(p),
    ensures
        !covered(cov, p),
{
    lemma_slice_order_total();
    cov.lemma_sort_by_ensures(slice_order());
    let sorted = cov.sort_by(slice_order());
    lemma_scan_properties(full, sorted);
    if covered(cov, p) {
        lemma_covered_permuted(cov, sorted, p);
    }
}

/// Law: the reported gap begins at the first uncovered point — every point
/// of the full range before it is covered, and if no gap is reported the
/// whole range is covered.
pub proof fn lemma_next_uncovered_prefix_covered(full: Slice, cov: Seq<Slice>, p: int)
    requires
        full.spec_contains(p),
        match spec_next_uncovered(full, cov) {
            Some(gap) => p < gap.start,
            None => true,
        },
    ensures
        covered(cov, p),
{
    lemma_slice_order_total();
    cov.lemma_sort_by_ensures(slice_order());
    let sorted = cov.sort_by(slice_order());
    lemma_scan_properties(full, sorted);
    lemma_covered_permuted(sorted, cov, p);
}

/// Law: when every covering segment is nonempty, a reported gap is maximal —
/// it either reaches the end of the full range or stops at a covered point.
pub proof fn lemma_next_uncovered_gap_maximal(full: Slice, cov: Seq<Slice>)
    requires
        forall|i: int| 0 <= i < cov.len() ==> cov[i].start < cov[i].end,
        spec_next_uncovered(full, cov) matches Some(gap) && gap.end < full.end,
    ensures
        covered(cov, spec_next_uncovered(full, cov).unwrap().end as int),
{
    lemma_slice_order_total();
    cov.lemma_sort_by_ensures(slice_order());
    let sorted = cov.sort_by(slice_order());
    assert forall|i: int| 0 <= i < sorted.len() implies sorted[i].start < sorted[i].end by {
        broadcast use group_to_multiset_ensures;

        assert(sorted.contains(sorted[i]));
        assert(cov.contains(sorted[i]));
    }
    lemma_scan_end_covered(full, sorted);
    lemma_covered_permuted(sorted, cov, spec_next_uncovered(full, cov).unwrap().end as int);
}

fn slice_before(a: Slice, b: Slice) -> (r: bool)
    ensures
        r == slice_leq(a, b),
{
    a.start < b.start || (a.start == b.start && a.end <= b.end)
}

/// A copy of `v` sorted by `(start, end)`.
fn sorted_copy(v: &Vec<Slice>) -> (r: Vec<Slice>)
    ensures
        r@ == v@.sort_by(slice_order()),
{
    broadcast use group_to_multiset_ensures;

    let mut out: Vec<Slice> = Vec::new();
    let mut i: usize = 0;
    while i < v.len()
        invariant
            i <= v@.len(),
            sorted_by(out@, slice_order()),
            out@.to_multiset() == v@.take(i as int).to_multiset(),
        decreases v@.len() - i,
    {
        let x = v[i];
        let mut k: usize = 0;
        while k < out.len() && slice_before(out[k], x)
            invariant
                k <= out@.len(),
                forall|j: int| 0 <= j < k ==> slice_leq(out@[j], x),
            decreases out@.len() - k,
        {
            k = k + 1;
        }
        proof {
            assert(v@.take(i + 1) =~= v@.take(i as int).push(x));
        }
        let ghost prev = out@;
        out.insert(k, x);
        proof {
            assert(out@ == prev.insert(k as int, x));
            vstd::seq_lib::to_multiset_insert(prev, k as int, x);
            vstd::seq_lib::to_multiset_build(v@.take(i as int), x);
            assert(v@.take(i + 1) =~= v@.take(i as int).push(x));
            assert(v@.take(i + 1).to_multiset() == v@.take(i as int).to_multiset().insert(x));
            assert forall|m: int, n: int| 0 <= m < n < out@.len() implies #[trigger] slice_order()(
                out@[m],
                out@[n],
            ) by {
                if n < k {
                    assert(slice_order()(prev[m], prev[n]));
                } else if m < k && n == k {
                    assert(slice_leq(prev[m], x));
                } else if m < k && n > k {
                    assert(slice_order()(prev[m], prev[n - 1]));
                } else if m == k {
                    // x precedes everything from position k on: the scan
                    // stopped because prev[k as int] does not precede x.
                    if k < prev.len() {
                        assert(!slice_leq(prev[k as int], x));
                        assert(slice_leq(x, prev[k as int]));
                        if n > k + 1 {
                            assert(slice_order()(prev[k as int], prev[n - 1]));
                        }
                    }
                } else {
                    assert(slice_order()(prev[m - 1], prev[n - 1]));
                }
            }
        }
        i = i + 1;
    }
    proof {
        lemma_slice_order_total();
        v@.lemma_sort_by_ensures(slice_order());
        assert(v@.take(v@.len() as int) =~= v@);
        lemma_sorted_unique(out@, v@.sort_by(slice_order()), slice_order());
    }
    out
}

/// The next contiguous extent of `full` that no segment of `covering`
/// covers, merging overlapping and adjacent coverage; `None` when `full` is
/// fully covered.
pub fn next_uncovered(full: Slice, covering: &Vec<Slice>) -> (r: Option<Slice>)
    ensures
        r == spec_next_uncovered(full, covering@),
{
    let sorted = sorted_copy(covering);
    let ghost sseq = sorted@;
    proof {
        assert(sseq.skip(0) =~= sseq);
    }
    let mut cur: Slice = full;
    let mut i: usize = 0;
    loop
        invariant_except_break
            i <= sseq.len(),
            sorted@ == sseq,
            scan_cursor(full, sseq) == scan_cursor(cur, sseq.skip(i as int)),
        ensures
            cur == scan_cursor(full, sseq),
        decreases sseq.len() - i,
    {
        if i >= sorted.len() {
            proof {
                assert(sseq.skip(i as int) =~= Seq::<Slice>::empty());
            }
            break ;
        }
        let seg = sorted[i];
        proof {
            assert(sseq.skip(i as int)[0] == sseq[i as int]);
            assert(sseq.skip(i as int).drop_first() =~= sseq.skip(i + 1));
        }
        if seg.start <= cur.start {
            if seg.end > cur.start {
                cur = Slice { start: seg.end, end: cur.end };
            }
        } else {
            if seg.start < cur.end {
                cur = Slice { start: cur.start, end: seg.start };
            }
            break ;
        }
        i = i + 1;
    }
    if cur.start < cur.end {
        Some(cur)
    } else {
        None
    }
}

/// The intersection of two ranges: the later start, the earlier end.
pub open spec fn spec_overlap(a: Slice, b: Slice) -> Slice {
    Slice {
        start: if a.start > b.start {
            a.start
        } else {
            b.start
        },
        end: if a.end < b.end {
            a.end
        } else {
            b.end
        },
    }
}

/// The intersection of two ranges; an empty result (`end <= start`) means
/// the ranges do not overlap.
pub fn overlap(a: Slice, b: Slice) -> (r: Slice)
    ensures
        r == spec_overlap(a, b),
{
    Slice {
        start: if a.start > b.start { a.start } else { b.start },
        end: if a.end < b.end { a.end } else { b.end },
    }
}

/// The geometries of the fragments of `frags` that carry group tag `group`,
/// in index order.
pub open spec fn group_geometries(frags: Seq<Fragment>, group: Seq<char>) -> Seq<Slice>
    decreases frags.len(),
{
    if frags.len() == 0 {
        Seq::empty()
    } else {
        let rest = group_geometries(frags.drop_last(), group);
        if frags.last().spec_in_group(group) {
            rest.push(frags.last().geometry)
        } else {
            rest
        }
    }
}

/// The geometries of all fragments of `idx` whose groups contain `group`.
pub fn get_fragment_group(idx: &Index, group: &str) -> (r: Vec<Slice>)
    ensures
        r@ == group_geometries(idx.fragments@, group@),
{
    let mut out: Vec<Slice> = Vec::new();
    let mut i: usize = 0;
    while i < idx.fragments.len()
        invariant
            i <= idx.fragments@.len(),
            out@ == group_geometries(idx.fragments@.take(i as int), group@),
        decreases idx.fragments@.len() - i,
    {
        proof {
            assert(idx.fragments@.take(i + 1).drop_last() =~= idx.fragments@.take(i as int));
            assert(idx.fragments@.take(i + 1).last() == idx.fragments@[i as int]);
        }
        if idx.fragments[i].in_group(group) {
            out.push(idx.fragments[i].geometry);
        }
        i = i + 1;
    }
    proof {
        assert(idx.fragments@.take(idx.fragments@.len() as int) =~= idx.fragments@);
    }
    out
}

/// The next range of `to_backup` that group `group` has not yet covered.
pub fn determine_next_backup(idx: &Index, to_backup: Slice, group: &str) -> (r: Option<Slice>)
    ensures
        r == spec_next_uncovered(to_backup, group_geometries(idx.fragments@, group@)),
{
    let backed_up = get_fragment_group(idx, group);
    next_uncovered(to_backup, &backed_up)
}

} // verus!
