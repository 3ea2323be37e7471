//! What holds of everything a producer emits, proved over the model.
use std::ops::Range;
use vstd::prelude::*;
use crate::model::{
    EveryRangeKind, GapState, Item, alternates, fill, gap_fill, included_ranges, span, tiles,
    valid_from, well_ordered,
};

verus! {

/// Sorted, disjoint ranges within `[0, end)` pass every check of production,
/// from any position up to the start of the first of them.
pub proof fn lemma_well_ordered_valid(rs: Seq<Range<usize>>, cursor: usize, end: usize)
    requires
        well_ordered(rs, end),
        rs.len() > 0 ==> cursor <= rs[0].start,
    ensures
        valid_from(rs, cursor, end),
    decreases rs.len(),
{
    if rs.len() > 0 {
        let tail = rs.drop_first();
        assert(rs[0].start <= rs[0].end <= end);
        assert forall|i: int| 0 <= i < tail.len() implies #[trigger] tail[i].start <= tail[i].end
            <= end by {
            assert(tail[i] == rs[i + 1]);
        }
        assert forall|i: int| 0 < i < tail.len() implies tail[i - 1].end
            <= #[trigger] tail[i].start by {
            assert(tail[i] == rs[i + 1]);
            assert(tail[i - 1] == rs[i]);
        }
        if tail.len() > 0 {
            assert(tail[0] == rs[1]);
        }
        lemma_well_ordered_valid(tail, rs[0].end, end);
    }
}

proof fn lemma_fill_tiles(rs: Seq<Range<usize>>, cursor: usize, end: usize)
    requires
        valid_from(rs, cursor, end),
        cursor <= end,
    ensures
        tiles(fill(rs, cursor, end), cursor, end),
    decreases rs.len(),
{
    let out = fill(rs, cursor, end);
    if rs.len() == 0 {
        if cursor < end {
            assert(out.drop_first() =~= seq![]);
            assert(tiles(out.drop_first(), end, end));
        }
    } else {
        let r = rs[0];
        let tail = fill(rs.drop_first(), r.end, end);
        lemma_fill_tiles(rs.drop_first(), r.end, end);
        if cursor < r.start {
            assert(out.drop_first().drop_first() =~= tail);
            assert(out.drop_first()[0] == (EveryRangeKind::Included, r));
            assert(tiles(out.drop_first(), r.start, end));
        } else {
            assert(out.drop_first() =~= tail);
        }
    }
}

/// For sorted, disjoint ranges within `[0, end)`, the emitted ranges laid end
/// to end cover `[0, end)` exactly, with no gap and no overlap.
pub proof fn lemma_coverage(rs: Seq<Range<usize>>, end: usize)
    requires
        well_ordered(rs, end),
    ensures
        tiles(gap_fill(rs, end), 0, end),
{
    lemma_well_ordered_valid(rs, 0, end);
    lemma_fill_tiles(rs, 0, end);
}

proof fn lemma_fill_alternates(rs: Seq<Range<usize>>, cursor: usize, end: usize)
    ensures
        alternates(fill(rs, cursor, end)),
    decreases rs.len(),
{
    if rs.len() > 0 {
        let r = rs[0];
        let tail = fill(rs.drop_first(), r.end, end);
        lemma_fill_alternates(rs.drop_first(), r.end, end);
        let out = fill(rs, cursor, end);
        let k: int = if cursor < r.start { 2 } else { 1 };
        assert forall|i: int|
            0 <= i < out.len() - 1 implies !(#[trigger] out[i].0 == EveryRangeKind::Excluded
            && out[i + 1].0 == EveryRangeKind::Excluded) by {
            if i >= k {
                assert(out[i] == tail[i - k]);
                assert(out[i + 1] == tail[i - k + 1]);
            } else {
                assert(out[k - 1].0 == EveryRangeKind::Included);
            }
        }
    }
}

/// No two neighbouring emitted items are both `Excluded`: each gap is filled
/// by exactly one range.
pub proof fn lemma_alternation(rs: Seq<Range<usize>>, end: usize)
    ensures
        alternates(gap_fill(rs, end)),
{
    lemma_fill_alternates(rs, 0, end);
}

proof fn lemma_included_push(x: Item, t: Seq<Item>)
    ensures
        included_ranges(seq![x] + t) == if x.0 == EveryRangeKind::Included {
            seq![x.1] + included_ranges(t)
        } else {
            included_ranges(t)
        },
{
    assert((seq![x] + t).drop_first() =~= t);
}

proof fn lemma_fill_included(rs: Seq<Range<usize>>, cursor: usize, end: usize)
    ensures
        included_ranges(fill(rs, cursor, end)) == rs,
    decreases rs.len(),
{
    if rs.len() == 0 {
        if cursor < end {
            lemma_included_push((EveryRangeKind::Excluded, span(cursor, end)), seq![]);
        }
        assert(included_ranges(fill(rs, cursor, end)) =~= rs);
    } else {
        let r = rs[0];
        let tail = fill(rs.drop_first(), r.end, end);
        lemma_fill_included(rs.drop_first(), r.end, end);
        let inc = (EveryRangeKind::Included, r);
        lemma_included_push(inc, tail);
        if cursor < r.start {
            let gap = (EveryRangeKind::Excluded, span(cursor, r.start));
            lemma_included_push(gap, seq![inc] + tail);
            assert(seq![gap, inc] + tail =~= seq![gap] + (seq![inc] + tail));
        }
        assert(seq![r] + rs.drop_first() =~= rs);
    }
}

/// The `Included` items emitted are the source's ranges, unchanged and in
/// the same order.
pub proof fn lemma_identity(rs: Seq<Range<usize>>, end: usize)
    ensures
        included_ranges(gap_fill(rs, end)) == rs,
{
    lemma_fill_included(rs, 0, end);
}

/// Once a step emits nothing, the state is unchanged and breaks no rule, so
/// every later step emits nothing as well.
pub proof fn lemma_exhaustion(s: GapState)
    requires
        s.step().1 is None,
    ensures
        s.step().0 == s,
        s.pull_error() is None,
{
}

/// With an empty source, nothing is emitted for an empty domain, and one
/// `Excluded` range, the whole domain, for any other.
pub proof fn lemma_empty_source(end: usize)
    ensures
        end == 0 ==> gap_fill(seq![], end) == Seq::<Item>::empty(),
        end > 0 ==> gap_fill(seq![], end) == seq![(EveryRangeKind::Excluded, span(0, end))],
{
}

proof fn lemma_fill_len(rs: Seq<Range<usize>>, cursor: usize, end: usize)
    ensures
        fill(rs, cursor, end).len() <= 2 * rs.len() + 1,
        fill(rs, cursor, end).len() == 0 <==> rs.len() == 0 && end <= cursor,
    decreases rs.len(),
{
    if rs.len() > 0 {
        lemma_fill_len(rs.drop_first(), rs[0].end, end);
    }
}

/// For `k` source ranges at most `2k + 1` items are emitted, and none only
/// when the source is empty and so is the domain.
pub proof fn lemma_output_size(rs: Seq<Range<usize>>, end: usize)
    ensures
        gap_fill(rs, end).len() <= 2 * rs.len() + 1,
        gap_fill(rs, end).len() == 0 <==> rs.len() == 0 && end == 0,
{
    lemma_fill_len(rs, 0, end);
}

} // verus!
