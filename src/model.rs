//! The mathematical model of gap filling: the state of a producer, one step
//! of production, and the whole sequence of items it emits.
use std::ops::Range;
use vstd::prelude::*;

verus! {

/// Tells an emitted range given by the source from one made to fill a gap.
#[derive(PartialEq, Eq, Structural, Clone, Copy, Debug)]
pub enum EveryRangeKind {
    /// The range came from the source, unchanged.
    Included,
    /// The range was made to fill a gap that the source left.
    Excluded,
}

/// What one item of output is: its kind and its range.
pub type Item = (EveryRangeKind, Range<usize>);

/// The ways in which the next range of a source can break the producer's rules.
#[derive(PartialEq, Eq, Structural, Clone, Copy, Debug)]
pub enum RangeError {
    /// The range starts before the position reached so far: it overlaps an
    /// earlier one, or the source is out of order.
    StartsBeforeCursor,
    /// The range ends past the end of the domain.
    ExceedsEnd,
    /// The range starts after it ends.
    StartAfterEnd,
}

impl RangeError {
    /// The diagnostic that names the broken rule.
    pub fn message(&self) -> (r: &'static str)
        ensures
            *self == RangeError::StartsBeforeCursor ==> r@ == "range starts before current position"@,
            *self == RangeError::ExceedsEnd ==> r@ == "range exceeds domain end"@,
            *self == RangeError::StartAfterEnd ==> r@ == "range start exceeds range end"@,
    {
        match self {
            RangeError::StartsBeforeCursor => "range starts before current position",
            RangeError::ExceedsEnd => "range exceeds domain end",
            RangeError::StartAfterEnd => "range start exceeds range end",
        }
    }
}

/// The half-open range `[start, end)`.
pub open spec fn span(start: usize, end: usize) -> Range<usize> {
    Range { start, end }
}

/// What a producer holds, as plain values: the position after the last range
/// it emitted, the end of the domain, the range waiting behind a gap just
/// emitted, and the ranges that the source has still to give.
pub struct GapState {
    pub cursor: usize,
    pub end: usize,
    pub pending: Option<Range<usize>>,
    pub rest: Seq<Range<usize>>,
}

/// The items emitted for the ranges `rs` from position `cursor` on, when each
/// range is taken as it comes.
pub open spec fn fill(rs: Seq<Range<usize>>, cursor: usize, end: usize) -> Seq<Item>
    decreases rs.len(),
{
    if rs.len() == 0 {
        if cursor < end {
            seq![(EveryRangeKind::Excluded, span(cursor, end))]
        } else {
            seq![]
        }
    } else {
        let r = rs[0];
        let tail = fill(rs.drop_first(), r.end, end);
        if cursor < r.start {
            seq![(EveryRangeKind::Excluded, span(cursor, r.start)), (EveryRangeKind::Included, r)]
                + tail
        } else {
            seq![(EveryRangeKind::Included, r)] + tail
        }
    }
}

/// Each range is well formed and within `[0, end)`, and each starts no earlier
/// than the one before it ends.
pub open spec fn well_ordered(rs: Seq<Range<usize>>, end: usize) -> bool {
    &&& forall|i: int| 0 <= i < rs.len() ==> #[trigger] rs[i].start <= rs[i].end <= end
    &&& forall|i: int| 0 < i < rs.len() ==> rs[i - 1].end <= #[trigger] rs[i].start
}

/// The ranges `rs`, taken from `cursor` on, meet every check of production.
pub open spec fn valid_from(rs: Seq<Range<usize>>, cursor: usize, end: usize) -> bool
    decreases rs.len(),
{
    rs.len() > 0 ==> {
        &&& cursor <= rs[0].start
        &&& rs[0].end <= end
        &&& rs[0].start <= rs[0].end
        &&& valid_from(rs.drop_first(), rs[0].end, end)
    }
}

/// The ranges of `items`, laid end to end, run from `lo` to `hi` with no gap
/// and no overlap.
pub open spec fn tiles(items: Seq<Item>, lo: usize, hi: usize) -> bool
    decreases items.len(),
{
    if items.len() == 0 {
        lo == hi
    } else {
        &&& items[0].1.start == lo
        &&& items[0].1.start <= items[0].1.end
        &&& tiles(items.drop_first(), items[0].1.end, hi)
    }
}

/// The ranges of the `Included` items of `items`, in order.
pub open spec fn included_ranges(items: Seq<Item>) -> Seq<Range<usize>>
    decreases items.len(),
{
    if items.len() == 0 {
        seq![]
    } else {
        let tail = included_ranges(items.drop_first());
        if items[0].0 == EveryRangeKind::Included {
            seq![items[0].1] + tail
        } else {
            tail
        }
    }
}

/// No two neighbouring items of `items` are both `Excluded`.
pub open spec fn alternates(items: Seq<Item>) -> bool {
    forall|i: int|
        0 <= i < items.len() - 1 ==> !(#[trigger] items[i].0 == EveryRangeKind::Excluded
            && items[i + 1].0 == EveryRangeKind::Excluded)
}

impl GapState {
    /// A fresh producer over the source `rs` and the domain `[0, end)`.
    pub open spec fn start(rs: Seq<Range<usize>>, end: usize) -> GapState {
        GapState { cursor: 0, end, pending: None, rest: rs }
    }

    /// What holds of every state that production reaches.
    pub open spec fn inv(self) -> bool {
        &&& self.cursor <= self.end
        &&& self.pending matches Some(r) ==> {
            &&& self.cursor == r.start
            &&& r.start <= r.end
            &&& r.end <= self.end
        }
    }

    /// The rule, if any, that the range about to be pulled from the source
    /// breaks. Nothing is pulled while a range is pending.
    pub open spec fn pull_error(self) -> Option<RangeError> {
        if self.pending is None && self.rest.len() > 0 {
            let r = self.rest[0];
            if r.start < self.cursor {
                Some(RangeError::StartsBeforeCursor)
            } else if r.end > self.end {
                Some(RangeError::ExceedsEnd)
            } else if r.start > r.end {
                Some(RangeError::StartAfterEnd)
            } else {
                None
            }
        } else {
            None
        }
    }

    /// One production step: the state after it, and the item emitted, or
    /// `None` when production is complete.
    pub open spec fn step(self) -> (GapState, Option<Item>) {
        match self.pending {
            Some(r) => (
                GapState { cursor: r.end, pending: None, ..self },
                Some((EveryRangeKind::Included, r)),
            ),
            None => if self.rest.len() > 0 {
                let r = self.rest[0];
                let rest = self.rest.drop_first();
                if self.cursor < r.start {
                    (
                        GapState { cursor: r.start, pending: Some(r), rest, ..self },
                        Some((EveryRangeKind::Excluded, span(self.cursor, r.start))),
                    )
                } else {
                    (
                        GapState { cursor: r.end, rest, ..self },
                        Some((EveryRangeKind::Included, r)),
                    )
                }
            } else if self.cursor < self.end {
                (
                    GapState { cursor: self.end, ..self },
                    Some((EveryRangeKind::Excluded, span(self.cursor, self.end))),
                )
            } else {
                (self, None)
            },
        }
    }

    /// Every item that production emits from this state on, in order.
    pub open spec fn output(self) -> Seq<Item> {
        match self.pending {
            Some(r) => seq![(EveryRangeKind::Included, r)] + fill(self.rest, r.end, self.end),
            None => fill(self.rest, self.cursor, self.end),
        }
    }

    /// No step from this state on breaks a rule of production.
    pub open spec fn valid(self) -> bool {
        match self.pending {
            Some(r) => valid_from(self.rest, r.end, self.end),
            None => valid_from(self.rest, self.cursor, self.end),
        }
    }
}

/// Everything emitted for the source `rs` over the domain `[0, end)`.
pub open spec fn gap_fill(rs: Seq<Range<usize>>, end: usize) -> Seq<Item> {
    GapState::start(rs, end).output()
}

/// Each production step emits the first item still to come and leaves the
/// rest; a step that emits nothing leaves the state as it was.
pub proof fn lemma_step_output(s: GapState)
    ensures
        s.output().len() == 0 ==> s.step().1 is None && s.step().0 == s,
        s.output().len() > 0 ==> s.step().1 == Some(s.output()[0]) && s.step().0.output()
            == s.output().drop_first(),
{
    let out = s.output();
    match s.pending {
        Some(r) => {
            assert(s.step().0.output() =~= out.drop_first());
        },
        None => {
            if s.rest.len() > 0 {
                let r = s.rest[0];
                if s.cursor < r.start {
                    assert(s.step().0.output() =~= out.drop_first());
                } else {
                    assert(s.step().0.output() =~= out.drop_first());
                }
            } else if s.cursor < s.end {
                assert(s.step().0.output() =~= out.drop_first());
            }
        },
    }
}

/// A step that breaks no rule keeps the state's invariant, and from a state
/// where no step breaks a rule, none does after the step either.
pub proof fn lemma_step_keeps(s: GapState)
    requires
        s.inv(),
    ensures
        s.valid() ==> s.pull_error() is None,
        s.pull_error() is None ==> s.step().0.inv(),
        s.valid() ==> s.step().0.valid(),
{
}

} // verus!
