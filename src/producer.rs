//! The producer that walks a source of ranges and emits them together with
//! the gaps between them, one item per call.
use std::ops::Range;
use vstd::prelude::*;
use crate::model::{EveryRangeKind, GapState, Item, RangeError, lemma_step_keeps, lemma_step_output};

verus! {

/// Emits the ranges of a source, tagged `Included`, and fills each gap before,
/// between and after them with one range tagged `Excluded`.
///
/// The ranges must come sorted, disjoint and within `[0, end)`: `next` asks
/// that the range it pulls keeps those rules, and `try_next` reports the rule
/// that it breaks instead.
pub struct EveryRangeIter {
    index: usize,
    end: usize,
    source: Vec<Range<usize>>,
    pos: usize,
    next: Option<Range<usize>>,
}

impl View for EveryRangeIter {
    type V = GapState;

    closed spec fn view(&self) -> GapState {
        GapState {
            cursor: self.index,
            end: self.end,
            pending: self.next,
            rest: self.source@.subrange(self.pos as int, self.source@.len() as int),
        }
    }
}

impl EveryRangeIter {
    #[verifier::type_invariant]
    spec fn well_formed(&self) -> bool {
        &&& self.pos <= self.source@.len()
        &&& self@.inv()
    }

    /// A producer over the ranges `iter`, in order, and the domain `[0, end)`.
    pub fn new(iter: Vec<Range<usize>>, end: usize) -> (r: Self)
        ensures
            r@ == GapState::start(iter@, end),
    {
        let r = EveryRangeIter { index: 0, end, source: iter, pos: 0, next: None };
        assert(r@.rest =~= iter@);
        r
    }

    /// Checks the range that the next step would pull, if any.
    fn check_pull(&self) -> (r: Option<RangeError>)
        ensures
            r == self@.pull_error(),
    {
        proof {
            use_type_invariant(self);
        }
        if self.next.is_none() && self.pos < self.source.len() {
            let r = &self.source[self.pos];
            if r.start < self.index {
                Some(RangeError::StartsBeforeCursor)
            } else if r.end > self.end {
                Some(RangeError::ExceedsEnd)
            } else if r.start > r.end {
                Some(RangeError::StartAfterEnd)
            } else {
                None
            }
        } else {
            None
        }
    }

    /// Produces the next item: the pending range, else a gap before the next
    /// range of the source, else that range, else the gap up to the end; or
    /// `None` once all of `[0, end)` has been emitted, and from then on.
    pub fn next(&mut self) -> (r: Option<Item>)
        requires
            old(self)@.pull_error() is None,
        ensures
            (final(self)@, r) == old(self)@.step(),
    {
        proof {
            use_type_invariant(&*self);
            lemma_step_keeps(self@);
        }
        let ghost s = self@;
        if self.next.is_some() {
            let mut taken: Option<Range<usize>> = None;
            std::mem::swap(&mut taken, &mut self.next);
            let n = taken.unwrap();
            self.index = n.end;
            assert(self@.rest =~= s.step().0.rest);
            Some((EveryRangeKind::Included, n))
        } else if self.pos < self.source.len() {
            let start = self.source[self.pos].start;
            let stop = self.source[self.pos].end;
            self.pos = self.pos + 1;
            assert(self@.rest =~= s.rest.drop_first());
            if self.index < start {
                let gap_start = self.index;
                self.index = start;
                self.next = Some(start..stop);
                Some((EveryRangeKind::Excluded, gap_start..start))
            } else {
                self.index = stop;
                Some((EveryRangeKind::Included, start..stop))
            }
        } else if self.index < self.end {
            let gap_start = self.index;
            self.index = self.end;
            Some((EveryRangeKind::Excluded, gap_start..self.end))
        } else {
            None
        }
    }

    /// Produces the next item as `next` does, or, where the range that it
    /// would pull breaks a rule, returns that rule and leaves the producer as
    /// it was.
    pub fn try_next(&mut self) -> (r: Result<Option<Item>, RangeError>)
        ensures
            match r {
                Ok(item) => old(self)@.pull_error() is None && (final(self)@, item) == old(
                    self,
                )@.step(),
                Err(e) => old(self)@.pull_error() == Some(e) && final(self)@ == old(self)@,
            },
    {
        match self.check_pull() {
            Some(e) => Err(e),
            None => Ok(self.next()),
        }
    }
}

impl EveryRangeIter {
    /// Produces every item still to come, in order, into a `Vec`; the
    /// producer is exhausted afterwards.
    pub fn collect_rest(&mut self) -> (r: Vec<Item>)
        requires
            old(self)@.valid(),
        ensures
            r@ == old(self)@.output(),
            final(self)@.output().len() == 0,
            final(self)@.step().1 is None,
    {
        let mut items: Vec<Item> = Vec::new();
        loop
            invariant
                self@.valid(),
                items@ + self@.output() == old(self)@.output(),
            decreases self@.output().len(),
        {
            proof {
                use_type_invariant(&*self);
                lemma_step_keeps(self@);
                lemma_step_output(self@);
            }
            let ghost before = self@;
            match self.next() {
                Some(item) => {
                    items.push(item);
                    assert(items@ + self@.output() =~= old(self)@.output()) by {
                        assert(before.output() =~= seq![item] + before.output().drop_first());
                    }
                },
                None => {
                    assert(items@ =~= old(self)@.output());
                    return items;
                },
            }
        }
    }
}

/// Turns a source of ranges into an `EveryRangeIter` over `[0, end)`.
pub trait EveryRange: Sized + View<V = Seq<Range<usize>>> {
    /// The producer over these ranges, in order, and the domain `[0, end)`.
    fn every_range(self, end: usize) -> (r: EveryRangeIter)
        ensures
            r@ == GapState::start(self@, end),
    ;
}

impl EveryRange for Vec<Range<usize>> {
    fn every_range(self, end: usize) -> (r: EveryRangeIter) {
        EveryRangeIter::new(self, end)
    }
}

} // verus!
