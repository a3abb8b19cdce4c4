//! The working state of an aggregation: points and partial summaries that
//! arrive in any order, folded into one summary on demand.

use vstd::prelude::*;
use crate::error::CounterError;
use crate::fold::all_wf;
use crate::fold::fold_points;
use crate::fold::lemma_merge_all_shape;
use crate::fold::lemma_sorted_all_wf;
use crate::fold::merge_all;
use crate::fold::merge_sorted;
use crate::fold::summarize_sorted;
use crate::order::sort_by_time;
use crate::order::stable_sort;
use crate::point::TSPoint;
use crate::range::I64Range;
use crate::summary::lemma_of_view_round_trip;
use crate::summary::CounterSummary;

verus! {

/// What a [`CounterSummaryTransState`] holds.
pub struct TransStateView {
    /// The points that wait to be folded, in the order they came in.
    pub points: Seq<TSPoint>,
    /// The bounds that the next fold of points gives to its summary.
    pub bounds: Option<I64Range>,
    /// The partial summaries that wait to be merged, in the order they came in.
    pub summaries: Seq<CounterSummary>,
}

impl TransStateView {
    /// The state that holds nothing yet.
    pub open spec fn empty(bounds: Option<I64Range>) -> TransStateView {
        TransStateView { points: Seq::empty(), bounds, summaries: Seq::empty() }
    }

    /// The state with one more point waiting.
    pub open spec fn push_point(self, p: TSPoint) -> TransStateView {
        TransStateView { points: self.points.push(p), ..self }
    }

    /// The state with more summaries waiting.
    pub open spec fn push_summaries(self, more: Seq<CounterSummary>) -> TransStateView {
        TransStateView { summaries: self.summaries + more, ..self }
    }

    /// The summary of the waiting points: they are sorted by time and
    /// folded under the state's bounds. Two points of one time are invalid
    /// input; bounds that do not contain the points are an inconsistency.
    pub open spec fn summarize(self) -> Result<CounterSummary, CounterError> {
        match fold_points(stable_sort(self.points), self.bounds) {
            None => Err(CounterError::InvalidInput),
            Some(s) => if s.bounds_valid() {
                Ok(CounterSummary::of_view(s))
            } else {
                Err(CounterError::InconsistentState)
            },
        }
    }

    /// The state after the waiting points, if any, have become a summary
    /// behind those that wait already.
    pub open spec fn flush(self) -> Result<TransStateView, CounterError> {
        if self.points.len() == 0 {
            Ok(self)
        } else {
            match self.summarize() {
                Ok(s) => Ok(
                    TransStateView {
                        points: Seq::empty(),
                        bounds: self.bounds,
                        summaries: self.summaries.push(s),
                    },
                ),
                Err(e) => Err(e),
            }
        }
    }

    /// The one summary of the waiting summaries: they are sorted by the time
    /// of their first points and merged from left to right. Summaries that
    /// overlap in time, or that together hold more points than a summary can
    /// count, are an inconsistency.
    pub open spec fn merged(self) -> Result<CounterSummary, CounterError> {
        match merge_all(stable_sort(self.summaries)) {
            Some(m) => if m.num_points <= u64::MAX {
                Ok(CounterSummary::of_view(m))
            } else {
                Err(CounterError::InconsistentState)
            },
            None => Err(CounterError::InconsistentState),
        }
    }

    /// The state after everything that waits has become at most one summary.
    pub open spec fn collapse(self) -> Result<TransStateView, CounterError> {
        match self.flush() {
            Err(e) => Err(e),
            Ok(f) => if f.summaries.len() <= 1 {
                Ok(f)
            } else {
                match f.merged() {
                    Ok(m) => Ok(TransStateView { summaries: seq![m], ..f }),
                    Err(e) => Err(e),
                }
            },
        }
    }

    /// Where a failed collapse leaves the state: as it was where the points
    /// could not be folded, else with the points folded.
    pub open spec fn collapse_failure(self) -> TransStateView {
        match self.flush() {
            Err(_) => self,
            Ok(f) => f,
        }
    }
}

/// The working state of an aggregation.
#[derive(Clone, Debug)]
pub struct CounterSummaryTransState {
    point_buffer: Vec<TSPoint>,
    // holds the bounds until the points are folded; from then on each summary has them
    bounds: Option<I64Range>,
    // partial summaries are collected here, so that they can be sorted before they are merged
    summary_buffer: Vec<CounterSummary>,
}

impl View for CounterSummaryTransState {
    type V = TransStateView;

    closed spec fn view(&self) -> TransStateView {
        TransStateView {
            points: self.point_buffer@,
            bounds: self.bounds,
            summaries: self.summary_buffer@,
        }
    }
}

impl CounterSummaryTransState {
    /// A state is well formed when each summary that waits in it is.
    pub open spec fn wf(&self) -> bool {
        all_wf(self@.summaries)
    }

    /// The state that holds nothing yet.
    pub fn new(bounds: Option<I64Range>) -> (r: CounterSummaryTransState)
        ensures
            r@ == TransStateView::empty(bounds),
            r.wf(),
    {
        CounterSummaryTransState { point_buffer: Vec::new(), bounds, summary_buffer: Vec::new() }
    }

    /// Decides well-formedness, for a state that others have had their
    /// hands on.
    pub fn check_wf(&self) -> (r: bool)
        ensures
            r == self.wf(),
    {
        let mut i: usize = 0;
        while i < self.summary_buffer.len()
            invariant
                i <= self.summary_buffer.len(),
                forall|k: int| 0 <= k < i ==> (#[trigger] self.summary_buffer@[k]).wf(),
            decreases self.summary_buffer.len() - i,
        {
            if !self.summary_buffer[i].check_wf() {
                return false;
            }
            i = i + 1;
        }
        true
    }

    /// The bounds that the state was made with.
    pub fn bounds(&self) -> (r: Option<I64Range>)
        ensures
            r == self@.bounds,
    {
        self.bounds
    }

    /// The points that wait to be folded.
    pub fn points(&self) -> (r: &Vec<TSPoint>)
        ensures
            r@ == self@.points,
    {
        &self.point_buffer
    }

    /// The summaries that wait to be merged.
    pub fn summaries(&self) -> (r: &Vec<CounterSummary>)
        ensures
            r@ == self@.summaries,
    {
        &self.summary_buffer
    }

    /// Puts a point in waiting. Nothing is checked yet.
    pub fn push_point(&mut self, value: TSPoint)
        requires
            old(self).wf(),
        ensures
            final(self).wf(),
            final(self)@ == old(self)@.push_point(value),
    {
        self.point_buffer.push(value);
    }

    /// Puts a partial summary in waiting.
    pub fn push_partial(&mut self, summary: CounterSummary)
        requires
            old(self).wf(),
            summary.wf(),
        ensures
            final(self).wf(),
            final(self)@ == old(self)@.push_summaries(seq![summary]),
    {
        self.summary_buffer.push(summary);
        assert(self.summary_buffer@ =~= old(self).summary_buffer@ + seq![summary]);
    }

    /// Folds the waiting points, if any, into one summary and puts it behind
    /// the waiting summaries. On failure the state stays as it was.
    pub fn combine_points(&mut self) -> (r: Result<(), CounterError>)
        requires
            old(self).wf(),
        ensures
            final(self).wf(),
            match old(self)@.flush() {
                Ok(v) => r is Ok && final(self)@ == v,
                Err(e) => r == Err::<(), CounterError>(e) && final(self)@ == old(self)@,
            },
    {
        if self.point_buffer.len() == 0 {
            return Ok(());
        }
        let sorted = sort_by_time(&self.point_buffer);
        let summary = match summarize_sorted(&sorted, self.bounds) {
            Some(s) => s,
            None => {
                return Err(CounterError::InvalidInput);
            },
        };
        // the bounds are checked once, after all the points have been folded
        if !summary.bounds_valid() {
            return Err(CounterError::InconsistentState);
        }
        proof {
            lemma_of_view_round_trip(summary);
        }
        self.point_buffer = Vec::new();
        self.summary_buffer.push(summary);
        Ok(())
    }

    /// Takes over the summaries that wait in `other`. Its waiting points
    /// are left behind.
    pub fn push_summary(&mut self, other: &CounterSummaryTransState)
        requires
            old(self).wf(),
            other.wf(),
        ensures
            final(self).wf(),
            final(self)@ == old(self)@.push_summaries(other@.summaries),
    {
        let mut i: usize = 0;
        assert(other.summary_buffer@.take(0) =~= Seq::<CounterSummary>::empty());
        assert(self.summary_buffer@ + Seq::<CounterSummary>::empty() =~= self.summary_buffer@);
        while i < other.summary_buffer.len()
            invariant
                i <= other.summary_buffer.len(),
                other.wf(),
                self.wf(),
                self.point_buffer == old(self).point_buffer,
                self.bounds == old(self).bounds,
                self.summary_buffer@ == old(self).summary_buffer@ + other.summary_buffer@.take(
                    i as int,
                ),
            decreases other.summary_buffer.len() - i,
        {
            let s = other.summary_buffer[i];
            assert(other@.summaries[i as int].wf());
            self.summary_buffer.push(s);
            assert(other.summary_buffer@.take(i + 1) =~= other.summary_buffer@.take(i as int).push(
                s,
            ));
            assert(self.summary_buffer@ =~= old(self).summary_buffer@
                + other.summary_buffer@.take(i + 1));
            i = i + 1;
        }
        assert(other.summary_buffer@.take(i as int) =~= other.summary_buffer@);
    }

    /// Folds the waiting points, then merges all waiting summaries into one.
    /// On failure the state keeps its summaries unmerged.
    pub fn combine_summaries(&mut self) -> (r: Result<(), CounterError>)
        requires
            old(self).wf(),
        ensures
            final(self).wf(),
            match old(self)@.collapse() {
                Ok(v) => r is Ok && final(self)@ == v,
                Err(e) => r == Err::<(), CounterError>(e) && final(self)@
                    == old(self)@.collapse_failure(),
            },
    {
        match self.combine_points() {
            Ok(()) => {},
            Err(e) => {
                return Err(e);
            },
        }
        if self.summary_buffer.len() <= 1 {
            return Ok(());
        }
        let sorted = sort_by_time(&self.summary_buffer);
        proof {
            lemma_sorted_all_wf(self.summary_buffer@);
            lemma_merge_all_shape(sorted@);
        }
        let merged = match merge_sorted(&sorted) {
            Some(m) => m,
            None => {
                return Err(CounterError::InconsistentState);
            },
        };
        proof {
            lemma_of_view_round_trip(merged);
        }
        let mut buffer: Vec<CounterSummary> = Vec::new();
        buffer.push(merged);
        assert(buffer@ =~= seq![merged]);
        self.summary_buffer = buffer;
        Ok(())
    }
}

} // verus!
