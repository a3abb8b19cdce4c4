//! The mergeable summary of a stretch of a counter's samples.

use vstd::prelude::*;
use crate::double::Double;
use crate::error::CounterError;
use crate::point::TSPoint;
use crate::range::I64Range;

verus! {

/// The mathematical content of a [`CounterSummary`]: its counts are natural
/// numbers, so that absorbing and merging are total.
pub struct SummaryView {
    /// The earliest point.
    pub first: TSPoint,
    /// The second earliest point; the first where there is only one.
    pub second: TSPoint,
    /// The second latest point; the last where there is only one.
    pub penultimate: TSPoint,
    /// The latest point.
    pub last: TSPoint,
    /// The sum of the values that the counter had reached at each reset.
    pub reset_sum: Double,
    /// How often a value was less than the one before it.
    pub num_resets: nat,
    /// How often a value differed from the one before it.
    pub num_changes: nat,
    /// How many points were absorbed.
    pub num_points: nat,
    /// The window that extrapolation projects to, if any.
    pub bounds: Option<I64Range>,
}

impl SummaryView {
    /// The summary of the single point `p`.
    pub open spec fn seed(p: TSPoint, bounds: Option<I64Range>) -> SummaryView {
        SummaryView {
            first: p,
            second: p,
            penultimate: p,
            last: p,
            reset_sum: Double::spec_zero(),
            num_resets: 0,
            num_changes: 0,
            num_points: 1,
            bounds,
        }
    }

    /// What holds of every summary that was seeded, fed and merged through
    /// this module.
    pub open spec fn wf(self) -> bool {
        &&& self.num_points >= 1
        &&& self.first.ts <= self.second.ts <= self.last.ts
        &&& self.first.ts <= self.penultimate.ts <= self.last.ts
        &&& self.num_points == 1 ==> self.second == self.first && self.penultimate == self.first
            && self.last == self.first
        &&& self.num_resets <= self.num_changes
        &&& self.num_changes < self.num_points
    }

    /// A point can be absorbed when it comes strictly after the last one.
    pub open spec fn accepts(self, p: TSPoint) -> bool {
        self.last.ts < p.ts
    }

    /// Whether the step from the value `before` to the value `after` is a
    /// counter reset.
    pub open spec fn is_reset(before: Double, after: Double) -> bool {
        after.spec_lt(before)
    }

    /// Whether the step from the value `before` to the value `after` is a
    /// change.
    pub open spec fn is_change(before: Double, after: Double) -> bool {
        after.spec_num_ne(before)
    }

    /// The summary after the point `p` has been absorbed.
    pub open spec fn absorb(self, p: TSPoint) -> SummaryView {
        let reset = Self::is_reset(self.last.val, p.val);
        let change = Self::is_change(self.last.val, p.val);
        SummaryView {
            first: self.first,
            second: if self.num_points == 1 { p } else { self.second },
            penultimate: self.last,
            last: p,
            reset_sum: if reset { self.reset_sum.spec_plus(self.last.val) } else { self.reset_sum },
            num_resets: if reset { self.num_resets + 1 } else { self.num_resets },
            num_changes: if change { self.num_changes + 1 } else { self.num_changes },
            num_points: self.num_points + 1,
            bounds: self.bounds,
        }
    }

    /// Two summaries can be merged when the second does not start before
    /// the first has ended.
    pub open spec fn precedes(self, other: SummaryView) -> bool {
        self.last.ts <= other.first.ts
    }

    /// The summary of the points of `self` followed by those of `other`.
    /// The step over the seam is counted like any other step. Bounds are
    /// those of `self` where it has any, else those of `other`.
    pub open spec fn merge(self, other: SummaryView) -> SummaryView {
        let reset = Self::is_reset(self.last.val, other.first.val);
        let change = Self::is_change(self.last.val, other.first.val);
        let banked = if reset { self.reset_sum.spec_plus(self.last.val) } else { self.reset_sum };
        SummaryView {
            first: self.first,
            second: if self.num_points == 1 { other.first } else { self.second },
            penultimate: if other.num_points == 1 { self.last } else { other.penultimate },
            last: other.last,
            reset_sum: banked.spec_plus(other.reset_sum),
            num_resets: self.num_resets + other.num_resets + if reset { 1nat } else { 0nat },
            num_changes: self.num_changes + other.num_changes + if change { 1nat } else { 0nat },
            num_points: self.num_points + other.num_points,
            bounds: if self.bounds is Some { self.bounds } else { other.bounds },
        }
    }

    /// The same summary under other bounds.
    pub open spec fn with_bounds(self, bounds: Option<I64Range>) -> SummaryView {
        SummaryView { bounds, ..self }
    }

    /// Bounds are valid when there are none, or when they contain the first
    /// and the last point, and so every point between them.
    pub open spec fn bounds_valid(self) -> bool {
        match self.bounds {
            None => true,
            Some(b) => b.spec_contains(self.first.ts) && b.spec_contains(self.last.ts),
        }
    }

    /// Whether two summaries are the same but for their reset sums.
    pub open spec fn same_but_reset_sum(self, other: SummaryView) -> bool {
        self == (SummaryView { reset_sum: self.reset_sum, ..other })
    }
}

/// The summary of a stretch of a counter's samples: its edge points, the
/// value banked at resets, and counts of resets, changes and points.
#[derive(Clone, Copy, Debug, PartialEq, Eq, Hash)]
pub struct CounterSummary {
    pub first: TSPoint,
    pub second: TSPoint,
    pub penultimate: TSPoint,
    pub last: TSPoint,
    pub reset_sum: Double,
    pub num_resets: u64,
    pub num_changes: u64,
    pub num_points: u64,
    pub bounds: Option<I64Range>,
}

impl View for CounterSummary {
    type V = SummaryView;

    open spec fn view(&self) -> SummaryView {
        SummaryView {
            first: self.first,
            second: self.second,
            penultimate: self.penultimate,
            last: self.last,
            reset_sum: self.reset_sum,
            num_resets: self.num_resets as nat,
            num_changes: self.num_changes as nat,
            num_points: self.num_points as nat,
            bounds: self.bounds,
        }
    }
}

impl CounterSummary {
    /// Well-formedness of a summary is that of its view.
    pub open spec fn wf(&self) -> bool {
        self@.wf()
    }

    /// The summary whose view is `v`, where the counts of `v` fit.
    pub open spec fn of_view(v: SummaryView) -> CounterSummary {
        CounterSummary {
            first: v.first,
            second: v.second,
            penultimate: v.penultimate,
            last: v.last,
            reset_sum: v.reset_sum,
            num_resets: v.num_resets as u64,
            num_changes: v.num_changes as u64,
            num_points: v.num_points as u64,
            bounds: v.bounds,
        }
    }

    /// The summary of the single point `point`.
    pub fn new(point: &TSPoint, bounds: Option<I64Range>) -> (r: CounterSummary)
        ensures
            r@ == SummaryView::seed(*point, bounds),
            r.wf(),
    {
        CounterSummary {
            first: *point,
            second: *point,
            penultimate: *point,
            last: *point,
            reset_sum: Double::zero(),
            num_resets: 0,
            num_changes: 0,
            num_points: 1,
            bounds,
        }
    }

    /// Decides well-formedness, for a summary that was put together from
    /// stored fields.
    pub fn check_wf(&self) -> (r: bool)
        ensures
            r == self.wf(),
    {
        self.num_points >= 1 && self.first.ts <= self.second.ts && self.second.ts <= self.last.ts
            && self.first.ts <= self.penultimate.ts && self.penultimate.ts <= self.last.ts && (
        self.num_points != 1 || (self.second == self.first && self.penultimate == self.first
            && self.last == self.first)) && self.num_resets <= self.num_changes
            && self.num_changes < self.num_points
    }

    /// Absorbs a point that comes strictly after the last one. A value below
    /// the last one is a reset: the last value is banked in the reset sum.
    /// A point that does not come after the last one is refused, and the
    /// summary stays as it was.
    pub fn add_point(&mut self, point: &TSPoint) -> (r: Result<(), CounterError>)
        requires
            old(self).wf(),
            old(self).num_points < u64::MAX,
        ensures
            final(self).wf(),
            old(self)@.accepts(*point) ==> r is Ok && final(self)@ == old(self)@.absorb(*point),
            !old(self)@.accepts(*point) ==> r == Err::<(), CounterError>(CounterError::InvalidInput)
                && *final(self) == *old(self),
    {
        if point.ts <= self.last.ts {
            return Err(CounterError::InvalidInput);
        }
        if point.val.lt(self.last.val) {
            self.reset_sum = self.reset_sum.plus(self.last.val);
            self.num_resets = self.num_resets + 1;
        }
        if point.val.num_ne(self.last.val) {
            self.num_changes = self.num_changes + 1;
        }
        if self.num_points == 1 {
            self.second = *point;
        }
        self.penultimate = self.last;
        self.last = *point;
        self.num_points = self.num_points + 1;
        Ok(())
    }

    /// Merges a summary of later points into this one. The step over the
    /// seam is counted like a step between two points. A summary that starts
    /// before this one has ended is refused, and this one stays as it was.
    pub fn combine(&mut self, other: &CounterSummary) -> (r: Result<(), CounterError>)
        requires
            old(self).wf(),
            other.wf(),
            old(self).num_points + other.num_points <= u64::MAX,
        ensures
            final(self).wf(),
            old(self)@.precedes(other@) ==> r is Ok && final(self)@ == old(self)@.merge(other@),
            !old(self)@.precedes(other@) ==> r == Err::<(), CounterError>(
                CounterError::InconsistentState,
            ) && *final(self) == *old(self),
    {
        if self.last.ts > other.first.ts {
            return Err(CounterError::InconsistentState);
        }
        if other.first.val.lt(self.last.val) {
            self.reset_sum = self.reset_sum.plus(self.last.val);
            self.num_resets = self.num_resets + 1;
        }
        if other.first.val.num_ne(self.last.val) {
            self.num_changes = self.num_changes + 1;
        }
        if self.num_points == 1 {
            self.second = other.first;
        }
        if other.num_points == 1 {
            self.penultimate = self.last;
        } else {
            self.penultimate = other.penultimate;
        }
        self.last = other.last;
        self.reset_sum = self.reset_sum.plus(other.reset_sum);
        self.num_resets = self.num_resets + other.num_resets;
        self.num_changes = self.num_changes + other.num_changes;
        self.num_points = self.num_points + other.num_points;
        if self.bounds.is_none() {
            self.bounds = other.bounds;
        }
        Ok(())
    }

    /// The same summary under other bounds. The bounds are not held against
    /// the points here; that is done where a metric reads them.
    pub fn with_bounds(&self, bounds: Option<I64Range>) -> (r: CounterSummary)
        ensures
            r@ == self@.with_bounds(bounds),
            r.bounds == bounds,
    {
        CounterSummary {
            first: self.first,
            second: self.second,
            penultimate: self.penultimate,
            last: self.last,
            reset_sum: self.reset_sum,
            num_resets: self.num_resets,
            num_changes: self.num_changes,
            num_points: self.num_points,
            bounds,
        }
    }

    /// Whether the bounds, if any, contain the first and the last point.
    pub fn bounds_valid(&self) -> (r: bool)
        ensures
            r == self@.bounds_valid(),
    {
        match self.bounds {
            None => true,
            Some(b) => b.contains(self.first.ts) && b.contains(self.last.ts),
        }
    }
}

/// A summary is given back by the view of its view.
pub proof fn lemma_of_view_round_trip(s: CounterSummary)
    ensures
        CounterSummary::of_view(s@) == s,
{
}

} // verus!
