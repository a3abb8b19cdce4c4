//! The steps of an aggregation as an engine drives them: feed a row, feed a
//! partial summary, combine two states, and finish.
//!
//! A state that does not exist yet is `None`; the first row makes it.

use vstd::prelude::*;
use crate::double::Double;
use crate::error::CounterError;
use crate::point::TSPoint;
use crate::range::I64Range;
use crate::summary::CounterSummary;
use crate::trans_state::CounterSummaryTransState;
use crate::trans_state::TransStateView;

verus! {

/// Whether a state, if there is one, is well formed.
pub open spec fn state_wf(state: Option<CounterSummaryTransState>) -> bool {
    state matches Some(s) ==> s.wf()
}

/// What a state holds, if there is one.
pub open spec fn state_view(state: Option<CounterSummaryTransState>) -> Option<TransStateView> {
    match state {
        Some(s) => Some(s@),
        None => None,
    }
}

/// The state after a row: a row without a time or without a value changes
/// nothing; the first full row makes the state, under the bounds that came
/// with it; later rows add their point, and their bounds are ignored.
pub open spec fn after_row(
    state: Option<TransStateView>,
    ts: Option<i64>,
    val: Option<Double>,
    bounds: Option<I64Range>,
) -> Option<TransStateView> {
    match (ts, val) {
        (Some(ts), Some(val)) => Some(
            match state {
                None => TransStateView::empty(bounds).push_point(TSPoint { ts, val }),
                Some(s) => s.push_point(TSPoint { ts, val }),
            },
        ),
        _ => state,
    }
}

/// The state after a partial summary: no summary changes nothing; the first
/// one makes a state without bounds; later ones go behind those that wait.
pub open spec fn after_summary(
    state: Option<TransStateView>,
    value: Option<CounterSummary>,
) -> Option<TransStateView> {
    match value {
        None => state,
        Some(v) => Some(
            match state {
                None => TransStateView::empty(None).push_summaries(seq![v]),
                Some(s) => s.push_summaries(seq![v]),
            },
        ),
    }
}

/// The state that two states combine to: each has its points folded, then
/// the summaries of the first go behind those of the second.
pub open spec fn combined(state1: Option<TransStateView>, state2: Option<TransStateView>) -> Result<
    Option<TransStateView>,
    CounterError,
> {
    match (state1, state2) {
        (None, None) => Ok(None),
        (None, Some(s2)) => match s2.flush() {
            Ok(f2) => Ok(Some(f2)),
            Err(e) => Err(e),
        },
        (Some(s1), None) => match s1.flush() {
            Ok(f1) => Ok(Some(f1)),
            Err(e) => Err(e),
        },
        (Some(s1), Some(s2)) => match s1.flush() {
            Err(e) => Err(e),
            Ok(f1) => match s2.flush() {
                Err(e) => Err(e),
                Ok(f2) => Ok(Some(f2.push_summaries(f1.summaries))),
            },
        },
    }
}

/// The summary that a state finishes to: none where there is no state or
/// the state holds nothing; else its one summary after the collapse, whose
/// bounds must contain its points.
pub open spec fn finished(state: Option<TransStateView>) -> Result<
    Option<CounterSummary>,
    CounterError,
> {
    match state {
        None => Ok(None),
        Some(s) => match s.collapse() {
            Err(e) => Err(e),
            Ok(c) => if c.summaries.len() == 0 {
                Ok(None)
            } else if c.summaries.last()@.bounds_valid() {
                Ok(Some(c.summaries.last()))
            } else {
                Err(CounterError::InconsistentState)
            },
        },
    }
}

/// Feeds one row to the aggregation.
pub fn counter_agg_trans(
    state: Option<CounterSummaryTransState>,
    ts: Option<i64>,
    val: Option<Double>,
    bounds: Option<I64Range>,
) -> (r: Option<CounterSummaryTransState>)
    requires
        state_wf(state),
    ensures
        state_wf(r),
        state_view(r) == after_row(state_view(state), ts, val, bounds),
{
    let p = match (ts, val) {
        (_, None) => {
            return state;
        },
        (None, _) => {
            return state;
        },
        (Some(ts), Some(val)) => TSPoint { ts, val },
    };
    match state {
        None => {
            let mut s = CounterSummaryTransState::new(bounds);
            s.push_point(p);
            Some(s)
        },
        Some(mut s) => {
            s.push_point(p);
            Some(s)
        },
    }
}

/// Feeds one row to an aggregation without bounds.
pub fn counter_agg_trans_no_bounds(
    state: Option<CounterSummaryTransState>,
    ts: Option<i64>,
    val: Option<Double>,
) -> (r: Option<CounterSummaryTransState>)
    requires
        state_wf(state),
    ensures
        state_wf(r),
        state_view(r) == after_row(state_view(state), ts, val, None),
{
    counter_agg_trans(state, ts, val, None)
}

/// Feeds one partial summary to the aggregation.
pub fn counter_agg_summary_trans(
    state: Option<CounterSummaryTransState>,
    value: Option<CounterSummary>,
) -> (r: Option<CounterSummaryTransState>)
    requires
        state_wf(state),
        value matches Some(v) ==> v.wf(),
    ensures
        state_wf(r),
        state_view(r) == after_summary(state_view(state), value),
{
    match (state, value) {
        (state, None) => state,
        (None, Some(value)) => {
            let mut s = CounterSummaryTransState::new(None);
            s.push_partial(value);
            Some(s)
        },
        (Some(mut state), Some(value)) => {
            state.push_partial(value);
            Some(state)
        },
    }
}

/// Combines the states of two workers into one.
pub fn counter_agg_combine(
    state1: Option<CounterSummaryTransState>,
    state2: Option<CounterSummaryTransState>,
) -> (r: Result<Option<CounterSummaryTransState>, CounterError>)
    requires
        state_wf(state1),
        state_wf(state2),
    ensures
        match combined(state_view(state1), state_view(state2)) {
            Ok(v) => r matches Ok(s) && state_wf(s) && state_view(s) == v,
            Err(e) => r matches Err(x) && x == e,
        },
{
    match (state1, state2) {
        (None, None) => Ok(None),
        (None, Some(mut s)) => {
            match s.combine_points() {
                Ok(()) => Ok(Some(s)),
                Err(e) => Err(e),
            }
        },
        (Some(mut s), None) => {
            match s.combine_points() {
                Ok(()) => Ok(Some(s)),
                Err(e) => Err(e),
            }
        },
        (Some(mut s1), Some(mut s2)) => {
            match s1.combine_points() {
                Ok(()) => {},
                Err(e) => {
                    return Err(e);
                },
            }
            match s2.combine_points() {
                Ok(()) => {},
                Err(e) => {
                    return Err(e);
                },
            }
            s2.push_summary(&s1);
            Ok(Some(s2))
        },
    }
}

/// Finishes the aggregation: everything that waits in the state becomes
/// one summary, if the state holds anything.
pub fn counter_agg_final(state: Option<CounterSummaryTransState>) -> (r: Result<
    Option<CounterSummary>,
    CounterError,
>)
    requires
        state_wf(state),
    ensures
        r == finished(state_view(state)),
        r matches Ok(Some(s)) ==> s.wf(),
{
    let mut state = match state {
        None => {
            return Ok(None);
        },
        Some(state) => state,
    };
    match state.combine_summaries() {
        Ok(()) => {},
        Err(e) => {
            return Err(e);
        },
    }
    let summaries = state.summaries();
    if summaries.len() == 0 {
        Ok(None)
    } else {
        let st = summaries[summaries.len() - 1];
        if !st.bounds_valid() {
            Err(CounterError::InconsistentState)
        } else {
            Ok(Some(st))
        }
    }
}

} // verus!
