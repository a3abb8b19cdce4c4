//! Reading a finished summary, as a function and as an operator.
//!
//! Each metric comes twice, as the engine offers it twice: `counter_agg_*`
//! is the function, `arrow_counter_agg_*` the operator that applies an
//! accessor to a summary. Both give the same.

use vstd::prelude::*;
use crate::double::Double;
use crate::error::CounterError;
use crate::method::method_kind;
use crate::method::spec_as_method;
use crate::range::I64Range;
use crate::summary::CounterSummary;
use crate::summary::SummaryView;

verus! {

/// The delta over the bounds by the method of the given name; an unknown
/// name is invalid input.
pub open spec fn extrapolated_delta_by_name(summary: SummaryView, method: Seq<char>) -> Result<
    Option<Double>,
    CounterError,
> {
    match spec_as_method(method) {
        Some(m) => summary.extrapolated_delta(m),
        None => Err(CounterError::InvalidInput),
    }
}

/// The rate over the bounds by the method of the given name; an unknown
/// name is invalid input.
pub open spec fn extrapolated_rate_by_name(summary: SummaryView, method: Seq<char>) -> Result<
    Option<Double>,
    CounterError,
> {
    match spec_as_method(method) {
        Some(m) => summary.extrapolated_rate(m),
        None => Err(CounterError::InvalidInput),
    }
}

/// A count as the engine's signed integer: itself where it fits.
pub open spec fn spec_signed(count: u64) -> i64 {
    count as i64
}

/// A count as the engine's signed integer.
#[verifier::when_used_as_spec(spec_signed)]
pub fn signed(count: u64) -> (r: i64)
    ensures
        r == spec_signed(count),
        count <= i64::MAX ==> r == count,
{
    #[verifier::truncate]
    (count as i64)
}

pub fn counter_agg_delta(summary: &CounterSummary) -> (r: Double)
    ensures
        r == summary@.delta(),
{
    summary.delta()
}

pub fn arrow_counter_agg_delta(sketch: &CounterSummary) -> (r: Double)
    ensures
        r == sketch@.delta(),
{
    counter_agg_delta(sketch)
}

pub fn counter_agg_rate(summary: &CounterSummary) -> (r: Option<Double>)
    ensures
        r == summary@.rate(),
{
    summary.rate()
}

pub fn arrow_counter_agg_rate(sketch: &CounterSummary) -> (r: Option<Double>)
    ensures
        r == sketch@.rate(),
{
    counter_agg_rate(sketch)
}

pub fn counter_agg_time_delta(summary: &CounterSummary) -> (r: Double)
    ensures
        r == summary@.time_delta(),
{
    summary.time_delta()
}

pub fn arrow_counter_agg_time_delta(sketch: &CounterSummary) -> (r: Double)
    ensures
        r == sketch@.time_delta(),
{
    counter_agg_time_delta(sketch)
}

pub fn counter_agg_irate_left(summary: &CounterSummary) -> (r: Option<Double>)
    ensures
        r == summary@.irate_left(),
{
    summary.irate_left()
}

pub fn arrow_counter_agg_irate_left(sketch: &CounterSummary) -> (r: Option<Double>)
    ensures
        r == sketch@.irate_left(),
{
    counter_agg_irate_left(sketch)
}

pub fn counter_agg_irate_right(summary: &CounterSummary) -> (r: Option<Double>)
    ensures
        r == summary@.irate_right(),
{
    summary.irate_right()
}

pub fn arrow_counter_agg_irate_right(sketch: &CounterSummary) -> (r: Option<Double>)
    ensures
        r == sketch@.irate_right(),
{
    counter_agg_irate_right(sketch)
}

pub fn counter_agg_idelta_left(summary: &CounterSummary) -> (r: Option<Double>)
    ensures
        r == summary@.idelta_left(),
{
    summary.idelta_left()
}

pub fn arrow_counter_agg_idelta_left(sketch: &CounterSummary) -> (r: Option<Double>)
    ensures
        r == sketch@.idelta_left(),
{
    counter_agg_idelta_left(sketch)
}

pub fn counter_agg_idelta_right(summary: &CounterSummary) -> (r: Option<Double>)
    ensures
        r == summary@.idelta_right(),
{
    summary.idelta_right()
}

pub fn arrow_counter_agg_idelta_right(sketch: &CounterSummary) -> (r: Option<Double>)
    ensures
        r == sketch@.idelta_right(),
{
    counter_agg_idelta_right(sketch)
}

/// The same summary under other bounds.
pub fn counter_agg_with_bounds(summary: &CounterSummary, bounds: Option<I64Range>) -> (r:
    CounterSummary)
    ensures
        r@ == summary@.with_bounds(bounds),
        r.bounds == bounds,
{
    summary.with_bounds(bounds)
}

/// The same summary under other bounds.
pub fn arrow_counter_agg_with_bounds(sketch: &CounterSummary, bounds: Option<I64Range>) -> (r:
    CounterSummary)
    ensures
        r@ == sketch@.with_bounds(bounds),
        r.bounds == bounds,
{
    counter_agg_with_bounds(sketch, bounds)
}

/// The delta over the bounds, by the method of the given name.
pub fn counter_agg_extrapolated_delta(summary: &CounterSummary, method: &str) -> (r: Result<
    Option<Double>,
    CounterError,
>)
    ensures
        r == extrapolated_delta_by_name(summary@, method@),
{
    match method_kind(method) {
        Ok(m) => summary.extrapolated_delta(m),
        Err(e) => Err(e),
    }
}

/// The delta over the bounds, by the method of the given name.
pub fn arrow_counter_agg_extrapolated_delta(sketch: &CounterSummary, method: &str) -> (r: Result<
    Option<Double>,
    CounterError,
>)
    ensures
        r == extrapolated_delta_by_name(sketch@, method@),
{
    counter_agg_extrapolated_delta(sketch, method)
}

/// The rate over the bounds, by the method of the given name.
pub fn counter_agg_extrapolated_rate(summary: &CounterSummary, method: &str) -> (r: Result<
    Option<Double>,
    CounterError,
>)
    ensures
        r == extrapolated_rate_by_name(summary@, method@),
{
    match method_kind(method) {
        Ok(m) => summary.extrapolated_rate(m),
        Err(e) => Err(e),
    }
}

/// The rate over the bounds, by the method of the given name.
pub fn arrow_counter_agg_extrapolated_rate(sketch: &CounterSummary, method: &str) -> (r: Result<
    Option<Double>,
    CounterError,
>)
    ensures
        r == extrapolated_rate_by_name(sketch@, method@),
{
    counter_agg_extrapolated_rate(sketch, method)
}

/// How many points the summary has absorbed.
pub fn counter_agg_num_elements(summary: &CounterSummary) -> (r: i64)
    ensures
        r == spec_signed(summary.num_points),
        summary.num_points <= i64::MAX ==> r == summary.num_points,
{
    signed(summary.num_points)
}

/// How many points the summary has absorbed.
pub fn arrow_counter_agg_num_elements(sketch: &CounterSummary) -> (r: i64)
    ensures
        r == spec_signed(sketch.num_points),
        sketch.num_points <= i64::MAX ==> r == sketch.num_points,
{
    counter_agg_num_elements(sketch)
}

/// How often the value changed from one point to the next.
pub fn counter_agg_num_changes(summary: &CounterSummary) -> (r: i64)
    ensures
        r == spec_signed(summary.num_changes),
        summary.num_changes <= i64::MAX ==> r == summary.num_changes,
{
    signed(summary.num_changes)
}

/// How often the value changed from one point to the next.
pub fn arrow_counter_agg_num_changes(sketch: &CounterSummary) -> (r: i64)
    ensures
        r == spec_signed(sketch.num_changes),
        sketch.num_changes <= i64::MAX ==> r == sketch.num_changes,
{
    counter_agg_num_changes(sketch)
}

/// How often the counter was reset.
pub fn counter_agg_num_resets(summary: &CounterSummary) -> (r: i64)
    ensures
        r == spec_signed(summary.num_resets),
        summary.num_resets <= i64::MAX ==> r == summary.num_resets,
{
    signed(summary.num_resets)
}

/// How often the counter was reset.
pub fn arrow_counter_agg_num_resets(sketch: &CounterSummary) -> (r: i64)
    ensures
        r == spec_signed(sketch.num_resets),
        sketch.num_resets <= i64::MAX ==> r == sketch.num_resets,
{
    counter_agg_num_resets(sketch)
}

} // verus!
