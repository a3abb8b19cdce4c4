//! What can be read off a finished summary: deltas, rates, and their
//! extrapolation to the bounds.
//!
//! A metric that is undefined for a summary is `None`. Only bounds that do
//! not contain the summary's points are an error.

use vstd::prelude::*;
use crate::double::Double;
use crate::double::ELEVEN_TENTHS_BITS;
use crate::double::MICROS_PER_SECOND_BITS;
use crate::double::TWO_BITS;
use crate::error::CounterError;
use crate::method::Method;
use crate::point::TSPoint;
use crate::range::I64Range;
use crate::summary::CounterSummary;
use crate::summary::SummaryView;

verus! {

/// A span of microseconds, in seconds.
pub open spec fn spec_seconds(micros: i128) -> Double {
    Double::spec_from_int(micros).spec_over(Double { bits: MICROS_PER_SECOND_BITS })
}

/// A span of microseconds, in seconds.
#[verifier::when_used_as_spec(spec_seconds)]
pub fn seconds(micros: i128) -> (r: Double)
    ensures
        r == spec_seconds(micros),
{
    Double::from_int(micros).over(Double { bits: MICROS_PER_SECOND_BITS })
}

/// The increase of the counter from the point `before` to the point `after`.
/// Where the value went down the counter was reset, and had risen from zero
/// to the later value.
pub open spec fn spec_step_delta(before: TSPoint, after: TSPoint) -> Double {
    if after.val.spec_ge(before.val) {
        after.val.spec_minus(before.val)
    } else {
        after.val
    }
}

/// The increase per second from the point `before` to the point `after`.
pub open spec fn spec_step_rate(before: TSPoint, after: TSPoint) -> Double {
    spec_step_delta(before, after).spec_over(spec_seconds((after.ts - before.ts) as i128))
}

#[verifier::when_used_as_spec(spec_step_delta)]
fn step_delta(before: TSPoint, after: TSPoint) -> (r: Double)
    ensures
        r == spec_step_delta(before, after),
{
    if after.val.ge(before.val) {
        after.val.minus(before.val)
    } else {
        after.val
    }
}

#[verifier::when_used_as_spec(spec_step_rate)]
fn step_rate(before: TSPoint, after: TSPoint) -> (r: Double)
    ensures
        r == spec_step_rate(before, after),
{
    let span: i128 = after.ts as i128 - before.ts as i128;
    step_delta(before, after).over(seconds(span))
}

impl SummaryView {
    /// The increase of the counter over the summary: resets are made up for
    /// by the values that were banked at them.
    pub open spec fn delta(self) -> Double {
        self.last.val.spec_minus(self.first.val).spec_plus(self.reset_sum)
    }

    /// The time from the first point to the last, in seconds.
    pub open spec fn time_delta(self) -> Double {
        spec_seconds((self.last.ts - self.first.ts) as i128)
    }

    /// The increase per second; there is none for fewer than two points.
    pub open spec fn rate(self) -> Option<Double> {
        if self.num_points < 2 {
            None
        } else {
            Some(self.delta().spec_over(self.time_delta()))
        }
    }

    /// The increase from the first point to the second; there is none for
    /// fewer than two points.
    pub open spec fn idelta_left(self) -> Option<Double> {
        if self.num_points < 2 {
            None
        } else {
            Some(spec_step_delta(self.first, self.second))
        }
    }

    /// The increase from the last point but one to the last; there is none
    /// for fewer than two points.
    pub open spec fn idelta_right(self) -> Option<Double> {
        if self.num_points < 2 {
            None
        } else {
            Some(spec_step_delta(self.penultimate, self.last))
        }
    }

    /// The increase per second from the first point to the second; there is
    /// none for fewer than two points.
    pub open spec fn irate_left(self) -> Option<Double> {
        if self.num_points < 2 {
            None
        } else {
            Some(spec_step_rate(self.first, self.second))
        }
    }

    /// The increase per second from the last point but one to the last;
    /// there is none for fewer than two points.
    pub open spec fn irate_right(self) -> Option<Double> {
        if self.num_points < 2 {
            None
        } else {
            Some(spec_step_rate(self.penultimate, self.last))
        }
    }

    /// The delta projected onto the window `b`, as Prometheus does it.
    ///
    /// The sampled interval is stretched towards each end of the window: by
    /// the whole distance where the end is nearer than 1.1 times the average
    /// spacing of the samples, else by half that spacing. Towards the start
    /// it is stretched no further than to where the counter would have been
    /// at zero. The window ends one millisecond before its right end. The
    /// delta grows in proportion to the stretched interval.
    pub open spec fn extrapolate(self, b: I64Range) -> Double {
        let delta = self.delta();
        let zero = Double::spec_zero();
        let sampled = self.time_delta();
        let to_window_start = spec_seconds((self.first.ts - b.left) as i128);
        let to_end = spec_seconds((b.right - self.last.ts - 1000) as i128);
        let spacing = sampled.spec_over(Double::spec_from_int((self.num_points - 1) as i128));
        let to_zero = sampled.spec_times(self.first.val.spec_over(delta));
        let to_start = if delta.spec_gt(zero) && self.first.val.spec_ge(zero) && to_zero.spec_lt(
            to_window_start,
        ) {
            to_zero
        } else {
            to_window_start
        };
        let threshold = spacing.spec_times(Double { bits: ELEVEN_TENTHS_BITS });
        let half_spacing = spacing.spec_over(Double { bits: TWO_BITS });
        let with_start = if to_start.spec_lt(threshold) {
            sampled.spec_plus(to_start)
        } else {
            sampled.spec_plus(half_spacing)
        };
        let with_both = if to_end.spec_lt(threshold) {
            with_start.spec_plus(to_end)
        } else {
            with_start.spec_plus(half_spacing)
        };
        delta.spec_times(with_both.spec_over(sampled))
    }

    /// The delta over the bounds. There is none without bounds or for fewer
    /// than two points; bounds that do not contain the points are an error.
    pub open spec fn prometheus_delta(self) -> Result<Option<Double>, CounterError> {
        match self.bounds {
            None => Ok(None),
            Some(b) => if self.num_points < 2 {
                Ok(None)
            } else if !self.bounds_valid() {
                Err(CounterError::InconsistentState)
            } else {
                Ok(Some(self.extrapolate(b)))
            },
        }
    }

    /// The rate over the bounds: the extrapolated delta by the length of
    /// the window, which ends one millisecond before its right end. There is
    /// none where there is no delta or the window is no longer than that.
    pub open spec fn prometheus_rate(self) -> Result<Option<Double>, CounterError> {
        match self.prometheus_delta() {
            Err(e) => Err(e),
            Ok(None) => Ok(None),
            Ok(Some(delta)) => {
                let window = self.bounds->0.spec_duration() - 1000;
                if window <= 0 {
                    Ok(None)
                } else {
                    Ok(Some(delta.spec_over(spec_seconds(window as i128))))
                }
            },
        }
    }

    /// The delta over the bounds by the given method.
    pub open spec fn extrapolated_delta(self, method: Method) -> Result<
        Option<Double>,
        CounterError,
    > {
        match method {
            Method::Prometheus => self.prometheus_delta(),
        }
    }

    /// The rate over the bounds by the given method.
    pub open spec fn extrapolated_rate(self, method: Method) -> Result<
        Option<Double>,
        CounterError,
    > {
        match method {
            Method::Prometheus => self.prometheus_rate(),
        }
    }
}

impl CounterSummary {
    /// The increase of the counter over the summary.
    pub fn delta(&self) -> (r: Double)
        ensures
            r == self@.delta(),
    {
        self.last.val.minus(self.first.val).plus(self.reset_sum)
    }

    /// The time from the first point to the last, in seconds.
    pub fn time_delta(&self) -> (r: Double)
        ensures
            r == self@.time_delta(),
    {
        let span: i128 = self.last.ts as i128 - self.first.ts as i128;
        seconds(span)
    }

    /// The increase per second, where there are two points or more.
    pub fn rate(&self) -> (r: Option<Double>)
        ensures
            r == self@.rate(),
    {
        if self.num_points < 2 {
            None
        } else {
            Some(self.delta().over(self.time_delta()))
        }
    }

    /// The increase from the first point to the second, where there are two
    /// points or more.
    pub fn idelta_left(&self) -> (r: Option<Double>)
        ensures
            r == self@.idelta_left(),
    {
        if self.num_points < 2 {
            None
        } else {
            Some(step_delta(self.first, self.second))
        }
    }

    /// The increase from the last point but one to the last, where there are
    /// two points or more.
    pub fn idelta_right(&self) -> (r: Option<Double>)
        ensures
            r == self@.idelta_right(),
    {
        if self.num_points < 2 {
            None
        } else {
            Some(step_delta(self.penultimate, self.last))
        }
    }

    /// The increase per second from the first point to the second, where
    /// there are two points or more.
    pub fn irate_left(&self) -> (r: Option<Double>)
        ensures
            r == self@.irate_left(),
    {
        if self.num_points < 2 {
            None
        } else {
            Some(step_rate(self.first, self.second))
        }
    }

    /// The increase per second from the last point but one to the last,
    /// where there are two points or more.
    pub fn irate_right(&self) -> (r: Option<Double>)
        ensures
            r == self@.irate_right(),
    {
        if self.num_points < 2 {
            None
        } else {
            Some(step_rate(self.penultimate, self.last))
        }
    }

    /// The delta projected onto the window `b`.
    fn extrapolate(&self, b: I64Range) -> (r: Double)
        requires
            self.num_points >= 2,
        ensures
            r == self@.extrapolate(b),
    {
        let delta = self.delta();
        let zero = Double::zero();
        let sampled = self.time_delta();
        let lead: i128 = self.first.ts as i128 - b.left as i128;
        let to_window_start = seconds(lead);
        let trail: i128 = b.right as i128 - self.last.ts as i128 - 1000;
        let to_end = seconds(trail);
        let steps: i128 = self.num_points as i128 - 1;
        let spacing = sampled.over(Double::from_int(steps));
        let to_zero = sampled.times(self.first.val.over(delta));
        let to_start = if delta.gt(zero) && self.first.val.ge(zero) && to_zero.lt(to_window_start) {
            to_zero
        } else {
            to_window_start
        };
        let threshold = spacing.times(Double { bits: ELEVEN_TENTHS_BITS });
        let half_spacing = spacing.over(Double { bits: TWO_BITS });
        let with_start = if to_start.lt(threshold) {
            sampled.plus(to_start)
        } else {
            sampled.plus(half_spacing)
        };
        let with_both = if to_end.lt(threshold) {
            with_start.plus(to_end)
        } else {
            with_start.plus(half_spacing)
        };
        delta.times(with_both.over(sampled))
    }

    /// The delta over the bounds, as Prometheus extrapolates it.
    pub fn prometheus_delta(&self) -> (r: Result<Option<Double>, CounterError>)
        ensures
            r == self@.prometheus_delta(),
    {
        match self.bounds {
            None => Ok(None),
            Some(b) => {
                if self.num_points < 2 {
                    Ok(None)
                } else if !self.bounds_valid() {
                    Err(CounterError::InconsistentState)
                } else {
                    Ok(Some(self.extrapolate(b)))
                }
            },
        }
    }

    /// The rate over the bounds, as Prometheus extrapolates it.
    pub fn prometheus_rate(&self) -> (r: Result<Option<Double>, CounterError>)
        ensures
            r == self@.prometheus_rate(),
    {
        match self.prometheus_delta() {
            Err(e) => Err(e),
            Ok(None) => Ok(None),
            Ok(Some(delta)) => {
                let b = self.bounds.unwrap();
                let window: i128 = b.duration() - 1000;
                if window <= 0 {
                    Ok(None)
                } else {
                    Ok(Some(delta.over(seconds(window))))
                }
            },
        }
    }

    /// The delta over the bounds by the given method.
    pub fn extrapolated_delta(&self, method: Method) -> (r: Result<Option<Double>, CounterError>)
        ensures
            r == self@.extrapolated_delta(method),
    {
        match method {
            Method::Prometheus => self.prometheus_delta(),
        }
    }

    /// The rate over the bounds by the given method.
    pub fn extrapolated_rate(&self, method: Method) -> (r: Result<Option<Double>, CounterError>)
        ensures
            r == self@.extrapolated_rate(method),
    {
        match method {
            Method::Prometheus => self.prometheus_rate(),
        }
    }
}

} // verus!
