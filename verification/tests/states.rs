use counter_agg::accessors::arrow_counter_agg_delta;
use counter_agg::accessors::arrow_counter_agg_extrapolated_delta;
use counter_agg::accessors::arrow_counter_agg_extrapolated_rate;
use counter_agg::accessors::arrow_counter_agg_idelta_left;
use counter_agg::accessors::arrow_counter_agg_idelta_right;
use counter_agg::accessors::arrow_counter_agg_irate_left;
use counter_agg::accessors::arrow_counter_agg_irate_right;
use counter_agg::accessors::arrow_counter_agg_num_changes;
use counter_agg::accessors::arrow_counter_agg_num_elements;
use counter_agg::accessors::arrow_counter_agg_num_resets;
use counter_agg::accessors::arrow_counter_agg_rate;
use counter_agg::accessors::arrow_counter_agg_time_delta;
use counter_agg::accessors::arrow_counter_agg_with_bounds;
use counter_agg::accessors::counter_agg_delta;
use counter_agg::accessors::counter_agg_extrapolated_delta;
use counter_agg::accessors::counter_agg_extrapolated_rate;
use counter_agg::accessors::counter_agg_idelta_left;
use counter_agg::accessors::counter_agg_idelta_right;
use counter_agg::accessors::counter_agg_irate_left;
use counter_agg::accessors::counter_agg_irate_right;
use counter_agg::accessors::counter_agg_num_changes;
use counter_agg::accessors::counter_agg_num_elements;
use counter_agg::accessors::counter_agg_num_resets;
use counter_agg::accessors::counter_agg_rate;
use counter_agg::accessors::counter_agg_time_delta;
use counter_agg::accessors::counter_agg_with_bounds;
use counter_agg::accessors::signed;
use counter_agg::aggregate::counter_agg_combine;
use counter_agg::aggregate::counter_agg_final;
use counter_agg::aggregate::counter_agg_summary_trans;
use counter_agg::aggregate::counter_agg_trans;
use counter_agg::aggregate::counter_agg_trans_no_bounds;
use counter_agg::double::Double;
use counter_agg::error::CounterError;
use counter_agg::fold::merge_sorted;
use counter_agg::fold::summarize_sorted;
use counter_agg::order::sort_by_time;
use counter_agg::point::TSPoint;
use counter_agg::range::I64Range;
use counter_agg::summary::CounterSummary;
use counter_agg::trans_state::CounterSummaryTransState;

const SECOND: i64 = 1_000_000;
const MINUTE: i64 = 60 * SECOND;

fn d(x: f64) -> Double {
    Double::from_bits(x.to_bits())
}

fn f(x: Double) -> f64 {
    f64::from_bits(x.to_bits())
}

fn pt(ts: i64, val: f64) -> TSPoint {
    TSPoint::new(ts, d(val))
}

fn fold(points: &[(i64, f64)], bounds: Option<I64Range>) -> CounterSummary {
    let v: Vec<TSPoint> = points.iter().map(|p| pt(p.0, p.1)).collect();
    summarize_sorted(&v, bounds).unwrap()
}

fn feed(points: &[(i64, f64)], bounds: Option<I64Range>) -> Option<CounterSummaryTransState> {
    let mut state = None;
    for p in points {
        state = counter_agg_trans(state, Some(p.0), Some(d(p.1)), bounds);
    }
    state
}

fn nine_points() -> Vec<(i64, f64)> {
    vec![
        (0, 10.0),
        (MINUTE, 20.0),
        (2 * MINUTE, 10.0),
        (3 * MINUTE, 20.0),
        (4 * MINUTE, 10.0),
        (8 * MINUTE, 30.0),
        (10 * MINUTE, 30.0),
        (10 * MINUTE + 30 * SECOND, 10.0),
        (20 * MINUTE, 40.0),
    ]
}

#[test]
fn sorting_is_stable() {
    let v = vec![pt(5, 1.0), pt(1, 2.0), pt(5, 3.0), pt(0, 4.0), pt(1, 5.0), pt(5, 6.0)];
    let sorted = sort_by_time(&v);
    assert_eq!(
        sorted,
        vec![pt(0, 4.0), pt(1, 2.0), pt(1, 5.0), pt(5, 1.0), pt(5, 3.0), pt(5, 6.0)]
    );
    assert_eq!(sort_by_time(&sorted), sorted);
    assert_eq!(sort_by_time(&Vec::<TSPoint>::new()), vec![]);
    let sums = vec![fold(&[(7, 1.0), (9, 1.0)], None), fold(&[(3, 1.0)], None)];
    assert_eq!(sort_by_time(&sums), vec![sums[1], sums[0]]);
}

#[test]
fn summarize_sorted_needs_points_in_order() {
    assert_eq!(summarize_sorted(&vec![], None), None);
    assert_eq!(summarize_sorted(&vec![pt(0, 1.0), pt(0, 2.0)], None), None);
    assert_eq!(summarize_sorted(&vec![pt(1, 1.0), pt(0, 2.0)], None), None);
    let s = summarize_sorted(&vec![pt(0, 1.0), pt(1, 2.0)], None).unwrap();
    assert_eq!(s.num_points, 2);
    assert_eq!(s.last, pt(1, 2.0));
}

#[test]
fn merge_sorted_needs_summaries_in_order() {
    let a = fold(&[(0, 1.0), (5, 2.0)], None);
    let b = fold(&[(5, 1.0), (9, 2.0)], None);
    let c = fold(&[(4, 1.0)], None);
    assert_eq!(merge_sorted(&vec![]), None);
    assert_eq!(merge_sorted(&vec![a]), Some(a));
    let ab = merge_sorted(&vec![a, b]).unwrap();
    assert_eq!(ab.num_points, 4);
    assert_eq!(ab.num_resets, 1);
    assert_eq!(merge_sorted(&vec![a, c]), None);
    assert_eq!(merge_sorted(&vec![b, a]), None);
    let mut many = a;
    many.num_points = u64::MAX - 1;
    many.num_changes = 1;
    assert_eq!(merge_sorted(&vec![many, b]), None);
}

#[test]
fn points_in_any_order_fold_to_one_summary() {
    let mut state = CounterSummaryTransState::new(None);
    assert_eq!(state.bounds(), None);
    for p in [(3, 15.0), (0, 10.0), (2, 5.0), (1, 20.0)] {
        state.push_point(pt(p.0, p.1));
    }
    assert_eq!(state.points().len(), 4);
    assert_eq!(state.combine_points(), Ok(()));
    assert_eq!(state.points().len(), 0);
    assert_eq!(state.summaries(), &vec![fold(&[(0, 10.0), (1, 20.0), (2, 5.0), (3, 15.0)], None)]);
    // with nothing waiting, folding again changes nothing
    assert_eq!(state.combine_points(), Ok(()));
    assert_eq!(state.summaries().len(), 1);
    assert_eq!(state.combine_summaries(), Ok(()));
    assert_eq!(state.summaries().len(), 1);
}

#[test]
fn two_points_of_one_time_are_invalid_input() {
    let mut state = CounterSummaryTransState::new(None);
    state.push_point(pt(1, 1.0));
    state.push_point(pt(0, 1.0));
    state.push_point(pt(1, 2.0));
    assert_eq!(state.combine_points(), Err(CounterError::InvalidInput));
    assert_eq!(state.points(), &vec![pt(1, 1.0), pt(0, 1.0), pt(1, 2.0)]);
    assert_eq!(state.summaries().len(), 0);
    assert_eq!(state.combine_summaries(), Err(CounterError::InvalidInput));
    assert_eq!(state.points().len(), 3);
}

#[test]
fn bounds_that_miss_the_points_are_an_inconsistency() {
    let window = I64Range::new(0, 10);
    let mut state = CounterSummaryTransState::new(Some(window));
    assert_eq!(state.bounds(), Some(window));
    state.push_point(pt(3, 1.0));
    state.push_point(pt(10, 2.0));
    assert_eq!(state.combine_points(), Err(CounterError::InconsistentState));
    assert_eq!(state.points().len(), 2);
    assert_eq!(state.summaries().len(), 0);
    assert_eq!(counter_agg_final(Some(state)), Err(CounterError::InconsistentState));

    let mut state = CounterSummaryTransState::new(Some(window));
    state.push_point(pt(9, 2.0));
    state.push_point(pt(0, 1.0));
    assert_eq!(state.combine_points(), Ok(()));
    assert_eq!(state.summaries()[0].bounds, Some(window));
}

#[test]
fn summaries_merge_in_order_of_time_however_they_were_pushed() {
    let all = nine_points();
    let parts =
        [fold(&all[..2], None), fold(&all[2..3], None), fold(&all[3..7], None), fold(&all[7..], None)];
    let whole = fold(&all, None);
    let orders: [[usize; 4]; 6] =
        [[0, 1, 2, 3], [3, 2, 1, 0], [1, 3, 0, 2], [2, 0, 3, 1], [3, 0, 1, 2], [1, 0, 3, 2]];
    for order in orders {
        let mut state = CounterSummaryTransState::new(None);
        for i in order {
            let mut other = CounterSummaryTransState::new(None);
            other.push_partial(parts[i]);
            state.push_summary(&other);
        }
        assert_eq!(state.summaries().len(), 4);
        assert_eq!(state.combine_summaries(), Ok(()));
        assert_eq!(state.summaries(), &vec![whole]);
    }
}

#[test]
fn summaries_that_overlap_are_an_inconsistency() {
    let mut state = CounterSummaryTransState::new(None);
    state.push_partial(fold(&[(0, 1.0), (10, 2.0)], None));
    state.push_partial(fold(&[(5, 1.0), (20, 2.0)], None));
    state.push_point(pt(30, 3.0));
    assert_eq!(state.combine_summaries(), Err(CounterError::InconsistentState));
    // the points were folded, the summaries stay unmerged
    assert_eq!(state.points().len(), 0);
    assert_eq!(state.summaries().len(), 3);
}

#[test]
fn push_summary_leaves_waiting_points_behind() {
    let mut a = CounterSummaryTransState::new(None);
    a.push_partial(fold(&[(0, 1.0)], None));
    let mut b = CounterSummaryTransState::new(None);
    b.push_point(pt(9, 1.0));
    b.push_partial(fold(&[(5, 1.0)], None));
    a.push_summary(&b);
    assert_eq!(a.summaries().len(), 2);
    assert_eq!(a.points().len(), 0);
    assert_eq!(b.points().len(), 1);
    assert_eq!(b.summaries().len(), 1);
}

#[test]
fn an_empty_state_is_neutral() {
    let s = fold(&[(0, 10.0), (1, 20.0), (2, 5.0)], None);
    let mut state = CounterSummaryTransState::new(None);
    state.push_partial(s);
    let empty = CounterSummaryTransState::new(Some(I64Range::new(0, 5)));
    state.push_summary(&empty);
    assert_eq!(state.combine_summaries(), Ok(()));
    assert_eq!(state.summaries(), &vec![s]);

    let left = counter_agg_combine(Some(empty.clone()), Some(state.clone())).unwrap();
    assert_eq!(counter_agg_final(left), Ok(Some(s)));
    let right = counter_agg_combine(Some(state), Some(empty)).unwrap();
    assert_eq!(counter_agg_final(right), Ok(Some(s)));

    let mut nothing = CounterSummaryTransState::new(None);
    assert_eq!(nothing.combine_points(), Ok(()));
    assert_eq!(nothing.combine_summaries(), Ok(()));
    assert_eq!(nothing.summaries().len(), 0);
    assert_eq!(counter_agg_final(Some(nothing)), Ok(None));
    assert_eq!(counter_agg_final(None), Ok(None));
}

#[test]
fn rows_without_time_or_value_change_nothing() {
    assert!(counter_agg_trans(None, None, Some(d(1.0)), None).is_none());
    assert!(counter_agg_trans(None, Some(1), None, None).is_none());
    assert!(counter_agg_trans_no_bounds(None, None, None).is_none());
    let state = counter_agg_trans_no_bounds(None, Some(1), Some(d(1.0)));
    let state = counter_agg_trans(state, None, Some(d(2.0)), None);
    let state = counter_agg_trans(state, Some(2), None, None).unwrap();
    assert_eq!(state.points(), &vec![pt(1, 1.0)]);
}

#[test]
fn the_first_row_sets_the_bounds() {
    let w1 = I64Range::new(0, 100);
    let w2 = I64Range::new(0, 200);
    let state = counter_agg_trans(None, Some(1), Some(d(1.0)), Some(w1));
    let state = counter_agg_trans(state, Some(2), Some(d(2.0)), Some(w2));
    let state = counter_agg_trans(state, Some(3), Some(d(3.0)), None).unwrap();
    assert_eq!(state.bounds(), Some(w1));
    assert_eq!(state.points().len(), 3);
    let s = counter_agg_final(Some(state)).unwrap().unwrap();
    assert_eq!(s.bounds, Some(w1));
    assert_eq!(s, fold(&[(1, 1.0), (2, 2.0), (3, 3.0)], Some(w1)));
}

#[test]
fn counter_aggregate_over_nine_rows() {
    let all = nine_points();
    let s = counter_agg_final(feed(&all, None)).unwrap().unwrap();
    assert_eq!(counter_agg_num_elements(&s), 9);
    assert_eq!(arrow_counter_agg_num_elements(&s), 9);
    assert_eq!(counter_agg_num_resets(&s), 3);
    assert_eq!(arrow_counter_agg_num_resets(&s), 3);
    assert_eq!(counter_agg_num_changes(&s), 7);
    assert_eq!(arrow_counter_agg_num_changes(&s), 7);

    // rolled up by the minute, the summary is the same
    let mut state = None;
    let mut i = 0;
    while i < all.len() {
        let minute = all[i].0 / MINUTE;
        let mut j = i;
        while j < all.len() && all[j].0 / MINUTE == minute {
            j += 1;
        }
        let part = counter_agg_final(feed(&all[i..j], None)).unwrap();
        state = counter_agg_summary_trans(state, part);
        i = j;
    }
    state = counter_agg_summary_trans(state, None);
    assert_eq!(state.as_ref().unwrap().summaries().len(), 8);
    assert_eq!(counter_agg_final(state), Ok(Some(s)));
}

#[test]
fn counter_aggregate_over_a_saw_tooth() {
    let values = [10.0, 20.0, 30.0, 20.0, 10.0, 20.0, 10.0, 30.0, 10.0];
    let points: Vec<(i64, f64)> =
        values.iter().enumerate().map(|(i, v)| (i as i64 * MINUTE, *v)).collect();
    let s = counter_agg_final(feed(&points, None)).unwrap().unwrap();
    assert_eq!(f(s.reset_sum), 100.0);
    assert_eq!(s.num_resets, 4);
    assert_eq!(s.num_changes, 8);
    assert_eq!(s.num_points, 9);
    assert_eq!(s.first, pt(0, 10.0));
    assert_eq!(s.second, pt(MINUTE, 20.0));
    assert_eq!(s.penultimate, pt(7 * MINUTE, 30.0));
    assert_eq!(s.last, pt(8 * MINUTE, 10.0));
    assert_eq!(s.bounds, None);
    assert_eq!(f(counter_agg_delta(&s)), 100.0);
    assert_eq!(counter_agg_num_resets(&s), 4);
}

#[test]
fn two_workers_combine() {
    let all = nine_points();
    let whole = fold(&all, None);
    let w1 = feed(&[all[0], all[5], all[2], all[8]], None);
    let w2 = feed(&[all[1], all[3]], None);
    // each worker's points are folded on their own, so they must not interleave
    assert_eq!(
        counter_agg_final(counter_agg_combine(w1, w2).unwrap()),
        Err(CounterError::InconsistentState)
    );
    let w1 = feed(&[all[4], all[0], all[2], all[1], all[3]], None);
    let w2 = feed(&[all[8], all[5], all[7], all[6]], None);
    let both = counter_agg_combine(w1.clone(), w2.clone()).unwrap();
    assert_eq!(both.as_ref().unwrap().summaries().len(), 2);
    assert_eq!(counter_agg_final(both), Ok(Some(whole)));
    let both = counter_agg_combine(w2, w1.clone()).unwrap();
    assert_eq!(counter_agg_final(both), Ok(Some(whole)));
    assert!(counter_agg_combine(None, None).unwrap().is_none());
    let alone = counter_agg_combine(w1.clone(), None).unwrap().unwrap();
    assert_eq!(alone.points().len(), 0);
    assert_eq!(alone.summaries(), &vec![fold(&all[..5], None)]);
    let alone = counter_agg_combine(None, w1).unwrap().unwrap();
    assert_eq!(alone.summaries(), &vec![fold(&all[..5], None)]);
    let bad = feed(&[(1, 1.0), (1, 2.0)], None);
    assert_eq!(counter_agg_combine(bad.clone(), None).unwrap_err(), CounterError::InvalidInput);
    assert_eq!(counter_agg_combine(None, bad).unwrap_err(), CounterError::InvalidInput);
}

#[test]
fn finishing_checks_the_bounds_of_a_summary_that_was_fed() {
    let s = fold(&[(0, 1.0), (50, 2.0)], None).with_bounds(Some(I64Range::new(0, 50)));
    let state = counter_agg_summary_trans(None, Some(s));
    assert_eq!(counter_agg_final(state), Err(CounterError::InconsistentState));
    let s = s.with_bounds(Some(I64Range::new(0, 51)));
    let state = counter_agg_summary_trans(None, Some(s));
    assert_eq!(counter_agg_final(state), Ok(Some(s)));
}

#[test]
fn accessors_over_two_rows() {
    let two = [(0, 10.0), (MINUTE, 20.0)];
    let s = counter_agg_final(feed(&two, None)).unwrap().unwrap();
    assert_eq!(f(counter_agg_delta(&s)), 10.0);
    assert_eq!(f(arrow_counter_agg_delta(&s)), 10.0);
    assert_eq!(f(counter_agg_time_delta(&s)), 60.0);
    assert_eq!(f(arrow_counter_agg_time_delta(&s)), 60.0);
    assert_eq!(f(counter_agg_rate(&s).unwrap()), 10.0 / 60.0);
    assert_eq!(f(arrow_counter_agg_rate(&s).unwrap()), 10.0 / 60.0);
    assert_eq!(f(counter_agg_idelta_left(&s).unwrap()), 10.0);
    assert_eq!(f(arrow_counter_agg_idelta_left(&s).unwrap()), 10.0);
    assert_eq!(f(counter_agg_idelta_right(&s).unwrap()), 10.0);
    assert_eq!(f(arrow_counter_agg_idelta_right(&s).unwrap()), 10.0);
    assert_eq!(f(counter_agg_irate_left(&s).unwrap()), 10.0 / 60.0);
    assert_eq!(f(arrow_counter_agg_irate_left(&s).unwrap()), 10.0 / 60.0);
    assert_eq!(f(counter_agg_irate_right(&s).unwrap()), 10.0 / 60.0);
    assert_eq!(f(arrow_counter_agg_irate_right(&s).unwrap()), 10.0 / 60.0);
    assert_eq!(signed(7), 7);
    assert_eq!(signed(u64::MAX), -1);
}

#[test]
fn extrapolation_over_two_rows() {
    let two = [(0, 10.0), (MINUTE, 20.0)];
    // the window ends a millisecond before its right end
    let window = I64Range::new(0, 2 * MINUTE + 1000);
    let s = counter_agg_final(feed(&two, Some(window))).unwrap().unwrap();
    assert_eq!(f(counter_agg_extrapolated_delta(&s, "prometheus").unwrap().unwrap()), 20.0);
    assert_eq!(f(arrow_counter_agg_extrapolated_delta(&s, "prometheus").unwrap().unwrap()), 20.0);
    assert_eq!(f(counter_agg_extrapolated_rate(&s, "prometheus").unwrap().unwrap()), 20.0 / 120.0);
    assert_eq!(
        f(arrow_counter_agg_extrapolated_rate(&s, " Prometheus ").unwrap().unwrap()),
        20.0 / 120.0
    );
    // it does not matter whether the bounds are set before or after
    let late = counter_agg_final(feed(&two, None)).unwrap().unwrap();
    let late = counter_agg_with_bounds(&late, Some(window));
    assert_eq!(late, s);
    assert_eq!(arrow_counter_agg_with_bounds(&late, Some(window)), s);
    assert_eq!(late.prometheus_delta(), s.prometheus_delta());
    assert_eq!(late.prometheus_rate(), s.prometheus_rate());
    assert_eq!(
        counter_agg_extrapolated_delta(&s, "linear"),
        Err(CounterError::InvalidInput)
    );
    assert_eq!(
        counter_agg_extrapolated_rate(&s, ""),
        Err(CounterError::InvalidInput)
    );
}

#[test]
fn extrapolation_needs_bounds_and_two_points() {
    let s = fold(&[(0, 10.0), (MINUTE, 20.0)], None);
    assert_eq!(s.prometheus_delta(), Ok(None));
    assert_eq!(s.prometheus_rate(), Ok(None));
    let outside = s.with_bounds(Some(I64Range::new(1, 2 * MINUTE)));
    assert_eq!(outside.prometheus_delta(), Err(CounterError::InconsistentState));
    assert_eq!(outside.prometheus_rate(), Err(CounterError::InconsistentState));
    let one = CounterSummary::new(&pt(0, 10.0), Some(I64Range::new(5, 6)));
    assert_eq!(one.prometheus_delta(), Ok(None));
    // a window of a millisecond or less has no rate
    let tight = fold(&[(0, 10.0), (500, 20.0)], Some(I64Range::new(0, 1000)));
    assert!(tight.prometheus_delta().unwrap().is_some());
    assert_eq!(tight.prometheus_rate(), Ok(None));
}

fn machine_extrapolation(points: &[(i64, f64)], reset_sum: f64, left: i64, right: i64) -> f64 {
    let first = points[0];
    let last = points[points.len() - 1];
    let mut result = last.1 - first.1 + reset_sum;
    let mut to_start = (first.0 - left) as f64 / 1_000_000.0;
    let to_end = (right - last.0 - 1000) as f64 / 1_000_000.0;
    let sampled = (last.0 - first.0) as f64 / 1_000_000.0;
    let spacing = sampled / (points.len() - 1) as f64;
    if result > 0.0 && first.1 >= 0.0 {
        let to_zero = sampled * (first.1 / result);
        if to_zero < to_start {
            to_start = to_zero;
        }
    }
    let threshold = spacing * 1.1;
    let mut interval = sampled;
    if to_start < threshold {
        interval += to_start;
    } else {
        interval += spacing / 2.0;
    }
    if to_end < threshold {
        interval += to_end;
    } else {
        interval += spacing / 2.0;
    }
    result *= interval / sampled;
    result
}

#[test]
fn extrapolation_stretches_towards_the_window() {
    let points = [(10 * SECOND, 4.0), (20 * SECOND, 7.5), (30 * SECOND, 2.25), (45 * SECOND, 9.0)];
    let windows = [
        (0, 60 * SECOND),
        (9 * SECOND, 46 * SECOND),
        (10 * SECOND, 45 * SECOND + 1),
        (-500 * SECOND, 500 * SECOND),
        (3 * SECOND, 50 * SECOND),
    ];
    for (left, right) in windows {
        let s = fold(&points, Some(I64Range::new(left, right)));
        let want = machine_extrapolation(&points, 7.5, left, right);
        assert_eq!(f(s.prometheus_delta().unwrap().unwrap()), want, "{left} {right}");
        let length = (right - left - 1000) as f64 / 1_000_000.0;
        if right - left - 1000 > 0 {
            assert_eq!(f(s.prometheus_rate().unwrap().unwrap()), want / length);
        } else {
            assert_eq!(s.prometheus_rate(), Ok(None));
        }
    }
    // far from the start, the stretch is half the spacing of the samples
    let s = fold(&[(100 * SECOND, 1000.0), (110 * SECOND, 1010.0)], Some(I64Range::new(0, 200 * SECOND)));
    assert_eq!(f(s.prometheus_delta().unwrap().unwrap()), 20.0);
    // a counter near zero is stretched no further than to zero
    let s = fold(&[(100 * SECOND, 1.0), (110 * SECOND, 11.0)], Some(I64Range::new(95 * SECOND, 200 * SECOND)));
    assert_eq!(f(s.prometheus_delta().unwrap().unwrap()), 16.0);
}
