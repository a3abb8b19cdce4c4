//! What holds of the aggregation as a whole.
//!
//! The reset sum is a sum of doubles, and the sum of doubles depends on how
//! it is grouped. So where two ways of folding the same points group the
//! banked values differently, the laws below state that the two summaries
//! are the same but for their reset sums, and the same altogether where the
//! reset sums agree.

use vstd::prelude::*;
use crate::aggregate::combined;
use crate::aggregate::finished;
use crate::double::Double;
use crate::error::CounterError;
use crate::fold::fold_points;
use crate::fold::lemma_fold_points_shape;
use crate::fold::merge_all;
use crate::fold::strictly_increasing;
use crate::order::distinct_times;
use crate::order::insert_pos;
use crate::order::lemma_stable_sort_of_sorted;
use crate::order::lemma_stable_sort_order_independent;
use crate::order::stable_sort;
use crate::order::Timed;
use crate::point::TSPoint;
use crate::range::I64Range;
use crate::summary::CounterSummary;
use crate::summary::SummaryView;
use crate::trans_state::TransStateView;

verus! {

/// Absorbing a point and merging keep a summary well formed; so every
/// summary has at least as many changes as resets, and fewer changes than
/// points.
pub proof fn lemma_steps_keep_wf(s: SummaryView, p: TSPoint, other: SummaryView)
    requires
        s.wf(),
    ensures
        SummaryView::seed(p, s.bounds).wf(),
        s.accepts(p) ==> s.absorb(p).wf(),
        other.wf() && s.precedes(other) ==> s.merge(other).wf(),
        s.num_resets <= s.num_changes < s.num_points,
{
}

/// Absorbing a point is merging with the summary of that point alone.
pub proof fn lemma_absorb_is_merge(s: SummaryView, p: TSPoint)
    requires
        s.num_points >= 1,
    ensures
        s.accepts(p) ==> s.precedes(SummaryView::seed(p, s.bounds)),
        s.merge(SummaryView::seed(p, s.bounds)).same_but_reset_sum(s.absorb(p)),
{
}

/// Merging is associative: three summaries in order of time merge to the
/// same summary whichever two are merged first, but for the grouping of
/// the sums of doubles in the reset sum.
pub proof fn lemma_merge_associative(a: SummaryView, b: SummaryView, c: SummaryView)
    requires
        a.num_points >= 1,
        b.num_points >= 1,
        c.num_points >= 1,
    ensures
        a.precedes(b) && b.precedes(c) ==> a.merge(b).precedes(c) && a.precedes(b.merge(c)),
        a.merge(b).merge(c).same_but_reset_sum(a.merge(b.merge(c))),
        a.merge(b).merge(c).reset_sum == a.merge(b.merge(c)).reset_sum ==> a.merge(b).merge(c)
            == a.merge(b.merge(c)),
{
}

/// Summaries that are the same but for their reset sums stay so when a
/// point is absorbed or a summary is merged on.
pub proof fn lemma_same_but_reset_sum_carries(
    u: SummaryView,
    v: SummaryView,
    p: TSPoint,
    other: SummaryView,
)
    requires
        u.same_but_reset_sum(v),
    ensures
        u.accepts(p) == v.accepts(p),
        u.absorb(p).same_but_reset_sum(v.absorb(p)),
        u.precedes(other) == v.precedes(other),
        u.merge(other).same_but_reset_sum(v.merge(other)),
        other.precedes(u) == other.precedes(v),
        other.merge(u).same_but_reset_sum(other.merge(v)),
{
}

/// A stretch of a strictly increasing sequence of points is strictly
/// increasing.
proof fn lemma_increasing_parts(early: Seq<TSPoint>, late: Seq<TSPoint>)
    requires
        strictly_increasing(early + late),
    ensures
        strictly_increasing(early),
        strictly_increasing(late),
        early.len() >= 1 && late.len() >= 1 ==> early.last().ts < late[0].ts,
{
    let whole = early + late;
    assert forall|i: int, j: int| 0 <= i < j < early.len() implies early[i].ts < early[j].ts by {
        assert(whole[i] == early[i]);
        assert(whole[j] == early[j]);
    }
    assert forall|i: int, j: int| 0 <= i < j < late.len() implies late[i].ts < late[j].ts by {
        assert(whole[early.len() + i] == late[i]);
        assert(whole[early.len() + j] == late[j]);
    }
    if early.len() >= 1 && late.len() >= 1 {
        assert(whole[early.len() - 1] == early.last());
        assert(whole[early.len() as int] == late[0]);
    }
}

/// Folding a sequence of points in one go, or folding two stretches of it
/// and merging the two summaries, gives the same summary, but for the
/// grouping of the sums of doubles in the reset sum.
pub proof fn lemma_fold_split(early: Seq<TSPoint>, late: Seq<TSPoint>, bounds: Option<I64Range>)
    requires
        early.len() >= 1,
        late.len() >= 1,
        fold_points(early + late, bounds) is Some,
    ensures
        fold_points(early, bounds) is Some,
        fold_points(late, bounds) is Some,
        fold_points(early, bounds)->0.precedes(fold_points(late, bounds)->0),
        fold_points(early, bounds)->0.merge(fold_points(late, bounds)->0).same_but_reset_sum(
            fold_points(early + late, bounds)->0,
        ),
    decreases late.len(),
{
    let whole = early + late;
    lemma_fold_points_shape(whole, bounds);
    lemma_increasing_parts(early, late);
    lemma_fold_points_shape(early, bounds);
    lemma_fold_points_shape(late, bounds);
    let f1 = fold_points(early, bounds)->0;
    let x = late.last();
    assert(whole.last() == x);
    if late.len() == 1 {
        assert(whole.drop_last() =~= early);
        assert(fold_points(whole, bounds) == Some(f1.absorb(x)));
        lemma_absorb_is_merge(f1, x);
    } else {
        let q = late.drop_last();
        assert(whole.drop_last() =~= early + q);
        lemma_fold_split(early, q, bounds);
        lemma_fold_points_shape(q, bounds);
        let fq = fold_points(q, bounds)->0;
        let fw = fold_points(early + q, bounds)->0;
        assert(fold_points(whole, bounds) == Some(fw.absorb(x)));
        assert(fold_points(late, bounds) == Some(fq.absorb(x)));
        // merging on a summary that has absorbed x is absorbing x after the merge
        assert(f1.merge(fq.absorb(x)).same_but_reset_sum(f1.merge(fq).absorb(x)));
        lemma_same_but_reset_sum_carries(f1.merge(fq), fw, x, fw);
    }
}

/// The values that a fold of `points` banks, in order: at each reset, the
/// value that the counter had reached.
pub open spec fn banked_values(points: Seq<TSPoint>) -> Seq<Double>
    decreases points.len(),
{
    if points.len() < 2 {
        Seq::empty()
    } else {
        let before = points[points.len() - 2].val;
        let rest = banked_values(points.drop_last());
        if SummaryView::is_reset(before, points.last().val) {
            rest.push(before)
        } else {
            rest
        }
    }
}

/// What is banked over the seam between two stretches of points: the last
/// value of the first, where the second starts below it.
pub open spec fn banked_at_seam(early: Seq<TSPoint>, late: Seq<TSPoint>) -> Seq<Double> {
    if SummaryView::is_reset(early.last().val, late[0].val) {
        seq![early.last().val]
    } else {
        Seq::empty()
    }
}

/// `values` added to `start` one by one, from left to right.
pub open spec fn sum_onto(start: Double, values: Seq<Double>) -> Double
    decreases values.len(),
{
    if values.len() == 0 {
        start
    } else {
        sum_onto(start, values.drop_last()).spec_plus(values.last())
    }
}

/// Adding two runs of values one by one is adding the second run onto the
/// sum of the first.
pub proof fn lemma_sum_onto_concat(start: Double, a: Seq<Double>, b: Seq<Double>)
    ensures
        sum_onto(start, a + b) == sum_onto(sum_onto(start, a), b),
    decreases b.len(),
{
    if b.len() == 0 {
        assert(a + b =~= a);
    } else {
        assert((a + b).drop_last() =~= a + b.drop_last());
        assert((a + b).last() == b.last());
        lemma_sum_onto_concat(start, a, b.drop_last());
    }
}

/// How many points of `points` differ in value from the point before them.
pub open spec fn changed_steps(points: Seq<TSPoint>) -> nat
    decreases points.len(),
{
    if points.len() < 2 {
        0
    } else {
        let before = points[points.len() - 2].val;
        let rest = changed_steps(points.drop_last());
        if SummaryView::is_change(before, points.last().val) {
            rest + 1
        } else {
            rest
        }
    }
}

/// The reset sum of a fold is its banked values added to zero one by one;
/// there are as many of them as resets; and the changes are the points that
/// differ in value from the point before them.
pub proof fn lemma_fold_reset_sum(points: Seq<TSPoint>, bounds: Option<I64Range>)
    ensures
        fold_points(points, bounds) matches Some(s) ==> {
            &&& s.reset_sum == sum_onto(Double::spec_zero(), banked_values(points))
            &&& s.num_resets == banked_values(points).len()
            &&& s.num_changes == changed_steps(points)
        },
    decreases points.len(),
{
    if points.len() >= 2 {
        let init = points.drop_last();
        lemma_fold_reset_sum(init, bounds);
        lemma_fold_points_shape(init, bounds);
        assert(init.last() == points[points.len() - 2]);
        let rest = banked_values(init);
        let before = points[points.len() - 2].val;
        if SummaryView::is_reset(before, points.last().val) {
            assert(rest.push(before).drop_last() =~= rest);
        }
    }
}

/// A sequence of points banks what its two stretches bank and, between
/// them, what is banked over the seam.
pub proof fn lemma_banked_values_split(early: Seq<TSPoint>, late: Seq<TSPoint>)
    requires
        early.len() >= 1,
        late.len() >= 1,
    ensures
        banked_values(early + late) == banked_values(early) + banked_at_seam(early, late)
            + banked_values(late),
    decreases late.len(),
{
    let whole = early + late;
    let seam = banked_at_seam(early, late);
    assert(whole.last() == late.last());
    if late.len() == 1 {
        assert(whole.drop_last() =~= early);
        assert(whole[whole.len() - 2] == early.last());
        assert(banked_values(late) =~= Seq::<Double>::empty());
        assert(banked_values(whole) =~= banked_values(early) + seam + banked_values(late));
    } else {
        let q = late.drop_last();
        assert(whole.drop_last() =~= early + q);
        assert(whole[whole.len() - 2] == late[late.len() - 2]);
        assert(q[0] == late[0]);
        lemma_banked_values_split(early, q);
        assert(banked_values(whole) =~= banked_values(early) + seam + banked_values(late));
    }
}

/// Where the two ways of folding differ: both add up the same banked
/// values in the same order, but folding in one go adds those of the second
/// stretch one by one, while merging adds their sum. They agree wherever
/// these two sums of doubles do.
pub proof fn lemma_fold_split_reset_sum(
    early: Seq<TSPoint>,
    late: Seq<TSPoint>,
    bounds: Option<I64Range>,
)
    requires
        early.len() >= 1,
        late.len() >= 1,
        fold_points(early + late, bounds) is Some,
    ensures
        fold_points(early, bounds) is Some,
        fold_points(late, bounds) is Some,
        ({
            let whole = fold_points(early + late, bounds)->0;
            let merged = fold_points(early, bounds)->0.merge(fold_points(late, bounds)->0);
            let zero = Double::spec_zero();
            let so_far = sum_onto(zero, banked_values(early) + banked_at_seam(early, late));
            &&& whole.reset_sum == sum_onto(so_far, banked_values(late))
            &&& merged.reset_sum == so_far.spec_plus(sum_onto(zero, banked_values(late)))
            &&& whole.reset_sum == merged.reset_sum ==> whole == merged
        }),
{
    lemma_fold_split(early, late, bounds);
    lemma_fold_reset_sum(early + late, bounds);
    lemma_fold_reset_sum(early, bounds);
    lemma_fold_reset_sum(late, bounds);
    lemma_fold_points_shape(early, bounds);
    lemma_fold_points_shape(late, bounds);
    lemma_banked_values_split(early, late);
    let zero = Double::spec_zero();
    let seam = banked_at_seam(early, late);
    lemma_sum_onto_concat(zero, banked_values(early) + seam, banked_values(late));
    lemma_sum_onto_concat(zero, banked_values(early), seam);
    let f1 = fold_points(early, bounds)->0;
    let f2 = fold_points(late, bounds)->0;
    let whole = fold_points(early + late, bounds)->0;
    let so_far = sum_onto(zero, banked_values(early) + seam);
    if SummaryView::is_reset(early.last().val, late[0].val) {
        assert(seam.drop_last() =~= Seq::<Double>::empty());
        assert(seam.last() == early.last().val);
        assert(sum_onto(f1.reset_sum, seam.drop_last()) == f1.reset_sum);
        assert(so_far == f1.reset_sum.spec_plus(f1.last.val));
    } else {
        assert(so_far == f1.reset_sum);
    }
    assert(f1.merge(f2).reset_sum == so_far.spec_plus(f2.reset_sum));
    assert(whole.reset_sum == sum_onto(so_far, banked_values(late)));
}

/// Folding a sequence of points in one go, or folding three stretches of it
/// and merging the three summaries in either grouping, gives the same
/// summary, but for the grouping of the sums of doubles in the reset sum.
pub proof fn lemma_fold_split3(
    early: Seq<TSPoint>,
    middle: Seq<TSPoint>,
    late: Seq<TSPoint>,
    bounds: Option<I64Range>,
)
    requires
        early.len() >= 1,
        middle.len() >= 1,
        late.len() >= 1,
        fold_points(early + middle + late, bounds) is Some,
    ensures
        fold_points(early, bounds) is Some,
        fold_points(middle, bounds) is Some,
        fold_points(late, bounds) is Some,
        ({
            let a = fold_points(early, bounds)->0;
            let b = fold_points(middle, bounds)->0;
            let c = fold_points(late, bounds)->0;
            let whole = fold_points(early + middle + late, bounds)->0;
            &&& a.precedes(b)
            &&& b.precedes(c)
            &&& a.merge(b).merge(c).same_but_reset_sum(whole)
            &&& a.merge(b.merge(c)).same_but_reset_sum(whole)
        }),
{
    let front = early + middle;
    lemma_fold_split(front, late, bounds);
    lemma_fold_split(early, middle, bounds);
    let a = fold_points(early, bounds)->0;
    let b = fold_points(middle, bounds)->0;
    let c = fold_points(late, bounds)->0;
    let ab = fold_points(front, bounds)->0;
    lemma_fold_points_shape(early, bounds);
    lemma_fold_points_shape(middle, bounds);
    lemma_fold_points_shape(late, bounds);
    lemma_fold_points_shape(front, bounds);
    lemma_same_but_reset_sum_carries(a.merge(b), ab, late[0], c);
    lemma_merge_associative(a, b, c);
}

/// A state in which nothing but `points` waits.
pub open spec fn holding_points(points: Seq<TSPoint>, bounds: Option<I64Range>) -> TransStateView {
    TransStateView { points, bounds, summaries: Seq::empty() }
}

/// Whether two results of finishing are the same, but for the reset sums of
/// their summaries.
pub open spec fn same_result_but_reset_sum(
    x: Result<Option<CounterSummary>, CounterError>,
    y: Result<Option<CounterSummary>, CounterError>,
) -> bool {
    match (x, y) {
        (Ok(Some(a)), Ok(Some(b))) => a@.same_but_reset_sum(b@),
        (Ok(None), Ok(None)) => true,
        (Err(d), Err(e)) => d == e,
        _ => false,
    }
}

/// Two summaries that wait in the wrong order are sorted into the right one.
proof fn lemma_sort_pair(a: CounterSummary, b: CounterSummary)
    requires
        a.first.ts < b.first.ts,
    ensures
        stable_sort(seq![b, a]) == seq![a, b],
        stable_sort(seq![a, b]) == seq![a, b],
{
    let empty = Seq::<CounterSummary>::empty();
    assert(stable_sort(empty) =~= empty);
    assert(seq![b].drop_last() =~= empty);
    assert(seq![a].drop_last() =~= empty);
    assert(stable_sort(seq![b]) =~= seq![b]);
    assert(stable_sort(seq![a]) =~= seq![a]);
    assert(seq![b, a].drop_last() =~= seq![b]);
    assert(seq![a, b].drop_last() =~= seq![a]);
    assert(insert_pos(seq![b], a.first.ts) == 0);
    assert(insert_pos(seq![a], b.first.ts) == 1);
    assert(seq![b].insert(0, a) =~= seq![a, b]);
    assert(seq![a].insert(1, b) =~= seq![a, b]);
}

/// What two summaries merge to.
proof fn lemma_merge_pair(a: CounterSummary, b: CounterSummary)
    ensures
        merge_all(seq![a, b]) == if a@.precedes(b@) {
            Some(a@.merge(b@))
        } else {
            None
        },
{
    assert(seq![a, b].drop_last() =~= seq![a]);
    assert(seq![a, b].last() == b);
    assert(seq![a].len() == 1);
    assert(merge_all(seq![a]) == Some(a@));
}

/// What a state flushes to in which points wait that are in order of time:
/// their fold, where the bounds contain it.
proof fn lemma_flush_of_points(points: Seq<TSPoint>, bounds: Option<I64Range>)
    requires
        points.len() >= 1,
        strictly_increasing(points),
    ensures
        fold_points(points, bounds) is Some,
        holding_points(points, bounds).flush() == if fold_points(points, bounds)->0.bounds_valid() {
            Ok::<TransStateView, CounterError>(
                TransStateView {
                    points: Seq::empty(),
                    bounds,
                    summaries: seq![CounterSummary::of_view(fold_points(points, bounds)->0)],
                },
            )
        } else {
            Err::<TransStateView, CounterError>(CounterError::InconsistentState)
        },
{
    lemma_fold_points_shape(points, bounds);
    lemma_sorted_already(points);
    let s = CounterSummary::of_view(fold_points(points, bounds)->0);
    assert(Seq::<CounterSummary>::empty().push(s) =~= seq![s]);
}

/// What a state finishes to in which two summaries wait, one after the other
/// in time, in whichever order: their merge, where its bounds contain it.
proof fn lemma_finish_pair(
    a: CounterSummary,
    b: CounterSummary,
    bounds: Option<I64Range>,
    swapped: bool,
)
    requires
        a.first.ts < b.first.ts,
        a@.precedes(b@),
        a@.merge(b@).num_points <= u64::MAX,
        a@.merge(b@).num_changes <= u64::MAX,
        a@.merge(b@).num_resets <= u64::MAX,
    ensures
        finished(
            Some(
                TransStateView {
                    points: Seq::empty(),
                    bounds,
                    summaries: if swapped {
                        seq![b, a]
                    } else {
                        seq![a, b]
                    },
                },
            ),
        ) == if a@.merge(b@).bounds_valid() {
            Ok::<Option<CounterSummary>, CounterError>(Some(CounterSummary::of_view(a@.merge(b@))))
        } else {
            Err::<Option<CounterSummary>, CounterError>(CounterError::InconsistentState)
        },
{
    lemma_sort_pair(a, b);
    lemma_merge_pair(a, b);
    let m = CounterSummary::of_view(a@.merge(b@));
    assert(m@ == a@.merge(b@));
    assert(seq![m].last() == m);
}

/// Two workers that take the early and the late stretch of a series and
/// are then combined, in either order, finish to what one worker finishes to
/// that takes the whole series, but for the grouping of the sums of doubles
/// in the reset sum.
pub proof fn lemma_two_workers_agree(
    early: Seq<TSPoint>,
    late: Seq<TSPoint>,
    bounds: Option<I64Range>,
)
    requires
        early.len() >= 1,
        late.len() >= 1,
        strictly_increasing(early + late),
        (early + late).len() <= u64::MAX,
    ensures
        ({
            let one = finished(Some(holding_points(early + late, bounds)));
            let a = holding_points(early, bounds);
            let b = holding_points(late, bounds);
            &&& match combined(Some(a), Some(b)) {
                Ok(c) => same_result_but_reset_sum(finished(c), one),
                Err(e) => one == Err::<Option<CounterSummary>, CounterError>(e),
            }
            &&& match combined(Some(b), Some(a)) {
                Ok(c) => same_result_but_reset_sum(finished(c), one),
                Err(e) => one == Err::<Option<CounterSummary>, CounterError>(e),
            }
        }),
{
    let whole = early + late;
    lemma_fold_points_shape(whole, bounds);
    lemma_fold_split(early, late, bounds);
    lemma_fold_points_shape(early, bounds);
    lemma_fold_points_shape(late, bounds);
    lemma_increasing_parts(early, late);
    assert(whole[0] == early[0]);
    assert(whole.last() == late.last());
    lemma_flush_of_points(whole, bounds);
    lemma_flush_of_points(early, bounds);
    lemma_flush_of_points(late, bounds);
    let fw = fold_points(whole, bounds)->0;
    let fa = fold_points(early, bounds)->0;
    let fb = fold_points(late, bounds)->0;
    let sa = CounterSummary::of_view(fa);
    let sb = CounterSummary::of_view(fb);
    let sw = CounterSummary::of_view(fw);
    assert(sa@ == fa);
    assert(sb@ == fb);
    assert(sw@ == fw);
    let merged = fa.merge(fb);
    assert(merged.bounds == bounds);
    assert(merged.bounds_valid() == (fa.bounds_valid() && fb.bounds_valid()));
    assert(fw.bounds_valid() == merged.bounds_valid());
    lemma_finish_pair(sa, sb, bounds, true);
    lemma_finish_pair(sa, sb, bounds, false);
    assert(seq![sb] + seq![sa] =~= seq![sb, sa]);
    assert(seq![sa] + seq![sb] =~= seq![sa, sb]);
    assert(seq![sw].last() == sw);
    if fw.bounds_valid() {
        let one = holding_points(whole, bounds).flush()->Ok_0;
        assert(one.flush() == Ok::<TransStateView, CounterError>(one));
        assert(finished(Some(holding_points(whole, bounds))) == Ok::<
            Option<CounterSummary>,
            CounterError,
        >(Some(sw)));
    }
}

/// Points that are strictly increasing in time are their own sorted
/// sequence.
proof fn lemma_sorted_already(points: Seq<TSPoint>)
    requires
        strictly_increasing(points),
    ensures
        stable_sort(points) == points,
{
    assert forall|i: int, j: int| 0 <= i <= j < points.len() implies points[i].spec_time()
        <= points[j].spec_time() by {
        if i < j {
            assert(points[i].ts < points[j].ts);
        }
    }
    lemma_stable_sort_of_sorted(points);
}

/// Where no two summaries start at the same time, the summary that they
/// merge to does not depend on the order in which they came in.
pub proof fn lemma_merge_order_independent(a: Seq<CounterSummary>, b: Seq<CounterSummary>)
    requires
        distinct_times(a),
        a.to_multiset() == b.to_multiset(),
    ensures
        merge_all(stable_sort(a)) == merge_all(stable_sort(b)),
        TransStateView::empty(None).push_summaries(a).merged() == TransStateView::empty(
            None,
        ).push_summaries(b).merged(),
{
    lemma_stable_sort_order_independent(a, b);
}

/// Where no two summaries start at the same time, what a state collapses
/// and finishes to does not depend on the order in which its summaries
/// were pushed.
pub proof fn lemma_collapse_order_independent(v: TransStateView, w: TransStateView)
    requires
        v.points.len() == 0,
        w.points.len() == 0,
        v.bounds == w.bounds,
        distinct_times(v.summaries),
        v.summaries.to_multiset() == w.summaries.to_multiset(),
    ensures
        v.collapse() == w.collapse(),
        finished(Some(v)) == finished(Some(w)),
{
    broadcast use vstd::seq_lib::group_to_multiset_ensures;

    lemma_stable_sort_order_independent(v.summaries, w.summaries);
    assert(v.summaries.len() == v.summaries.to_multiset().len());
    assert(w.summaries.len() == w.summaries.to_multiset().len());
    assert(v.points =~= w.points);
    if v.summaries.len() == 0 {
        assert(v.summaries =~= w.summaries);
    } else if v.summaries.len() == 1 {
        let x = v.summaries[0];
        assert(v.summaries.contains(x));
        assert(w.summaries.to_multiset().count(x) > 0);
        assert(w.summaries.contains(x));
        assert(w.summaries[0] == x);
        assert(v.summaries =~= w.summaries);
    }
}

/// Bounds can be given when the points are folded or put on afterwards:
/// the summary is the same, and so is every metric of it.
pub proof fn lemma_bounds_before_or_after(points: Seq<TSPoint>, bounds: Option<I64Range>)
    ensures
        fold_points(points, bounds) == match fold_points(points, None) {
            Some(s) => Some(s.with_bounds(bounds)),
            None => None,
        },
        fold_points(points, None) matches Some(s) ==> {
            &&& s.with_bounds(bounds).bounds == bounds
            &&& s.with_bounds(bounds).prometheus_delta() == fold_points(
                points,
                bounds,
            )->0.prometheus_delta()
            &&& s.with_bounds(bounds).prometheus_rate() == fold_points(
                points,
                bounds,
            )->0.prometheus_rate()
        },
    decreases points.len(),
{
    if points.len() >= 2 {
        lemma_bounds_before_or_after(points.drop_last(), bounds);
    }
}

/// A summary of one point has no rate, no step at either edge and no
/// extrapolation, whatever its bounds.
pub proof fn lemma_single_point_has_no_rate(p: TSPoint, bounds: Option<I64Range>)
    ensures
        ({
            let s = SummaryView::seed(p, bounds);
            &&& s.rate() is None
            &&& s.idelta_left() is None
            &&& s.idelta_right() is None
            &&& s.irate_left() is None
            &&& s.irate_right() is None
            &&& s.prometheus_delta() == Ok::<Option<Double>, CounterError>(None)
            &&& s.prometheus_rate() == Ok::<Option<Double>, CounterError>(None)
        }),
{
}

/// A state that holds nothing is neutral: combining it with another state,
/// on either side, finishes to what the other state finishes to alone.
pub proof fn lemma_empty_state_is_neutral(v: TransStateView, bounds: Option<I64Range>)
    ensures
        TransStateView::empty(bounds).flush() == Ok::<TransStateView, CounterError>(
            TransStateView::empty(bounds),
        ),
        v.push_summaries(TransStateView::empty(bounds).summaries) == v,
        match combined(Some(TransStateView::empty(bounds)), Some(v)) {
            Ok(c) => finished(c) == finished(Some(v)),
            Err(e) => finished(Some(v)) == Err::<Option<CounterSummary>, CounterError>(e),
        },
        match combined(Some(v), Some(TransStateView::empty(bounds))) {
            Ok(c) => finished(c) == finished(Some(v)),
            Err(e) => finished(Some(v)) == Err::<Option<CounterSummary>, CounterError>(e),
        },
{
    let e = TransStateView::empty(bounds);
    assert(v.summaries + e.summaries =~= v.summaries);
    match v.flush() {
        Ok(f) => {
            assert(f.points.len() == 0);
            assert(f.flush() == Ok::<TransStateView, CounterError>(f));
            assert(f.summaries + e.summaries =~= f.summaries);
            assert(f.push_summaries(e.summaries) == f);
            let g = e.push_summaries(f.summaries);
            assert(e.summaries + f.summaries =~= f.summaries);
            assert(g.points =~= f.points);
            assert(g.flush() == Ok::<TransStateView, CounterError>(g));
            assert(g.merged() == f.merged());
        },
        Err(_) => {},
    }
}

/// Folding the waiting points twice is folding them once.
pub proof fn lemma_flush_idempotent(v: TransStateView)
    ensures
        v.flush() matches Ok(f) ==> f.flush() == Ok::<TransStateView, CounterError>(f),
        v.collapse() matches Ok(c) ==> c.collapse() == Ok::<TransStateView, CounterError>(c),
{
    match v.flush() {
        Ok(f) => {
            assert(f.points.len() == 0);
        },
        Err(_) => {},
    }
    match v.collapse() {
        Ok(c) => {
            assert(c.points.len() == 0);
            assert(c.summaries.len() <= 1);
        },
        Err(_) => {},
    }
}

} // verus!
