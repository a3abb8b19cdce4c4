//! Folding points into a summary, and summaries into one.

use vstd::prelude::*;
use crate::order::lemma_stable_sort_permutes;
use crate::order::stable_sort;
use crate::order::Timed;
use crate::point::TSPoint;
use crate::range::I64Range;
use crate::summary::CounterSummary;
use crate::summary::SummaryView;

verus! {

impl Timed for TSPoint {
    open spec fn spec_time(&self) -> i64 {
        self.ts
    }

    fn time(&self) -> (t: i64) {
        self.ts
    }
}

impl Timed for CounterSummary {
    /// A summary is ordered by the time of its first point.
    open spec fn spec_time(&self) -> i64 {
        self.first.ts
    }

    fn time(&self) -> (t: i64) {
        self.first.ts
    }
}

/// The summary of `points`, absorbed from left to right under `bounds`.
/// There is none where `points` is empty or a point does not come strictly
/// after the one before it.
pub open spec fn fold_points(points: Seq<TSPoint>, bounds: Option<I64Range>) -> Option<SummaryView>
    decreases points.len(),
{
    if points.len() == 0 {
        None
    } else if points.len() == 1 {
        Some(SummaryView::seed(points[0], bounds))
    } else {
        match fold_points(points.drop_last(), bounds) {
            Some(s) => if s.accepts(points.last()) {
                Some(s.absorb(points.last()))
            } else {
                None
            },
            None => None,
        }
    }
}

/// The summaries merged from left to right. There is no result where `sums`
/// is empty or a summary starts before the ones to its left have ended.
pub open spec fn merge_all(sums: Seq<CounterSummary>) -> Option<SummaryView>
    decreases sums.len(),
{
    if sums.len() == 0 {
        None
    } else if sums.len() == 1 {
        Some(sums[0]@)
    } else {
        match merge_all(sums.drop_last()) {
            Some(s) => if s.precedes(sums.last()@) {
                Some(s.merge(sums.last()@))
            } else {
                None
            },
            None => None,
        }
    }
}

/// The number of points that the summaries hold together.
pub open spec fn total_points(sums: Seq<CounterSummary>) -> nat
    decreases sums.len(),
{
    if sums.len() == 0 {
        0
    } else {
        total_points(sums.drop_last()) + sums.last().num_points as nat
    }
}

/// Whether every summary of `sums` is well formed.
pub open spec fn all_wf(sums: Seq<CounterSummary>) -> bool {
    forall|i: int| 0 <= i < sums.len() ==> (#[trigger] sums[i]).wf()
}

/// Whether each point comes strictly after the one before it.
pub open spec fn strictly_increasing(points: Seq<TSPoint>) -> bool {
    forall|i: int, j: int| 0 <= i < j < points.len() ==> points[i].ts < points[j].ts
}

/// What a fold of points gives: a well-formed summary of as many points,
/// whose edge points are the first two and the last two of the sequence.
pub proof fn lemma_fold_points_shape(points: Seq<TSPoint>, bounds: Option<I64Range>)
    ensures
        fold_points(points, bounds) is Some <==> points.len() >= 1 && strictly_increasing(points),
        fold_points(points, bounds) matches Some(s) ==> {
            &&& s.wf()
            &&& s.num_points == points.len()
            &&& s.bounds == bounds
            &&& s.first == points[0]
            &&& s.last == points.last()
            &&& s.second == if points.len() == 1 { points[0] } else { points[1] }
            &&& s.penultimate == if points.len() == 1 {
                points[0]
            } else {
                points[points.len() - 2]
            }
        },
    decreases points.len(),
{
    if points.len() >= 2 {
        let init = points.drop_last();
        lemma_fold_points_shape(init, bounds);
        assert forall|i: int| 0 <= i < init.len() implies init[i] == points[i] by {}
        if fold_points(points, bounds) is Some {
            assert forall|i: int, j: int| 0 <= i < j < points.len() implies points[i].ts
                < points[j].ts by {
                if j < init.len() {
                    assert(init[i].ts < init[j].ts);
                } else if i < init.len() - 1 {
                    assert(init[i].ts < init[init.len() - 1].ts);
                }
            }
        }
        if strictly_increasing(points) {
            assert forall|i: int, j: int| 0 <= i < j < init.len() implies init[i].ts
                < init[j].ts by {
                assert(points[i].ts < points[j].ts);
            }
            assert(points[points.len() - 2].ts < points[points.len() - 1].ts);
        }
    }
}

/// A fold that fails on the first `k` points fails on all of them.
pub proof fn lemma_fold_points_prefix(points: Seq<TSPoint>, bounds: Option<I64Range>, k: int)
    requires
        1 <= k <= points.len(),
        fold_points(points.take(k), bounds) is None,
    ensures
        fold_points(points, bounds) is None,
    decreases points.len() - k,
{
    if k < points.len() {
        assert(points.take(k + 1).drop_last() =~= points.take(k));
        lemma_fold_points_prefix(points, bounds, k + 1);
    } else {
        assert(points.take(k) =~= points);
    }
}

/// What a merge of well-formed summaries gives: a well-formed summary of
/// all their points, from the first point of the first to the last point of
/// the last.
pub proof fn lemma_merge_all_shape(sums: Seq<CounterSummary>)
    requires
        all_wf(sums),
    ensures
        merge_all(sums) matches Some(s) ==> {
            &&& s.wf()
            &&& s.num_points == total_points(sums)
            &&& s.first == sums[0].first
            &&& s.last == sums.last().last
        },
    decreases sums.len(),
{
    if sums.len() == 1 {
        assert(total_points(sums.drop_last()) == 0);
    } else if sums.len() >= 2 {
        let init = sums.drop_last();
        assert forall|i: int| 0 <= i < init.len() implies (#[trigger] init[i]).wf() by {
            assert(init[i] == sums[i]);
        }
        lemma_merge_all_shape(init);
        assert(sums.last().wf());
    }
}

/// A merge that fails on the first `k` summaries fails on all of them.
pub proof fn lemma_merge_all_prefix(sums: Seq<CounterSummary>, k: int)
    requires
        1 <= k <= sums.len(),
        merge_all(sums.take(k)) is None,
    ensures
        merge_all(sums) is None,
    decreases sums.len() - k,
{
    if k < sums.len() {
        assert(sums.take(k + 1).drop_last() =~= sums.take(k));
        lemma_merge_all_prefix(sums, k + 1);
    } else {
        assert(sums.take(k) =~= sums);
    }
}

/// The points of a prefix are among the points of the whole.
pub proof fn lemma_total_points_prefix(sums: Seq<CounterSummary>, k: int)
    requires
        0 <= k <= sums.len(),
    ensures
        total_points(sums.take(k)) <= total_points(sums),
    decreases sums.len() - k,
{
    if k < sums.len() {
        assert(sums.take(k + 1).drop_last() =~= sums.take(k));
        lemma_total_points_prefix(sums, k + 1);
    } else {
        assert(sums.take(k) =~= sums);
    }
}

/// Summarizes points that are in order of time already. Gives nothing where
/// there is no point, or where a point does not come strictly after the one
/// before it.
pub fn summarize_sorted(points: &Vec<TSPoint>, bounds: Option<I64Range>) -> (r: Option<
    CounterSummary,
>)
    ensures
        r is Some <==> fold_points(points@, bounds) is Some,
        r matches Some(s) ==> s.wf() && Some(s@) == fold_points(points@, bounds),
{
    if points.len() == 0 {
        return None;
    }
    let mut acc = CounterSummary::new(&points[0], bounds);
    let mut i: usize = 1;
    assert(points@.take(1).len() == 1);
    while i < points.len()
        invariant
            1 <= i <= points.len(),
            acc.wf(),
            acc.num_points == i,
            fold_points(points@.take(i as int), bounds) == Some(acc@),
        decreases points.len() - i,
    {
        assert(points@.take(i + 1).drop_last() =~= points@.take(i as int));
        assert(points@.take(i + 1).last() == points@[i as int]);
        match acc.add_point(&points[i]) {
            Ok(()) => {},
            Err(_) => {
                proof {
                    lemma_fold_points_prefix(points@, bounds, i + 1);
                }
                return None;
            },
        }
        i = i + 1;
    }
    assert(points@.take(i as int) =~= points@);
    Some(acc)
}

/// Merges summaries that are in order of time already. Gives nothing where
/// there is no summary, where one starts before those to its left have ended,
/// or where together they hold more points than a summary can count.
pub fn merge_sorted(sums: &Vec<CounterSummary>) -> (r: Option<CounterSummary>)
    requires
        all_wf(sums@),
    ensures
        r is Some <==> merge_all(sums@) is Some && total_points(sums@) <= u64::MAX,
        r matches Some(s) ==> s.wf() && Some(s@) == merge_all(sums@),
{
    if sums.len() == 0 {
        return None;
    }
    let mut acc = sums[0];
    let mut i: usize = 1;
    assert(sums@.take(1).len() == 1);
    assert(total_points(sums@.take(1).drop_last()) == 0);
    while i < sums.len()
        invariant
            1 <= i <= sums.len(),
            all_wf(sums@),
            acc.wf(),
            acc.num_points == total_points(sums@.take(i as int)),
            merge_all(sums@.take(i as int)) == Some(acc@),
        decreases sums.len() - i,
    {
        let next = sums[i];
        proof {
            assert(sums@.take(i + 1).drop_last() =~= sums@.take(i as int));
            assert(sums@.take(i + 1).last() == sums@[i as int]);
            lemma_total_points_prefix(sums@, i + 1);
            assert(all_wf(sums@.take(i + 1)));
            lemma_merge_all_shape(sums@.take(i + 1));
            lemma_merge_all_shape(sums@);
        }
        if acc.num_points > u64::MAX - next.num_points {
            proof {
                if merge_all(sums@.take(i + 1)) is None {
                    lemma_merge_all_prefix(sums@, i + 1);
                }
            }
            return None;
        }
        match acc.combine(&next) {
            Ok(()) => {},
            Err(_) => {
                proof {
                    lemma_merge_all_prefix(sums@, i + 1);
                }
                return None;
            },
        }
        i = i + 1;
    }
    proof {
        assert(sums@.take(i as int) =~= sums@);
    }
    Some(acc)
}

/// Sorting well-formed summaries leaves them well formed.
pub proof fn lemma_sorted_all_wf(sums: Seq<CounterSummary>)
    requires
        all_wf(sums),
    ensures
        all_wf(stable_sort(sums)),
{
    broadcast use vstd::seq_lib::group_to_multiset_ensures;

    lemma_stable_sort_permutes(sums);
    let sorted = stable_sort(sums);
    assert forall|i: int| 0 <= i < sorted.len() implies (#[trigger] sorted[i]).wf() by {
        assert(sorted.contains(sorted[i]));
        assert(sums.to_multiset().count(sorted[i]) > 0);
        assert(sums.contains(sorted[i]));
        let j = choose|j: int| 0 <= j < sums.len() && sums[j] == sorted[i];
        assert(sums[j].wf());
    }
}

} // verus!
