//! Stable sorting by time.
//!
//! `stable_sort` says what the sorted sequence is; the lemmas say what makes
//! it the right one: it is in order, it holds the same items, and it is the
//! only such sequence where no two items share a time.

use vstd::prelude::*;

verus! {

/// A value with a place in time.
pub trait Timed: Copy {
    /// The time by which the value is ordered.
    spec fn spec_time(&self) -> i64;

    /// The time by which the value is ordered.
    fn time(&self) -> (t: i64)
        ensures
            t == self.spec_time(),
    ;
}

/// Whether the times never go down along `s`.
pub open spec fn is_sorted<T: Timed>(s: Seq<T>) -> bool {
    forall|i: int, j: int| 0 <= i <= j < s.len() ==> s[i].spec_time() <= s[j].spec_time()
}

/// Whether no two items of `s` share a time.
pub open spec fn distinct_times<T: Timed>(s: Seq<T>) -> bool {
    forall|i: int, j: int| 0 <= i < j < s.len() ==> s[i].spec_time() != s[j].spec_time()
}

/// Where an item of time `t` goes into the sorted `s`: behind the last item
/// that is not later than `t`.
pub open spec fn insert_pos<T: Timed>(s: Seq<T>, t: i64) -> int
    decreases s.len(),
{
    if s.len() == 0 {
        0
    } else if s.last().spec_time() <= t {
        s.len() as int
    } else {
        insert_pos(s.drop_last(), t)
    }
}

/// `s` with `x` put in behind the items that are not later than it.
pub open spec fn sorted_insert<T: Timed>(s: Seq<T>, x: T) -> Seq<T> {
    s.insert(insert_pos(s, x.spec_time()), x)
}

/// The items of `s` in order of time, those of equal time in the order in
/// which `s` has them.
pub open spec fn stable_sort<T: Timed>(s: Seq<T>) -> Seq<T>
    decreases s.len(),
{
    if s.len() == 0 {
        s
    } else {
        sorted_insert(stable_sort(s.drop_last()), s.last())
    }
}

/// The insertion point lies in the sequence, everything before it is not
/// later than `t`, and everything from it on is later.
pub proof fn lemma_insert_pos<T: Timed>(s: Seq<T>, t: i64)
    requires
        is_sorted(s),
    ensures
        0 <= insert_pos(s, t) <= s.len(),
        forall|i: int| 0 <= i < insert_pos(s, t) ==> (#[trigger] s[i]).spec_time() <= t,
        forall|i: int| insert_pos(s, t) <= i < s.len() ==> (#[trigger] s[i]).spec_time() > t,
    decreases s.len(),
{
    if s.len() > 0 {
        let init = s.drop_last();
        assert forall|i: int| 0 <= i < init.len() implies init[i] == s[i] by {}
        if s.last().spec_time() > t {
            lemma_insert_pos(init, t);
            assert forall|i: int| 0 <= i < insert_pos(s, t) implies (#[trigger] s[i]).spec_time()
                <= t by {
                assert(init[i] == s[i]);
            }
            assert forall|i: int| insert_pos(s, t) <= i < s.len() implies (
            #[trigger] s[i]).spec_time() > t by {
                if i < init.len() {
                    assert(init[i] == s[i]);
                }
            }
        } else {
            assert forall|i: int| 0 <= i < s.len() implies (#[trigger] s[i]).spec_time() <= t by {
                assert(s[i].spec_time() <= s[s.len() - 1].spec_time());
            }
        }
    }
}

/// The sorted sequence is in order.
pub proof fn lemma_stable_sort_sorted<T: Timed>(s: Seq<T>)
    ensures
        is_sorted(stable_sort(s)),
    decreases s.len(),
{
    if s.len() > 0 {
        let prev = stable_sort(s.drop_last());
        let x = s.last();
        lemma_stable_sort_sorted(s.drop_last());
        lemma_insert_pos(prev, x.spec_time());
        let pos = insert_pos(prev, x.spec_time());
        let out = prev.insert(pos, x);
        assert forall|i: int, j: int| 0 <= i <= j < out.len() implies out[i].spec_time()
            <= out[j].spec_time() by {
            if i < pos && j > pos {
                assert(out[i] == prev[i]);
                assert(out[j] == prev[j - 1]);
            } else if i < pos && j < pos {
                assert(out[i] == prev[i]);
                assert(out[j] == prev[j]);
            } else if i > pos {
                assert(out[i] == prev[i - 1]);
                assert(out[j] == prev[j - 1]);
            } else if i == pos && j > pos {
                assert(out[j] == prev[j - 1]);
            } else if j == pos && i < pos {
                assert(out[i] == prev[i]);
            }
        }
    }
}

/// The sorted sequence holds the same items, each as often.
pub proof fn lemma_stable_sort_permutes<T: Timed>(s: Seq<T>)
    ensures
        stable_sort(s).to_multiset() == s.to_multiset(),
    decreases s.len(),
{
    broadcast use vstd::seq_lib::group_to_multiset_ensures;

    if s.len() > 0 {
        let prev = stable_sort(s.drop_last());
        let x = s.last();
        lemma_stable_sort_permutes(s.drop_last());
        lemma_stable_sort_sorted(s.drop_last());
        lemma_insert_pos(prev, x.spec_time());
        let pos = insert_pos(prev, x.spec_time());
        let out = prev.insert(pos, x);
        assert(out.remove(pos) =~= prev);
        assert(out.to_multiset().remove(x) == prev.to_multiset());
        assert(out.to_multiset().count(x) > 0) by {
            assert(out[pos] == x);
            assert(out.contains(x));
        }
        assert(out.to_multiset() =~= prev.to_multiset().insert(x));
        assert(s.drop_last().push(x) =~= s);
    } else {
        assert(stable_sort(s) =~= s);
    }
}

/// A sequence that is in order already is its own sorted sequence.
pub proof fn lemma_stable_sort_of_sorted<T: Timed>(s: Seq<T>)
    requires
        is_sorted(s),
    ensures
        stable_sort(s) == s,
    decreases s.len(),
{
    if s.len() > 0 {
        let init = s.drop_last();
        assert(is_sorted(init)) by {
            assert forall|i: int, j: int| 0 <= i <= j < init.len() implies init[i].spec_time()
                <= init[j].spec_time() by {
                assert(init[i] == s[i]);
                assert(init[j] == s[j]);
            }
        }
        lemma_stable_sort_of_sorted(init);
        if init.len() > 0 {
            assert(init.last() == s[s.len() - 2]);
        }
        assert(insert_pos(init, s.last().spec_time()) == init.len());
        assert(init.insert(init.len() as int, s.last()) =~= s);
    }
}

/// The test for the time `t`.
pub open spec fn has_time<T: Timed>(t: i64) -> spec_fn(T) -> bool {
    |x: T| x.spec_time() == t
}

/// The items of `s` whose time is `t`, in the order in which `s` has them.
pub open spec fn at_time<T: Timed>(s: Seq<T>, t: i64) -> Seq<T> {
    s.filter(has_time::<T>(t))
}

/// A sequence with no item of time `t` has nothing at time `t`.
proof fn lemma_at_time_none<T: Timed>(s: Seq<T>, t: i64)
    requires
        forall|i: int| 0 <= i < s.len() ==> (#[trigger] s[i]).spec_time() != t,
    ensures
        at_time(s, t) == Seq::<T>::empty(),
    decreases s.len(),
{
    reveal(Seq::filter);
    if s.len() > 0 {
        let init = s.drop_last();
        assert forall|i: int| 0 <= i < init.len() implies (#[trigger] init[i]).spec_time()
            != t by {
            assert(init[i] == s[i]);
        }
        lemma_at_time_none(init, t);
        assert(s[s.len() - 1].spec_time() != t);
    } else {
        assert(s =~= Seq::<T>::empty());
    }
}

/// Sorting is stable: the items of any one time keep the order in which
/// they came in.
pub proof fn lemma_stable_sort_stable<T: Timed>(s: Seq<T>, t: i64)
    ensures
        at_time(stable_sort(s), t) == at_time(s, t),
    decreases s.len(),
{
    reveal(Seq::filter);
    if s.len() > 0 {
        let init = s.drop_last();
        let prev = stable_sort(init);
        let x = s.last();
        let pred = has_time::<T>(t);
        lemma_stable_sort_stable(init, t);
        lemma_stable_sort_sorted(init);
        lemma_insert_pos(prev, x.spec_time());
        let pos = insert_pos(prev, x.spec_time());
        let front = prev.take(pos);
        let back = prev.skip(pos);
        let out = prev.insert(pos, x);
        assert(prev =~= front + back);
        assert(out =~= front + seq![x] + back);
        Seq::filter_distributes_over_add(front, back, pred);
        Seq::filter_distributes_over_add(front, seq![x], pred);
        Seq::filter_distributes_over_add(front + seq![x], back, pred);
        assert(seq![x].drop_last() =~= Seq::<T>::empty());
        assert(Seq::<T>::empty().filter(pred) =~= Seq::<T>::empty());
        if x.spec_time() == t {
            assert forall|i: int| 0 <= i < back.len() implies (#[trigger] back[i]).spec_time()
                != t by {
                assert(back[i] == prev[pos + i]);
            }
            lemma_at_time_none(back, t);
            assert(seq![x].filter(pred) =~= seq![x]);
            assert(out.filter(pred) =~= front.filter(pred).push(x));
            assert(prev.filter(pred) =~= front.filter(pred));
        } else {
            assert(seq![x].filter(pred) =~= Seq::<T>::empty());
            assert(out.filter(pred) =~= front.filter(pred) + back.filter(pred));
        }
    }
}

/// Putting an item in whose time no item of `s` has keeps the times distinct.
pub proof fn lemma_insert_keeps_distinct<T: Timed>(s: Seq<T>, pos: int, x: T)
    requires
        0 <= pos <= s.len(),
        distinct_times(s),
        forall|i: int| 0 <= i < s.len() ==> (#[trigger] s[i]).spec_time() != x.spec_time(),
    ensures
        distinct_times(s.insert(pos, x)),
{
    let out = s.insert(pos, x);
    assert forall|i: int, j: int| 0 <= i < j < out.len() implies out[i].spec_time()
        != out[j].spec_time() by {
        if i < pos {
            assert(out[i] == s[i]);
        } else if i > pos {
            assert(out[i] == s[i - 1]);
        }
        if j < pos {
            assert(out[j] == s[j]);
        } else if j > pos {
            assert(out[j] == s[j - 1]);
        }
    }
}

/// Every item of the sorted sequence is an item of the sequence.
pub proof fn lemma_stable_sort_items<T: Timed>(s: Seq<T>)
    ensures
        forall|i: int|
            0 <= i < stable_sort(s).len() ==> s.contains(#[trigger] stable_sort(s)[i]),
{
    broadcast use vstd::seq_lib::group_to_multiset_ensures;

    lemma_stable_sort_permutes(s);
    let sorted = stable_sort(s);
    assert forall|i: int| 0 <= i < sorted.len() implies s.contains(#[trigger] sorted[i]) by {
        assert(sorted.contains(sorted[i]));
        assert(s.to_multiset().count(sorted[i]) > 0);
    }
}

/// Sorting keeps the times distinct.
pub proof fn lemma_stable_sort_distinct<T: Timed>(s: Seq<T>)
    requires
        distinct_times(s),
    ensures
        distinct_times(stable_sort(s)),
    decreases s.len(),
{
    if s.len() > 0 {
        let init = s.drop_last();
        let prev = stable_sort(init);
        let x = s.last();
        assert forall|i: int, j: int| 0 <= i < j < init.len() implies init[i].spec_time()
            != init[j].spec_time() by {
            assert(init[i] == s[i]);
            assert(init[j] == s[j]);
        }
        lemma_stable_sort_distinct(init);
        lemma_stable_sort_sorted(init);
        lemma_stable_sort_items(init);
        lemma_insert_pos(prev, x.spec_time());
        assert forall|i: int| 0 <= i < prev.len() implies (#[trigger] prev[i]).spec_time()
            != x.spec_time() by {
            assert(init.contains(prev[i]));
            let k = choose|k: int| 0 <= k < init.len() && init[k] == prev[i];
            assert(s[k] == init[k]);
            assert(s[k].spec_time() != s[s.len() - 1].spec_time());
        }
        lemma_insert_keeps_distinct(prev, insert_pos(prev, x.spec_time()), x);
    }
}

/// Two sequences in order that hold the same items, no two of one time, are
/// the same sequence.
pub proof fn lemma_sorted_unique<T: Timed>(x: Seq<T>, y: Seq<T>)
    requires
        is_sorted(x),
        is_sorted(y),
        distinct_times(x),
        x.to_multiset() == y.to_multiset(),
    ensures
        x == y,
    decreases x.len(),
{
    broadcast use vstd::seq_lib::group_to_multiset_ensures;

    assert(x.len() == x.to_multiset().len());
    assert(y.len() == y.to_multiset().len());
    if x.len() == 0 {
        assert(x =~= y);
    } else {
        let n = x.len() as int;
        let xl = x[n - 1];
        let yl = y[n - 1];
        // each last item occurs in the other sequence
        assert(x.contains(xl));
        assert(y.to_multiset().count(xl) > 0);
        assert(y.contains(xl));
        let k = choose|k: int| 0 <= k < y.len() && y[k] == xl;
        assert(y.contains(yl));
        assert(x.to_multiset().count(yl) > 0);
        assert(x.contains(yl));
        let m = choose|m: int| 0 <= m < x.len() && x[m] == yl;
        // so they share a time, and with it a place in x
        assert(y[k].spec_time() <= y[n - 1].spec_time());
        assert(x[m].spec_time() <= x[n - 1].spec_time());
        assert(m == n - 1);
        assert(xl == yl);
        let xi = x.drop_last();
        let yi = y.drop_last();
        assert(xi =~= x.remove(n - 1));
        assert(yi =~= y.remove(n - 1));
        assert(xi.to_multiset() == yi.to_multiset());
        assert forall|i: int, j: int| 0 <= i <= j < xi.len() implies xi[i].spec_time()
            <= xi[j].spec_time() by {
            assert(xi[i] == x[i]);
            assert(xi[j] == x[j]);
        }
        assert forall|i: int, j: int| 0 <= i <= j < yi.len() implies yi[i].spec_time()
            <= yi[j].spec_time() by {
            assert(yi[i] == y[i]);
            assert(yi[j] == y[j]);
        }
        assert forall|i: int, j: int| 0 <= i < j < xi.len() implies xi[i].spec_time()
            != xi[j].spec_time() by {
            assert(xi[i] == x[i]);
            assert(xi[j] == x[j]);
        }
        lemma_sorted_unique(xi, yi);
        assert(x =~= xi.push(xl));
        assert(y =~= yi.push(yl));
    }
}

/// Where no two items share a time, the sorted sequence does not depend on
/// the order in which the items came in.
pub proof fn lemma_stable_sort_order_independent<T: Timed>(a: Seq<T>, b: Seq<T>)
    requires
        distinct_times(a),
        a.to_multiset() == b.to_multiset(),
    ensures
        stable_sort(a) == stable_sort(b),
{
    lemma_stable_sort_sorted(a);
    lemma_stable_sort_sorted(b);
    lemma_stable_sort_permutes(a);
    lemma_stable_sort_permutes(b);
    lemma_stable_sort_distinct(a);
    lemma_sorted_unique(stable_sort(a), stable_sort(b));
}

/// Sorts by time, keeping items of equal time in the order they came in.
pub fn sort_by_time<T: Timed>(v: &Vec<T>) -> (r: Vec<T>)
    ensures
        r@ == stable_sort(v@),
        r@.len() == v@.len(),
        is_sorted(r@),
        r@.to_multiset() == v@.to_multiset(),
{
    let mut out: Vec<T> = Vec::new();
    let mut i: usize = 0;
    assert(v@.take(0) =~= Seq::<T>::empty());
    while i < v.len()
        invariant
            i <= v.len(),
            out@ == stable_sort(v@.take(i as int)),
            out@.len() == i,
        decreases v.len() - i,
    {
        let x = v[i];
        let t = x.time();
        let mut j: usize = out.len();
        assert(out@.take(j as int) =~= out@);
        while j > 0 && out[j - 1].time() > t
            invariant
                j <= out.len(),
                insert_pos(out@, t) == insert_pos(out@.take(j as int), t),
            decreases j,
        {
            assert(out@.take(j as int).drop_last() =~= out@.take(j - 1));
            j = j - 1;
        }
        proof {
            assert(out@.take(out.len() as int) =~= out@);
            if j > 0 {
                assert(out@.take(j as int).last() == out@[j - 1]);
            }
            assert(insert_pos(out@, t) == j);
            assert(v@.take(i + 1).drop_last() =~= v@.take(i as int));
            assert(v@.take(i + 1).last() == x);
        }
        out.insert(j, x);
        i = i + 1;
    }
    proof {
        assert(v@.take(v.len() as int) =~= v@);
        lemma_stable_sort_sorted(v@);
        lemma_stable_sort_permutes(v@);
    }
    out
}

} // verus!
