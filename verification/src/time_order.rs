//! Putting price points in the order of their timestamps.

use vstd::prelude::*;
use vstd::seq_lib::{to_multiset_contains, to_multiset_insert, to_multiset_len, to_multiset_remove};
use crate::messages::PricePoint;

verus! {

/// No point of `s` is earlier than a point before it.
pub open spec fn in_time_order(s: Seq<PricePoint>) -> bool {
    forall|i: int, j: int| 0 <= i < j < s.len() ==> s[i].timestamp <= s[j].timestamp
}

/// `sorted` with `p` put behind the last point that is not later than `p`.
pub open spec fn inserted_by_time(sorted: Seq<PricePoint>, p: PricePoint) -> Seq<PricePoint>
    decreases sorted.len(),
{
    if sorted.len() == 0 {
        seq![p]
    } else if sorted.last().timestamp <= p.timestamp {
        sorted.push(p)
    } else {
        inserted_by_time(sorted.drop_last(), p).push(sorted.last())
    }
}

/// The points of `s` from the earliest to the latest; points of one
/// timestamp keep the order that they have in `s`.
pub open spec fn sorted_by_time(s: Seq<PricePoint>) -> Seq<PricePoint>
    decreases s.len(),
{
    if s.len() == 0 {
        Seq::empty()
    } else {
        inserted_by_time(sorted_by_time(s.drop_last()), s.last())
    }
}

/// Where all points of `sorted` from index `at` on are later than `p`, `p`
/// goes in among the points before `at`.
proof fn lemma_insert_skips_later(sorted: Seq<PricePoint>, p: PricePoint, at: int)
    requires
        0 <= at <= sorted.len(),
        forall|k: int| at <= k < sorted.len() ==> sorted[k].timestamp > p.timestamp,
    ensures
        inserted_by_time(sorted, p) == inserted_by_time(sorted.take(at), p) + sorted.skip(at),
    decreases sorted.len() - at,
{
    if at == sorted.len() {
        assert(sorted.take(at) =~= sorted);
    } else {
        let head = sorted.drop_last();
        lemma_insert_skips_later(head, p, at);
        assert(head.take(at) =~= sorted.take(at));
        assert((inserted_by_time(sorted.take(at), p) + head.skip(at)).push(sorted.last())
            =~= inserted_by_time(sorted.take(at), p) + sorted.skip(at));
    }
}

/// Puts `points` in the order of their timestamps, from the earliest to the
/// latest. Points of one timestamp keep their order.
pub fn sort_by_time(points: &mut Vec<PricePoint>)
    ensures
        final(points)@ == sorted_by_time(old(points)@),
{
    let n = points.len();
    let mut i: usize = 0;
    while i < n
        invariant
            i <= n,
            n == points@.len(),
            n == old(points)@.len(),
            points@.take(i as int) == sorted_by_time(old(points)@.take(i as int)),
            forall|k: int| i <= k < n ==> points@[k] == old(points)@[k],
        decreases n - i,
    {
        let p = points[i];
        let ghost before = points@;
        let ghost sorted = points@.take(i as int);
        let mut j: usize = i;
        while j > 0 && points[j - 1].timestamp > p.timestamp
            invariant
                j <= i < n,
                n == points@.len(),
                forall|k: int| 0 <= k < j ==> points@[k] == sorted[k],
                forall|k: int| j < k <= i ==> points@[k] == sorted[k - 1],
                forall|k: int| i < k < n ==> points@[k] == before[k],
                forall|k: int| j <= k < i ==> sorted[k].timestamp > p.timestamp,
                sorted.len() == i,
            decreases j,
        {
            let moved = points[j - 1];
            points.set(j, moved);
            j -= 1;
        }
        points.set(j, p);
        proof {
            lemma_insert_skips_later(sorted, p, j as int);
            assert(old(points)@.take(i + 1).drop_last() =~= old(points)@.take(i as int));
        }
        i += 1;
    }
    assert(old(points)@.take(n as int) =~= old(points)@);
}

/// No two points of `s` have the same timestamp.
pub open spec fn distinct_times(s: Seq<PricePoint>) -> bool {
    forall|i: int, j: int| 0 <= i < j < s.len() ==> s[i].timestamp != s[j].timestamp
}

/// The index at which `inserted_by_time` puts `p` into `sorted`.
pub open spec fn insert_position(sorted: Seq<PricePoint>, p: PricePoint) -> int
    decreases sorted.len(),
{
    if sorted.len() == 0 {
        0
    } else if sorted.last().timestamp <= p.timestamp {
        sorted.len() as int
    } else {
        insert_position(sorted.drop_last(), p)
    }
}

/// `inserted_by_time` puts `p` in at `insert_position`: behind a point that
/// is not later than `p`, and before points that are all later.
pub proof fn lemma_inserted_at_position(sorted: Seq<PricePoint>, p: PricePoint)
    ensures
        0 <= insert_position(sorted, p) <= sorted.len(),
        inserted_by_time(sorted, p) == sorted.insert(insert_position(sorted, p), p),
        forall|j: int|
            insert_position(sorted, p) <= j < sorted.len() ==> sorted[j].timestamp > p.timestamp,
        insert_position(sorted, p) > 0 ==> sorted[insert_position(sorted, p) - 1].timestamp
            <= p.timestamp,
    decreases sorted.len(),
{
    if sorted.len() > 0 && sorted.last().timestamp > p.timestamp {
        let head = sorted.drop_last();
        lemma_inserted_at_position(head, p);
        let at = insert_position(head, p);
        assert forall|j: int| at <= j < sorted.len() implies sorted[j].timestamp
            > p.timestamp by {
            if j < head.len() {
                assert(head[j] == sorted[j]);
            }
        }
    }
}

/// Putting a point into a series in time order leaves it in time order.
pub proof fn lemma_inserted_in_time_order(sorted: Seq<PricePoint>, p: PricePoint)
    requires
        in_time_order(sorted),
    ensures
        in_time_order(inserted_by_time(sorted, p)),
{
    // the point goes in behind points that are not later and before later ones
    lemma_inserted_at_position(sorted, p);
}

/// The sorted series is in time order.
pub proof fn lemma_sorted_in_time_order(s: Seq<PricePoint>)
    ensures
        in_time_order(sorted_by_time(s)),
    decreases s.len(),
{
    if s.len() > 0 {
        lemma_sorted_in_time_order(s.drop_last());
        lemma_inserted_in_time_order(sorted_by_time(s.drop_last()), s.last());
    }
}

/// The sorted series holds the points of the series, each as often as the
/// series holds it, and so has its length.
pub proof fn lemma_sorted_keeps_points(s: Seq<PricePoint>)
    ensures
        sorted_by_time(s).to_multiset() == s.to_multiset(),
        sorted_by_time(s).len() == s.len(),
    decreases s.len(),
{
    if s.len() > 0 {
        let head = s.drop_last();
        lemma_sorted_keeps_points(head);
        lemma_inserted_at_position(sorted_by_time(head), s.last());
        to_multiset_insert(
            sorted_by_time(head),
            insert_position(sorted_by_time(head), s.last()),
            s.last(),
        );
        assert(head.push(s.last()) =~= s);
        head.to_multiset_ensures();
    }
    to_multiset_len(s);
    to_multiset_len(sorted_by_time(s));
}

/// Sorting a series of distinct timestamps gives one of distinct timestamps.
pub proof fn lemma_sorted_distinct_times(s: Seq<PricePoint>)
    requires
        distinct_times(s),
    ensures
        distinct_times(sorted_by_time(s)),
    decreases s.len(),
{
    if s.len() > 0 {
        let head = s.drop_last();
        let p = s.last();
        let sorted = sorted_by_time(head);
        assert(distinct_times(head));
        lemma_sorted_distinct_times(head);
        lemma_sorted_keeps_points(head);
        lemma_inserted_at_position(sorted, p);
        // every point of the sorted head is a point of the head, and so has
        // another timestamp than `p`
        assert forall|k: int| 0 <= k < sorted.len() implies sorted[k].timestamp
            != p.timestamp by {
            to_multiset_contains(sorted, sorted[k]);
            to_multiset_contains(head, sorted[k]);
        }
    }
}

/// Two series in time order that hold the same points, no two of them of
/// one timestamp, are the same series.
pub proof fn lemma_time_order_is_unique(a: Seq<PricePoint>, b: Seq<PricePoint>)
    requires
        in_time_order(a),
        in_time_order(b),
        distinct_times(a),
        a.to_multiset() == b.to_multiset(),
    ensures
        a == b,
    decreases a.len(),
{
    to_multiset_len(a);
    to_multiset_len(b);
    if a.len() > 0 {
        let x = a.last();
        let y = b.last();
        // each series holds the last point of the other; neither of the two
        // is later than the other, so they are one point
        to_multiset_contains(a, x);
        to_multiset_contains(b, x);
        to_multiset_contains(a, y);
        to_multiset_contains(b, y);
        assert(x == y);
        // without it the two series still hold the same points
        let a_head = a.drop_last();
        let b_head = b.drop_last();
        to_multiset_remove(a, a.len() - 1);
        to_multiset_remove(b, b.len() - 1);
        assert(in_time_order(a_head));
        assert(in_time_order(b_head));
        assert(distinct_times(a_head));
        lemma_time_order_is_unique(a_head, b_head);
        assert(a =~= a_head.push(x));
        assert(b =~= b_head.push(y));
    }
}

/// Series that hold the same points, no two of them of one timestamp, sort
/// to the same series, in whatever order each holds them.
pub proof fn lemma_sorted_whatever_the_order(a: Seq<PricePoint>, b: Seq<PricePoint>)
    requires
        distinct_times(a),
        a.to_multiset() == b.to_multiset(),
    ensures
        sorted_by_time(a) == sorted_by_time(b),
{
    lemma_sorted_in_time_order(a);
    lemma_sorted_in_time_order(b);
    lemma_sorted_distinct_times(a);
    lemma_sorted_keeps_points(a);
    lemma_sorted_keeps_points(b);
    lemma_time_order_is_unique(sorted_by_time(a), sorted_by_time(b));
}

} // verus!
