//! Order of eviction: least recently accessed first.

use vstd::prelude::*;
use vstd::seq_lib::*;

verus! {

/// The candidates stand from the least to the most recently accessed.
pub open spec fn oldest_first(list: Seq<((i64, u64, usize), u64)>) -> bool {
    forall|i: int, j: int| 0 <= i <= j < list.len() ==> (#[trigger] list[i]).1 <= (#[trigger] list[j]).1
}

/// The candidates that were accessed at the given time, in their order.
pub open spec fn accessed_at(list: Seq<((i64, u64, usize), u64)>, time: u64) -> Seq<
    ((i64, u64, usize), u64),
> {
    list.filter(|c: ((i64, u64, usize), u64)| c.1 == time)
}

/// A candidate that goes in behind all that are not later comes last among those of its time,
/// and changes nothing among those of another.
proof fn lemma_insert_accessed_at(
    list: Seq<((i64, u64, usize), u64)>,
    at: int,
    candidate: ((i64, u64, usize), u64),
    time: u64,
)
    requires
        0 <= at <= list.len(),
        forall|i: int| at <= i < list.len() ==> (#[trigger] list[i]).1 > candidate.1,
    ensures
        accessed_at(list.insert(at, candidate), time) == if candidate.1 == time {
            accessed_at(list, time).push(candidate)
        } else {
            accessed_at(list, time)
        },
    decreases list.len() - at,
{
    reveal(Seq::filter);
    let longer = list.insert(at, candidate);
    if at == list.len() {
        assert(longer =~= list.push(candidate));
        assert(longer.drop_last() =~= list);
    } else {
        let front = list.drop_last();
        assert(longer.drop_last() =~= front.insert(at, candidate));
        assert(longer.last() == list.last());
        assert forall|i: int| at <= i < front.len() implies (#[trigger] front[i]).1
            > candidate.1 by {
            assert(list[i].1 > candidate.1);
        }
        lemma_insert_accessed_at(front, at, candidate, time);
        assert(list.last().1 > candidate.1);
    }
}

/// Where a candidate with the given time belongs: behind all that are not later.
fn position_after(list: &Vec<((i64, u64, usize), u64)>, time: u64) -> (r: usize)
    requires
        oldest_first(list@),
    ensures
        r <= list@.len(),
        forall|i: int| 0 <= i < r ==> (#[trigger] list@[i]).1 <= time,
        forall|i: int| r <= i < list@.len() ==> (#[trigger] list@[i]).1 > time,
{
    let mut low: usize = 0;
    let mut high: usize = list.len();
    while low < high
        invariant
            low <= high <= list@.len(),
            oldest_first(list@),
            forall|i: int| 0 <= i < low ==> (#[trigger] list@[i]).1 <= time,
            forall|i: int| high <= i < list@.len() ==> (#[trigger] list@[i]).1 > time,
        decreases high - low,
    {
        let mid: usize = low + (high - low) / 2;
        if list[mid].1 <= time {
            low = mid + 1;
        } else {
            high = mid;
        }
    }
    low
}

/// The candidates, least recently accessed first; those accessed at the same time keep their
/// order.
pub fn sort_by_access(list: &Vec<((i64, u64, usize), u64)>) -> (r: Vec<
    ((i64, u64, usize), u64),
>)
    ensures
        oldest_first(r@),
        r@.to_multiset() == list@.to_multiset(),
        forall|time: u64| #[trigger] accessed_at(r@, time) == accessed_at(list@, time),
{
    let mut out: Vec<((i64, u64, usize), u64)> = Vec::new();
    let mut i: usize = 0;
    assert(list@.take(0) =~= out@);
    while i < list.len()
        invariant
            i <= list@.len(),
            oldest_first(out@),
            out@.to_multiset() == list@.take(i as int).to_multiset(),
            out@.len() == i,
            forall|time: u64| #[trigger]
                accessed_at(out@, time) == accessed_at(list@.take(i as int), time),
        decreases list@.len() - i,
    {
        let candidate = list[i];
        let at = position_after(&out, candidate.1);
        proof {
            to_multiset_insert(out@, at as int, candidate);
            to_multiset_build(list@.take(i as int), candidate);
            assert(list@.take(i as int).push(candidate) =~= list@.take(i + 1));
            assert forall|time: u64| #[trigger]
                accessed_at(out@.insert(at as int, candidate), time) == accessed_at(
                    list@.take(i + 1),
                    time,
                ) by {
                lemma_insert_accessed_at(out@, at as int, candidate, time);
                lemma_insert_accessed_at(list@.take(i as int), i as int, candidate, time);
                assert(list@.take(i as int).insert(i as int, candidate) =~= list@.take(i + 1));
                assert(accessed_at(out@, time) == accessed_at(list@.take(i as int), time));
            }
        }
        out.insert(at, candidate);
        i = i + 1;
    }
    assert(list@.take(i as int) =~= list@);
    out
}

/// A list without duplicates has none in any order.
pub proof fn lemma_reordered(
    list: Seq<((i64, u64, usize), u64)>,
    sorted: Seq<((i64, u64, usize), u64)>,
)
    requires
        sorted.to_multiset() == list.to_multiset(),
        list.no_duplicates(),
    ensures
        sorted.no_duplicates(),
        sorted.len() == list.len(),
        forall|x: ((i64, u64, usize), u64)| sorted.contains(x) <==> list.contains(x),
{
    list.lemma_multiset_has_no_duplicates();
    sorted.lemma_multiset_has_no_duplicates_conv();
    to_multiset_len(list);
    to_multiset_len(sorted);
    assert forall|x: ((i64, u64, usize), u64)| sorted.contains(x) <==> list.contains(x) by {
        to_multiset_contains(list, x);
        to_multiset_contains(sorted, x);
    }
}

/// Sorting puts the candidates from the least to the most recently accessed, loses none and adds
/// none, and leaves those of the same time in their order.
pub proof fn law_sorted_oldest_first(
    list: Vec<((i64, u64, usize), u64)>,
    r: Vec<((i64, u64, usize), u64)>,
    i: int,
    j: int,
    c: ((i64, u64, usize), u64),
    time: u64,
    of_time: spec_fn(((i64, u64, usize), u64)) -> bool,
)
    requires
        call_ensures(sort_by_access, (&list,), r),
        0 <= i <= j < r@.len(),
        forall|x: ((i64, u64, usize), u64)| #[trigger] of_time(x) == (x.1 == time),
    ensures
        r@[i].1 <= r@[j].1,
        r@.len() == list@.len(),
        r@.to_multiset().count(c) == list@.to_multiset().count(c),
        r@.contains(c) <==> list@.contains(c),
        r@.filter(of_time) == list@.filter(of_time),
{
    to_multiset_len(list@);
    to_multiset_len(r@);
    to_multiset_contains(list@, c);
    to_multiset_contains(r@, c);
    lemma_accessed_at(r@, time, of_time);
    lemma_accessed_at(list@, time, of_time);
    assert(accessed_at(r@, time) == accessed_at(list@, time));
}

proof fn lemma_accessed_at(
    list: Seq<((i64, u64, usize), u64)>,
    time: u64,
    of_time: spec_fn(((i64, u64, usize), u64)) -> bool,
)
    requires
        forall|x: ((i64, u64, usize), u64)| #[trigger] of_time(x) == (x.1 == time),
    ensures
        accessed_at(list, time) == list.filter(of_time),
    decreases list.len(),
{
    reveal(Seq::filter);
    if list.len() > 0 {
        lemma_accessed_at(list.drop_last(), time, of_time);
        assert(of_time(list.last()) == (list.last().1 == time));
    }
}

} // verus!
