//! The order of the statistics: by a count, with records of equal count left
//! in the order in which they came.

use crate::ftl::memory_model::Counted;
use vstd::prelude::*;

verus! {

/// The count by which a record is ordered: its blocked queries, or all its queries.
pub open spec fn count_of<T: Counted>(record: T, blocked: bool) -> int {
    record.counted(blocked)
}

/// The number by which records are put in rising order: the count itself for
/// an ascending list, its negative for a descending one.
pub open spec fn rank<T: Counted>(record: T, blocked: bool, ascending: bool) -> int {
    if ascending {
        count_of(record, blocked)
    } else {
        -count_of(record, blocked)
    }
}

/// Where a record goes into an ordered list: behind every record which it
/// does not have to precede.
pub open spec fn place<T: Counted>(
    sorted: Seq<T>,
    record: T,
    blocked: bool,
    ascending: bool,
) -> int
    decreases sorted.len(),
{
    if sorted.len() > 0 && rank(record, blocked, ascending) < rank(
        sorted.last(),
        blocked,
        ascending,
    ) {
        place(sorted.drop_last(), record, blocked, ascending)
    } else {
        sorted.len() as int
    }
}

/// The records in order: each is put, in turn, into the order of those before it.
pub open spec fn sort_records<T: Counted>(records: Seq<T>, blocked: bool, ascending: bool) -> Seq<T>
    decreases records.len(),
{
    if records.len() == 0 {
        Seq::empty()
    } else {
        let sorted = sort_records(records.drop_last(), blocked, ascending);
        sorted.insert(place(sorted, records.last(), blocked, ascending), records.last())
    }
}

/// Whether the records stand in rising order of their rank.
pub open spec fn is_ordered<T: Counted>(records: Seq<T>, blocked: bool, ascending: bool) -> bool {
    forall|i: int, j: int|
        0 <= i <= j < records.len() ==> rank(records[i], blocked, ascending) <= rank(
            records[j],
            blocked,
            ascending,
        )
}

/// The place of a record is the one index from which on every record has to
/// follow it, and before which the nearest does not.
pub proof fn lemma_place<T: Counted>(
    sorted: Seq<T>,
    record: T,
    blocked: bool,
    ascending: bool,
    at: int,
)
    requires
        0 <= at <= sorted.len(),
        forall|j: int|
            at <= j < sorted.len() ==> rank(record, blocked, ascending) < rank(
                sorted[j],
                blocked,
                ascending,
            ),
        at == 0 || rank(sorted[at - 1], blocked, ascending) <= rank(record, blocked, ascending),
    ensures
        place(sorted, record, blocked, ascending) == at,
    decreases sorted.len() - at,
{
    if at < sorted.len() {
        lemma_place(sorted.drop_last(), record, blocked, ascending, at);
    }
}

/// What the place of a record is.
pub proof fn lemma_place_is<T: Counted>(
    sorted: Seq<T>,
    record: T,
    blocked: bool,
    ascending: bool,
)
    ensures
        0 <= place(sorted, record, blocked, ascending) <= sorted.len(),
        forall|j: int|
            place(sorted, record, blocked, ascending) <= j < sorted.len() ==> rank(
                record,
                blocked,
                ascending,
            ) < rank(#[trigger] sorted[j], blocked, ascending),
        place(sorted, record, blocked, ascending) == 0 || rank(
            sorted[place(sorted, record, blocked, ascending) - 1],
            blocked,
            ascending,
        ) <= rank(record, blocked, ascending),
    decreases sorted.len(),
{
    if sorted.len() > 0 && rank(record, blocked, ascending) < rank(
        sorted.last(),
        blocked,
        ascending,
    ) {
        let rest = sorted.drop_last();
        lemma_place_is(rest, record, blocked, ascending);
        let at = place(rest, record, blocked, ascending);
        assert forall|j: int| at <= j < sorted.len() implies rank(record, blocked, ascending)
            < rank(#[trigger] sorted[j], blocked, ascending) by {
            if j < rest.len() {
                assert(sorted[j] == rest[j]);
            }
        }
        if at > 0 {
            assert(sorted[at - 1] == rest[at - 1]);
        }
    }
}

/// The sorted records are the given records in another order.
pub proof fn lemma_sort_keeps_records<T: Counted>(records: Seq<T>, blocked: bool, ascending: bool)
    ensures
        sort_records(records, blocked, ascending).len() == records.len(),
        sort_records(records, blocked, ascending).to_multiset() == records.to_multiset(),
    decreases records.len(),
{
    broadcast use vstd::seq_lib::to_multiset_insert, vstd::seq_lib::to_multiset_build;

    if records.len() > 0 {
        let rest = records.drop_last();
        let sorted = sort_records(rest, blocked, ascending);
        lemma_sort_keeps_records(rest, blocked, ascending);
        lemma_place_is(sorted, records.last(), blocked, ascending);
        assert(records == rest.push(records.last()));
    } else {
        assert(records == Seq::<T>::empty());
    }
}

/// The sorted records stand in order: descending by count, or ascending
/// where that was asked for.
pub proof fn lemma_sort_orders<T: Counted>(records: Seq<T>, blocked: bool, ascending: bool)
    ensures
        is_ordered(sort_records(records, blocked, ascending), blocked, ascending),
    decreases records.len(),
{
    if records.len() > 0 {
        let rest = records.drop_last();
        let record = records.last();
        let sorted = sort_records(rest, blocked, ascending);
        lemma_sort_orders(rest, blocked, ascending);
        lemma_place_is(sorted, record, blocked, ascending);
        let at = place(sorted, record, blocked, ascending);
        let result = sorted.insert(at, record);
        assert forall|i: int, j: int| 0 <= i <= j < result.len() implies rank(
            result[i],
            blocked,
            ascending,
        ) <= rank(result[j], blocked, ascending) by {
            if i < at {
                assert(result[i] == sorted[i]);
                assert(rank(sorted[i], blocked, ascending) <= rank(
                    sorted[at - 1],
                    blocked,
                    ascending,
                ));
            } else if i > at {
                assert(result[i] == sorted[i - 1]);
            }
            if j < at {
                assert(result[j] == sorted[j]);
            } else if j > at {
                assert(result[j] == sorted[j - 1]);
            }
        }
    }
}

/// The records of one count, in the order in which they stand.
pub open spec fn with_count<T: Counted>(records: Seq<T>, blocked: bool, count: int) -> Seq<T> {
    records.filter(|record: T| count_of(record, blocked) == count)
}

/// The sort is stable: the records of any one count stand after it as they
/// stood before it.
pub proof fn lemma_sort_is_stable<T: Counted>(
    records: Seq<T>,
    blocked: bool,
    ascending: bool,
    count: int,
)
    ensures
        with_count(sort_records(records, blocked, ascending), blocked, count) == with_count(
            records,
            blocked,
            count,
        ),
    decreases records.len(),
{
    let same = |record: T| count_of(record, blocked) == count;
    if records.len() > 0 {
        let rest = records.drop_last();
        let record = records.last();
        let sorted = sort_records(rest, blocked, ascending);
        lemma_sort_is_stable(rest, blocked, ascending, count);
        lemma_place_is(sorted, record, blocked, ascending);
        let at = place(sorted, record, blocked, ascending);
        let before = sorted.subrange(0, at);
        let after = sorted.subrange(at, sorted.len() as int);
        assert(sorted == before + after);
        assert(sorted.insert(at, record) == before.push(record) + after);
        Seq::filter_distributes_over_add(before, after, same);
        Seq::filter_distributes_over_add(before.push(record), after, same);
        before.lemma_filter_push(record, same);
        assert(records == rest.push(record));
        rest.lemma_filter_push(record, same);
        if same(record) {
            assert(after.all(|x: T| !same(x))) by {
                assert forall|j: int| 0 <= j < after.len() implies !same(#[trigger] after[j]) by {
                    assert(after[j] == sorted[at + j]);
                }
            }
            after.lemma_all_neg_filter_empty(same);
            assert(after.filter(same) == Seq::<T>::empty());
        }
    }
}

/// What two stable sorts of the same records cannot differ in: a list which
/// is ordered, and holds the records of each count as they stood, is the
/// sorted list.
pub open spec fn is_stable_sort_of<T: Counted>(
    sorted: Seq<T>,
    records: Seq<T>,
    blocked: bool,
    ascending: bool,
) -> bool {
    &&& is_ordered(sorted, blocked, ascending)
    &&& forall|count: int|
        #[trigger] with_count(sorted, blocked, count) == with_count(records, blocked, count)
}

/// The sorted records are a stable sort of the records.
pub proof fn lemma_sort_is_stable_sort<T: Counted>(records: Seq<T>, blocked: bool, ascending: bool)
    ensures
        is_stable_sort_of(sort_records(records, blocked, ascending), records, blocked, ascending),
{
    lemma_sort_orders(records, blocked, ascending);
    assert forall|count: int|
        #[trigger] with_count(sort_records(records, blocked, ascending), blocked, count)
            == with_count(records, blocked, count) by {
        lemma_sort_is_stable(records, blocked, ascending, count);
    }
}

/// A list which stands in order is its own sort.
pub proof fn lemma_sort_of_ordered<T: Counted>(records: Seq<T>, blocked: bool, ascending: bool)
    requires
        is_ordered(records, blocked, ascending),
    ensures
        sort_records(records, blocked, ascending) == records,
    decreases records.len(),
{
    if records.len() > 0 {
        let rest = records.drop_last();
        assert forall|i: int, j: int| 0 <= i <= j < rest.len() implies rank(
            rest[i],
            blocked,
            ascending,
        ) <= rank(rest[j], blocked, ascending) by {
            assert(rest[i] == records[i]);
            assert(rest[j] == records[j]);
        }
        lemma_sort_of_ordered(rest, blocked, ascending);
        if rest.len() > 0 {
            assert(rest[rest.len() - 1] == records[rest.len() - 1]);
        }
        lemma_place(rest, records.last(), blocked, ascending, rest.len() as int);
        assert(rest.insert(rest.len() as int, records.last()) == records);
    } else {
        assert(records == Seq::<T>::empty());
    }
}

/// To leave records out does not change the order of the others: the sort of
/// the records which pass a filter is what the filter keeps of the sort of
/// all records.
pub proof fn lemma_sort_commutes_with_filter<T: Counted>(
    records: Seq<T>,
    keep: spec_fn(T) -> bool,
    blocked: bool,
    ascending: bool,
)
    ensures
        sort_records(records.filter(keep), blocked, ascending) == sort_records(
            records,
            blocked,
            ascending,
        ).filter(keep),
    decreases records.len(),
{
    if records.len() == 0 {
        assert(records.filter(keep) == Seq::<T>::empty());
        assert(sort_records(records, blocked, ascending) == Seq::<T>::empty());
        assert(Seq::<T>::empty().filter(keep) == Seq::<T>::empty());
        assert(sort_records(Seq::<T>::empty(), blocked, ascending) == Seq::<T>::empty());
    } else {
        let rest = records.drop_last();
        let record = records.last();
        let sorted = sort_records(rest, blocked, ascending);
        lemma_sort_commutes_with_filter(rest, keep, blocked, ascending);
        lemma_sort_orders(rest, blocked, ascending);
        lemma_place_is(sorted, record, blocked, ascending);
        let at = place(sorted, record, blocked, ascending);
        let before = sorted.subrange(0, at);
        let after = sorted.subrange(at, sorted.len() as int);
        assert(sorted == before + after);
        assert(sorted.insert(at, record) == before.push(record) + after);
        Seq::filter_distributes_over_add(before, after, keep);
        Seq::filter_distributes_over_add(before.push(record), after, keep);
        before.lemma_filter_push(record, keep);
        assert(records == rest.push(record));
        rest.lemma_filter_push(record, keep);
        if keep(record) {
            let early = before.filter(keep);
            let late = after.filter(keep);
            let kept = early + late;
            assert(kept == sort_records(rest.filter(keep), blocked, ascending));
            assert forall|j: int| early.len() <= j < kept.len() implies rank(
                record,
                blocked,
                ascending,
            ) < rank(kept[j], blocked, ascending) by {
                let item = late[j - early.len()];
                assert(kept[j] == item);
                assert(late.contains(item));
                after.lemma_filter_contains_rev(keep, item);
                let k = choose|k: int| 0 <= k < after.len() && after[k] == item;
                assert(after[k] == sorted[at + k]);
            }
            if early.len() > 0 {
                let item = early.last();
                assert(kept[early.len() - 1] == item);
                assert(early.contains(item));
                before.lemma_filter_contains_rev(keep, item);
                let k = choose|k: int| 0 <= k < before.len() && before[k] == item;
                assert(before[k] == sorted[k]);
                assert(rank(sorted[k], blocked, ascending) <= rank(
                    sorted[at - 1],
                    blocked,
                    ascending,
                ));
            }
            lemma_place(kept, record, blocked, ascending, early.len() as int);
            assert(kept.insert(early.len() as int, record) == early.push(record) + late);
            let passed = rest.filter(keep);
            assert(passed.push(record).drop_last() == passed);
            assert(passed.push(record).last() == record);
            assert(sort_records(passed.push(record), blocked, ascending) == kept.insert(
                early.len() as int,
                record,
            ));
        } else {
            assert(sort_records(records, blocked, ascending).filter(keep) == sorted.filter(keep));
        }
    }
}

/// Whether `a` has to stand before `b`.
fn precedes<T: Counted>(a: &T, b: &T, blocked: bool, ascending: bool) -> (r: bool)
    ensures
        r == (rank(*a, blocked, ascending) < rank(*b, blocked, ascending)),
{
    let left = a.count(blocked);
    let right = b.count(blocked);
    if ascending {
        left < right
    } else {
        left > right
    }
}

/// Sort the records by their count, descending or ascending. Clients of the
/// same count keep their order.
pub fn sort_by_count<T: Counted>(records: &mut Vec<T>, blocked: bool, ascending: bool)
    ensures
        final(records)@ == sort_records(old(records)@, blocked, ascending),
{
    let mut sorted: Vec<T> = Vec::new();
    let mut i: usize = 0;
    assert(records@.take(0) == Seq::<T>::empty());
    while i < records.len()
        invariant
            i <= records.len(),
            records@ == old(records)@,
            sorted@ == sort_records(records@.take(i as int), blocked, ascending),
            sorted.len() == i,
        decreases records.len() - i,
    {
        let record = records[i];
        let mut at: usize = sorted.len();
        while at > 0 && precedes(&record, &sorted[at - 1], blocked, ascending)
            invariant
                at <= sorted.len(),
                forall|j: int|
                    at <= j < sorted.len() ==> rank(record, blocked, ascending) < rank(
                        sorted@[j],
                        blocked,
                        ascending,
                    ),
            decreases at,
        {
            at = at - 1;
        }
        proof {
            lemma_place(sorted@, record, blocked, ascending, at as int);
            assert(records@.take(i + 1).drop_last() == records@.take(i as int));
            assert(records@.take(i + 1).last() == record);
        }
        sorted.insert(at, record);
        i = i + 1;
    }
    assert(records@.take(records.len() as int) == records@);
    *records = sorted;
}

} // verus!
