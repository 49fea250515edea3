//! What holds of filters on sequences, wherever the library filters.

use vstd::prelude::*;

verus! {

/// A filter keeps a sequence whose items all pass it.
pub proof fn lemma_keeps_all<T>(items: Seq<T>, keep: spec_fn(T) -> bool)
    requires
        forall|i: int| 0 <= i < items.len() ==> keep(#[trigger] items[i]),
    ensures
        items.filter(keep) == items,
    decreases items.len(),
{
    if items.len() == 0 {
        assert(items.filter(keep) == Seq::<T>::empty());
    } else {
        let rest = items.drop_last();
        assert forall|i: int| 0 <= i < rest.len() implies keep(#[trigger] rest[i]) by {
            assert(rest[i] == items[i]);
        }
        lemma_keeps_all(rest, keep);
        assert(items == rest.push(items.last()));
        rest.lemma_filter_push(items.last(), keep);
    }
}

/// A filter keeps nothing of items which all fail it.
pub proof fn lemma_keeps_none<T>(items: Seq<T>, pass: spec_fn(T) -> bool)
    requires
        forall|i: int| 0 <= i < items.len() ==> !pass(#[trigger] items[i]),
    ensures
        items.filter(pass) == Seq::<T>::empty(),
    decreases items.len(),
{
    if items.len() == 0 {
        assert(items.filter(pass) == Seq::<T>::empty());
    } else {
        let rest = items.drop_last();
        assert forall|i: int| 0 <= i < rest.len() implies !pass(#[trigger] rest[i]) by {
            assert(rest[i] == items[i]);
        }
        lemma_keeps_none(rest, pass);
        assert(items == rest.push(items.last()));
        rest.lemma_filter_push(items.last(), pass);
    }
}

/// Two conditions which hold of the same items keep the same items.
pub proof fn lemma_filter_same<T>(items: Seq<T>, a: spec_fn(T) -> bool, b: spec_fn(T) -> bool)
    requires
        forall|i: int| 0 <= i < items.len() ==> a(#[trigger] items[i]) == b(items[i]),
    ensures
        items.filter(a) == items.filter(b),
    decreases items.len(),
{
    if items.len() == 0 {
        assert(items.filter(a) == Seq::<T>::empty());
        assert(items.filter(b) == Seq::<T>::empty());
    } else {
        let rest = items.drop_last();
        let item = items.last();
        assert forall|i: int| 0 <= i < rest.len() implies a(#[trigger] rest[i]) == b(rest[i]) by {
            assert(rest[i] == items[i]);
        }
        lemma_filter_same(rest, a, b);
        assert(items == rest.push(item));
        rest.lemma_filter_push(item, a);
        rest.lemma_filter_push(item, b);
    }
}

/// Two filters in a row keep what the two conditions together keep.
pub proof fn lemma_filter_twice<T>(
    items: Seq<T>,
    a: spec_fn(T) -> bool,
    b: spec_fn(T) -> bool,
    both: spec_fn(T) -> bool,
)
    requires
        forall|i: int|
            0 <= i < items.len() ==> both(#[trigger] items[i]) == (a(items[i]) && b(items[i])),
    ensures
        items.filter(a).filter(b) == items.filter(both),
    decreases items.len(),
{
    if items.len() == 0 {
        assert(items.filter(a) == Seq::<T>::empty());
        assert(items.filter(both) == Seq::<T>::empty());
        assert(Seq::<T>::empty().filter(b) == Seq::<T>::empty());
    } else {
        let rest = items.drop_last();
        let item = items.last();
        assert forall|i: int| 0 <= i < rest.len() implies both(#[trigger] rest[i]) == (a(rest[i])
            && b(rest[i])) by {
            assert(rest[i] == items[i]);
        }
        lemma_filter_twice(rest, a, b, both);
        assert(items == rest.push(item));
        rest.lemma_filter_push(item, a);
        rest.lemma_filter_push(item, both);
        rest.filter(a).lemma_filter_push(item, b);
    }
}

/// Three filters in a row keep what the three conditions together keep.
pub proof fn lemma_filter_thrice<T>(
    items: Seq<T>,
    a: spec_fn(T) -> bool,
    b: spec_fn(T) -> bool,
    c: spec_fn(T) -> bool,
    all: spec_fn(T) -> bool,
)
    requires
        forall|item: T| #[trigger] all(item) == (a(item) && b(item) && c(item)),
    ensures
        items.filter(a).filter(b).filter(c) == items.filter(all),
    decreases items.len(),
{
    if items.len() == 0 {
        assert(items.filter(a) == Seq::<T>::empty());
        assert(items.filter(all) == Seq::<T>::empty());
        assert(Seq::<T>::empty().filter(b) == Seq::<T>::empty());
        assert(Seq::<T>::empty().filter(c) == Seq::<T>::empty());
    } else {
        let rest = items.drop_last();
        let item = items.last();
        lemma_filter_thrice(rest, a, b, c, all);
        assert(items == rest.push(item));
        rest.lemma_filter_push(item, a);
        rest.lemma_filter_push(item, all);
        rest.filter(a).lemma_filter_push(item, b);
        rest.filter(a).filter(b).lemma_filter_push(item, c);
    }
}

/// What a filter keeps of items, from their first item and the others.
pub proof fn lemma_filter_first<T>(items: Seq<T>, pass: spec_fn(T) -> bool)
    requires
        items.len() > 0,
    ensures
        items.filter(pass) == if pass(items[0]) {
            seq![items[0]] + items.skip(1).filter(pass)
        } else {
            items.skip(1).filter(pass)
        },
{
    let first = seq![items[0]];
    assert(items == first + items.skip(1));
    Seq::filter_distributes_over_add(first, items.skip(1), pass);
    assert(first == Seq::<T>::empty().push(items[0]));
    Seq::<T>::empty().lemma_filter_push(items[0], pass);
    assert(Seq::<T>::empty().filter(pass) == Seq::<T>::empty());
}

/// The index of the first item that passes, or the number of items where none does.
pub open spec fn first_passing<T>(items: Seq<T>, pass: spec_fn(T) -> bool) -> int
    decreases items.len(),
{
    if items.len() == 0 || pass(items[0]) {
        0
    } else {
        1 + first_passing(items.skip(1), pass)
    }
}

/// What the index of the first item that passes is.
pub proof fn lemma_first_passing_is<T>(items: Seq<T>, pass: spec_fn(T) -> bool)
    ensures
        0 <= first_passing(items, pass) <= items.len(),
        forall|j: int| 0 <= j < first_passing(items, pass) ==> !pass(#[trigger] items[j]),
        first_passing(items, pass) < items.len() ==> pass(items[first_passing(items, pass)]),
    decreases items.len(),
{
    if !(items.len() == 0 || pass(items[0])) {
        let rest = items.skip(1);
        lemma_first_passing_is(rest, pass);
        let at = first_passing(rest, pass);
        assert forall|j: int| 0 <= j < at + 1 implies !pass(#[trigger] items[j]) by {
            if j > 0 {
                assert(items[j] == rest[j - 1]);
            }
        }
        if at < rest.len() {
            assert(items[at + 1] == rest[at]);
        }
    }
}

/// Where the items that pass a filter are those from an index on, the
/// filter keeps the items from that index on.
pub proof fn lemma_filter_is_rest<T>(items: Seq<T>, pass: spec_fn(T) -> bool, from: int)
    requires
        0 <= from <= items.len(),
        forall|j: int| 0 <= j < from ==> !pass(#[trigger] items[j]),
        forall|j: int| from <= j < items.len() ==> pass(#[trigger] items[j]),
    ensures
        items.filter(pass) == items.skip(from),
{
    let early = items.take(from);
    let late = items.skip(from);
    assert(items == early + late);
    Seq::filter_distributes_over_add(early, late, pass);
    lemma_keeps_none(early, pass);
    lemma_keeps_all(late, pass);
}

/// The index in `items` of the item which is the `n`th to pass the filter,
/// counted from zero; the number of items where fewer pass.
pub open spec fn nth_passing<T>(items: Seq<T>, pass: spec_fn(T) -> bool, n: nat) -> int
    decreases items.len(),
{
    if items.len() == 0 {
        0
    } else if pass(items[0]) && n == 0 {
        0
    } else if pass(items[0]) {
        1 + nth_passing(items.skip(1), pass, (n - 1) as nat)
    } else {
        1 + nth_passing(items.skip(1), pass, n)
    }
}

/// The `n`th item to pass a filter stands in the items where `nth_passing`
/// says; the filter keeps `n` items before it, and behind it what it keeps
/// behind the first `n + 1`.
pub proof fn lemma_nth_passing<T>(items: Seq<T>, pass: spec_fn(T) -> bool, n: nat)
    requires
        n < items.filter(pass).len(),
    ensures
        0 <= nth_passing(items, pass, n) < items.len(),
        items[nth_passing(items, pass, n)] == items.filter(pass)[n as int],
        items.skip(nth_passing(items, pass, n) + 1).filter(pass) == items.filter(pass).skip(n as int + 1),
    decreases items.len(),
{
    if items.len() == 0 {
        assert(items.filter(pass) == Seq::<T>::empty());
    } else {
        lemma_filter_first(items, pass);
        let rest = items.skip(1);
        let kept = items.filter(pass);
        if pass(items[0]) && n == 0 {
            assert(items.skip(1).filter(pass) == kept.skip(1));
        } else if pass(items[0]) {
            lemma_nth_passing(rest, pass, (n - 1) as nat);
            let at = nth_passing(rest, pass, (n - 1) as nat);
            assert(items[at + 1] == rest[at]);
            assert(items.skip(at + 2) == rest.skip(at + 1));
            assert(kept.skip(n as int + 1) == rest.filter(pass).skip(n as int));
        } else {
            lemma_nth_passing(rest, pass, n);
            let at = nth_passing(rest, pass, n);
            assert(items[at + 1] == rest[at]);
            assert(items.skip(at + 2) == rest.skip(at + 1));
        }
    }
}

/// A filter keeps the order of the items: of two items that passed, the
/// one which stands first stood first before.
pub proof fn lemma_filter_keeps_order<T>(items: Seq<T>, pass: spec_fn(T) -> bool, n: int, m: int)
    requires
        0 <= n < m < items.filter(pass).len(),
    ensures
        exists|i: int, j: int|
            0 <= i < j < items.len() && #[trigger] items[i] == items.filter(pass)[n]
                && #[trigger] items[j] == items.filter(pass)[m],
{
    let kept = items.filter(pass);
    lemma_nth_passing(items, pass, n as nat);
    let first = nth_passing(items, pass, n as nat);
    let rest = items.skip(first + 1);
    assert(rest.filter(pass) == kept.skip(n + 1));
    lemma_nth_passing(rest, pass, (m - n - 1) as nat);
    let second = nth_passing(rest, pass, (m - n - 1) as nat);
    assert(rest[second] == items[first + 1 + second]);
    assert(kept.skip(n + 1)[m - n - 1] == kept[m]);
    assert(items[first] == kept[n] && items[first + 1 + second] == kept[m]);
}

} // verus!
