//! Facts about sequences that are filtered and reordered.

use vstd::prelude::*;

verus! {

/// One more item of a filtered sequence.
pub proof fn lemma_filter_step<A>(items: Seq<A>, i: int, keep: spec_fn(A) -> bool)
    requires
        0 <= i < items.len(),
    ensures
        items.take(i + 1).filter(keep) == (if keep(items[i]) {
            items.take(i).filter(keep).push(items[i])
        } else {
            items.take(i).filter(keep)
        }),
{
    reveal(Seq::filter);
    assert(items.take(i + 1).drop_last() =~= items.take(i));
}

/// Nothing is left of nothing.
pub proof fn lemma_filter_empty<A>(items: Seq<A>, keep: spec_fn(A) -> bool)
    ensures
        items.take(0).filter(keep) == Seq::<A>::empty(),
{
    reveal(Seq::filter);
    assert(items.take(0) =~= Seq::<A>::empty());
}

/// A filter that accepts every item keeps the sequence.
pub proof fn lemma_filter_all<A>(items: Seq<A>, keep: spec_fn(A) -> bool)
    requires
        forall|i: int| 0 <= i < items.len() ==> keep(#[trigger] items[i]),
    ensures
        items.filter(keep) == items,
    decreases items.len(),
{
    reveal(Seq::filter);
    if items.len() > 0 {
        let front = items.drop_last();
        assert forall|i: int| 0 <= i < front.len() implies keep(#[trigger] front[i]) by {
            assert(front[i] == items[i]);
        }
        lemma_filter_all(front, keep);
        assert(keep(items[items.len() - 1]));
        assert(items =~= front.push(items.last()));
    } else {
        assert(items.filter(keep) =~= items);
    }
}

/// The items that a filter keeps are those of the sequence that it accepts.
pub proof fn lemma_filter_contains<A>(items: Seq<A>, keep: spec_fn(A) -> bool)
    ensures
        forall|item: A|
            #![trigger items.filter(keep).contains(item)]
            items.filter(keep).contains(item) <==> items.contains(item) && keep(item),
    decreases items.len(),
{
    reveal(Seq::filter);
    if items.len() > 0 {
        let rest = items.drop_last();
        lemma_filter_contains(rest, keep);
        assert forall|item: A|
            #[trigger] items.filter(keep).contains(item) <==> items.contains(item) && keep(
                item,
            ) by {
            assert(items =~= rest.push(items.last()));
            assert(items.contains(item) <==> rest.contains(item) || item == items.last()) by {
                if rest.contains(item) {
                    let k = choose|k: int| 0 <= k < rest.len() && rest[k] == item;
                    assert(items[k] == item);
                }
                if items.contains(item) && item != items.last() {
                    let k = choose|k: int| 0 <= k < items.len() && items[k] == item;
                    assert(rest[k] == item);
                }
            }
            assert(rest.filter(keep).contains(item) <==> rest.contains(item) && keep(item));
            if keep(items.last()) {
                let now = items.filter(keep);
                assert(now == rest.filter(keep).push(items.last()));
                assert(now[now.len() - 1] == items.last());
                if rest.filter(keep).contains(item) {
                    let k = choose|k: int|
                        0 <= k < rest.filter(keep).len() && rest.filter(keep)[k] == item;
                    assert(now[k] == item);
                }
                if now.contains(item) && item != items.last() {
                    let k = choose|k: int| 0 <= k < now.len() && now[k] == item;
                    assert(rest.filter(keep)[k] == item);
                }
            }
        }
    }
}

/// Reordered sequences are still reorderings of each other when they are filtered.
pub proof fn lemma_filter_multiset<A>(items: Seq<A>, keep: spec_fn(A) -> bool)
    ensures
        items.filter(keep).to_multiset() == items.to_multiset().filter(keep),
    decreases items.len(),
{
    broadcast use vstd::seq_lib::group_to_multiset_ensures;

    reveal(Seq::filter);
    if items.len() > 0 {
        let rest = items.drop_last();
        lemma_filter_multiset(rest, keep);
        assert(items =~= rest.push(items.last()));
        assert(items.to_multiset() =~= rest.to_multiset().insert(items.last()));
        assert(items.filter(keep).to_multiset() =~= items.to_multiset().filter(keep));
    } else {
        assert(items.filter(keep).to_multiset() =~= items.to_multiset().filter(keep));
    }
}

/// Reordered sequences hold the same items.
pub proof fn lemma_reordered_contains<A>(left: Seq<A>, right: Seq<A>)
    requires
        left.to_multiset() == right.to_multiset(),
    ensures
        left.len() == right.len(),
        forall|item: A| #[trigger] left.contains(item) <==> #[trigger] right.contains(item),
{
    broadcast use vstd::seq_lib::group_to_multiset_ensures;

    assert forall|item: A| #[trigger] left.contains(item) <==> #[trigger] right.contains(item) by {
        assert(left.contains(item) <==> left.to_multiset().count(item) > 0);
        assert(right.contains(item) <==> right.to_multiset().count(item) > 0);
    }
    assert(left.len() == left.to_multiset().len());
    assert(right.len() == right.to_multiset().len());
}

/// What holds of every item of a sequence holds of every item of a reordered one.
pub proof fn lemma_reordered_all<A>(left: Seq<A>, right: Seq<A>, holds: spec_fn(A) -> bool)
    requires
        left.to_multiset() == right.to_multiset(),
        forall|i: int| 0 <= i < left.len() ==> holds(#[trigger] left[i]),
    ensures
        forall|i: int| 0 <= i < right.len() ==> holds(#[trigger] right[i]),
{
    lemma_reordered_contains(left, right);
    assert forall|i: int| 0 <= i < right.len() implies holds(#[trigger] right[i]) by {
        assert(right.contains(right[i]));
        assert(left.contains(right[i]));
        let j = choose|j: int| 0 <= j < left.len() && left[j] == right[i];
        assert(holds(left[j]));
    }
}

} // verus!
