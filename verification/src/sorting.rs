//! Stable sorting by keys that are compared number by number.

use vstd::prelude::*;

use crate::lists;
use crate::net::IpAddr;
use crate::text;

verus! {

/// Whether a key comes before another or is the same: the first number in which they differ
/// decides, and a key comes before its continuations.
pub open spec fn key_le(left: Seq<u128>, right: Seq<u128>) -> bool
    decreases left.len(),
{
    if left.len() == 0 {
        true
    } else if right.len() == 0 {
        false
    } else if left[0] != right[0] {
        left[0] < right[0]
    } else {
        key_le(left.drop_first(), right.drop_first())
    }
}

/// Of two keys one comes before the other.
pub proof fn key_order_is_total(left: Seq<u128>, right: Seq<u128>)
    ensures
        key_le(left, right) || key_le(right, left),
        key_le(left, left),
    decreases left.len(),
{
    if left.len() > 0 {
        key_order_is_total(left.drop_first(), right.drop_first());
        key_order_is_total(left.drop_first(), left.drop_first());
    }
}

/// The order of keys carries over from one to the next.
pub proof fn key_order_is_transitive(first: Seq<u128>, second: Seq<u128>, third: Seq<u128>)
    requires
        key_le(first, second),
        key_le(second, third),
    ensures
        key_le(first, third),
    decreases first.len(),
{
    if first.len() > 0 && first[0] == second[0] && second[0] == third[0] {
        key_order_is_transitive(first.drop_first(), second.drop_first(), third.drop_first());
    }
}

/// Two keys that each come before the other are the same.
pub proof fn key_order_is_antisymmetric(left: Seq<u128>, right: Seq<u128>)
    requires
        key_le(left, right),
        key_le(right, left),
    ensures
        left == right,
    decreases left.len(),
{
    if left.len() > 0 {
        key_order_is_antisymmetric(left.drop_first(), right.drop_first());
        assert(left =~= seq![left[0]] + left.drop_first());
        assert(right =~= seq![right[0]] + right.drop_first());
    } else {
        assert(left =~= right);
    }
}

fn key_at_most(left: &Vec<u128>, right: &Vec<u128>) -> (result: bool)
    ensures
        result == key_le(left@, right@),
{
    let mut i: usize = 0;
    assert(left@.skip(0) =~= left@);
    assert(right@.skip(0) =~= right@);
    while i < left.len()
        invariant
            i <= left.len(),
            i <= right.len(),
            key_le(left@, right@) == key_le(left@.skip(i as int), right@.skip(i as int)),
        decreases left.len() - i,
    {
        if i >= right.len() {
            return false;
        }
        if left[i] != right[i] {
            return left[i] < right[i];
        }
        assert(left@.skip(i as int).drop_first() =~= left@.skip(i + 1));
        assert(right@.skip(i as int).drop_first() =~= right@.skip(i + 1));
        i += 1;
    }
    true
}

/// Things that are sorted by a key.
pub trait Keyed: DeepView + Sized {
    /// The key of an item with the given contents.
    spec fn key_of(view: Self::V) -> Seq<u128>;

    fn sort_key(&self) -> (key: Vec<u128>)
        ensures
            key@ == Self::key_of(self.deep_view()),
    ;
}

/// A sorted sequence with one more item, behind those whose keys do not come after its own.
pub open spec fn inserted<T: Keyed>(items: Seq<T::V>, item: T::V) -> Seq<T::V>
    decreases items.len(),
{
    if items.len() == 0 {
        seq![item]
    } else if key_le(T::key_of(items.last()), T::key_of(item)) {
        items.push(item)
    } else {
        inserted::<T>(items.drop_last(), item).push(items.last())
    }
}

/// The items in the order of their keys; items with the same key keep their order.
pub open spec fn sorted<T: Keyed>(items: Seq<T::V>) -> Seq<T::V>
    decreases items.len(),
{
    if items.len() == 0 {
        Seq::empty()
    } else {
        inserted::<T>(sorted::<T>(items.drop_last()), items.last())
    }
}

/// Whether keys never go down.
pub open spec fn in_key_order<T: Keyed>(items: Seq<T::V>) -> bool {
    forall|i: int, j: int|
        #![trigger items[i], items[j]]
        0 <= i <= j < items.len() ==> key_le(T::key_of(items[i]), T::key_of(items[j]))
}

/// The items with a given key, in order.
pub open spec fn with_key<T: Keyed>(items: Seq<T::V>, key: Seq<u128>) -> Seq<T::V>
    decreases items.len(),
{
    if items.len() == 0 {
        Seq::empty()
    } else {
        let before = with_key::<T>(items.drop_last(), key);
        if T::key_of(items.last()) == key {
            before.push(items.last())
        } else {
            before
        }
    }
}

proof fn lemma_inserted<T: Keyed>(items: Seq<T::V>, item: T::V)
    requires
        in_key_order::<T>(items),
    ensures
        in_key_order::<T>(inserted::<T>(items, item)),
        inserted::<T>(items, item).to_multiset() == items.to_multiset().insert(item),
        inserted::<T>(items, item).len() == items.len() + 1,
        forall|key: Seq<u128>|
            #![trigger with_key::<T>(inserted::<T>(items, item), key)]
            with_key::<T>(inserted::<T>(items, item), key) == with_key::<T>(items.push(item), key),
    decreases items.len(),
{
    broadcast use vstd::seq_lib::group_to_multiset_ensures;

    let result = inserted::<T>(items, item);
    let own = T::key_of(item);
    if items.len() == 0 {
        assert(items.push(item) =~= result);
        assert(result.to_multiset() =~= items.to_multiset().insert(item));
        key_order_is_total(own, own);
    } else if key_le(T::key_of(items.last()), own) {
        assert forall|i: int, j: int|
            #![trigger result[i], result[j]]
            0 <= i <= j < result.len() implies key_le(
            T::key_of(result[i]),
            T::key_of(result[j]),
        ) by {
            if j == items.len() {
                if i < items.len() {
                    key_order_is_transitive(
                        T::key_of(items[i]),
                        T::key_of(items[items.len() - 1]),
                        own,
                    );
                } else {
                    key_order_is_total(own, own);
                }
            }
        }
    } else {
        let rest = items.drop_last();
        let last = items.last();
        lemma_inserted::<T>(rest, item);
        let before = inserted::<T>(rest, item);
        key_order_is_total(T::key_of(last), own);
        assert forall|i: int, j: int|
            #![trigger result[i], result[j]]
            0 <= i <= j < result.len() implies key_le(
            T::key_of(result[i]),
            T::key_of(result[j]),
        ) by {
            if j == items.len() {
                if i < items.len() {
                    assert(before.to_multiset().contains(before[i])) by {
                        assert(before.contains(before[i]));
                    }
                    assert(rest.to_multiset().insert(item).contains(before[i]));
                    if before[i] != item {
                        assert(rest.to_multiset().contains(before[i]));
                        let k = choose|k: int| 0 <= k < rest.len() && rest[k] == before[i];
                        assert(items[k] == before[i]);
                        assert(key_le(T::key_of(items[k]), T::key_of(items[items.len() - 1])));
                    }
                } else {
                    key_order_is_total(T::key_of(last), T::key_of(last));
                }
            } else {
                assert(result[i] == before[i] && result[j] == before[j]);
            }
        }
        assert(items =~= rest.push(last));
        assert(result.to_multiset() =~= items.to_multiset().insert(item));
        assert forall|key: Seq<u128>|
            #[trigger] with_key::<T>(result, key) == with_key::<T>(items.push(item), key) by {
            assert(result.drop_last() =~= before);
            assert(items.push(item).drop_last() =~= items);
            assert(rest.push(item).drop_last() =~= rest);
            assert(with_key::<T>(before, key) == with_key::<T>(rest.push(item), key));
            assert(with_key::<T>(items, key) == (if T::key_of(last) == key {
                with_key::<T>(rest, key).push(last)
            } else {
                with_key::<T>(rest, key)
            }));
            if T::key_of(last) == key && own == key {
                key_order_is_total(own, own);
            }
        }
    }
}

/// Sorting puts the items in the order of their keys, keeps every item as often as it was there,
/// and keeps items with the same key in the order in which they were.
pub proof fn sorting_is_stable<T: Keyed>(items: Seq<T::V>)
    ensures
        in_key_order::<T>(sorted::<T>(items)),
        sorted::<T>(items).to_multiset() == items.to_multiset(),
        sorted::<T>(items).len() == items.len(),
        forall|key: Seq<u128>|
            #![trigger with_key::<T>(sorted::<T>(items), key)]
            with_key::<T>(sorted::<T>(items), key) == with_key::<T>(items, key),
    decreases items.len(),
{
    broadcast use vstd::seq_lib::group_to_multiset_ensures;

    if items.len() > 0 {
        let rest = items.drop_last();
        sorting_is_stable::<T>(rest);
        lemma_inserted::<T>(sorted::<T>(rest), items.last());
        assert(items =~= rest.push(items.last()));
        assert(sorted::<T>(items).to_multiset() =~= items.to_multiset());
        assert forall|key: Seq<u128>|
            #[trigger] with_key::<T>(sorted::<T>(items), key) == with_key::<T>(items, key) by {
            assert(sorted::<T>(rest).push(items.last()).drop_last() =~= sorted::<T>(rest));
            assert(with_key::<T>(sorted::<T>(rest), key) == with_key::<T>(rest, key));
        }
    } else {
        assert(sorted::<T>(items) =~= items);
    }
}

/// Items in the order of their keys stay where they are.
pub proof fn lemma_sorted_items_stay<T: Keyed>(items: Seq<T::V>)
    requires
        in_key_order::<T>(items),
    ensures
        sorted::<T>(items) == items,
    decreases items.len(),
{
    if items.len() == 0 {
        assert(sorted::<T>(items) =~= items);
    } else {
        let rest = items.drop_last();
        assert(in_key_order::<T>(rest)) by {
            assert forall|i: int, j: int|
                #![trigger rest[i], rest[j]]
                0 <= i <= j < rest.len() implies key_le(T::key_of(rest[i]), T::key_of(rest[j])) by {
                assert(rest[i] == items[i] && rest[j] == items[j]);
            }
        }
        lemma_sorted_items_stay::<T>(rest);
        if rest.len() > 0 {
            assert(rest.last() == items[items.len() - 2]);
            assert(items.last() == items[items.len() - 1]);
        }
        assert(items =~= rest.push(items.last()));
    }
}

/// Sorting a second time changes nothing.
pub proof fn sorting_is_idempotent<T: Keyed>(items: Seq<T::V>)
    ensures
        sorted::<T>(sorted::<T>(items)) == sorted::<T>(items),
{
    sorting_is_stable::<T>(items);
    lemma_sorted_items_stay::<T>(sorted::<T>(items));
}

/// The keys of items, in order.
pub open spec fn keys<T: Keyed>(items: Seq<T::V>) -> Seq<Seq<u128>> {
    Seq::new(items.len(), |i: int| T::key_of(items[i]))
}

/// However items are listed, sorting brings the same keys in the same order.
pub proof fn sorted_keys_do_not_depend_on_order<T: Keyed>(left: Seq<T::V>, right: Seq<T::V>)
    requires
        left.to_multiset() == right.to_multiset(),
    ensures
        keys::<T>(sorted::<T>(left)) == keys::<T>(sorted::<T>(right)),
{
    sorting_is_stable::<T>(left);
    sorting_is_stable::<T>(right);
    assert forall|key: Seq<u128>| #[trigger]
        with_key::<T>(sorted::<T>(left), key).len() == with_key::<T>(
            sorted::<T>(right),
            key,
        ).len() by {
        let keep = |item: T::V| T::key_of(item) == key;
        lemma_with_key_is_filter::<T>(left, key, keep);
        lemma_with_key_is_filter::<T>(right, key, keep);
        lists::lemma_filter_multiset(left, keep);
        lists::lemma_filter_multiset(right, keep);
        lists::lemma_reordered_contains(left.filter(keep), right.filter(keep));
    }
    lemma_same_counts_same_keys::<T>(sorted::<T>(left), sorted::<T>(right));
}

proof fn lemma_with_key_is_filter<T: Keyed>(
    items: Seq<T::V>,
    key: Seq<u128>,
    keep: spec_fn(T::V) -> bool,
)
    requires
        forall|item: T::V| #[trigger] keep(item) == (T::key_of(item) == key),
    ensures
        with_key::<T>(items, key) == items.filter(keep),
    decreases items.len(),
{
    reveal(Seq::filter);
    if items.len() > 0 {
        lemma_with_key_is_filter::<T>(items.drop_last(), key, keep);
    }
}

proof fn lemma_with_key_holds<T: Keyed>(items: Seq<T::V>, key: Seq<u128>)
    ensures
        with_key::<T>(items, key).len() > 0 <==> exists|i: int|
            0 <= i < items.len() && T::key_of(#[trigger] items[i]) == key,
    decreases items.len(),
{
    if items.len() > 0 {
        let rest = items.drop_last();
        lemma_with_key_holds::<T>(rest, key);
        if with_key::<T>(rest, key).len() > 0 {
            let i = choose|i: int| 0 <= i < rest.len() && T::key_of(#[trigger] rest[i]) == key;
            assert(T::key_of(items[i]) == key);
        }
        if T::key_of(items.last()) == key {
            assert(T::key_of(items[items.len() - 1]) == key);
        } else if exists|i: int| 0 <= i < items.len() && T::key_of(#[trigger] items[i]) == key {
            let i = choose|i: int| 0 <= i < items.len() && T::key_of(#[trigger] items[i]) == key;
            assert(T::key_of(rest[i]) == key);
        }
    }
}

proof fn lemma_same_counts_same_keys<T: Keyed>(left: Seq<T::V>, right: Seq<T::V>)
    requires
        in_key_order::<T>(left),
        in_key_order::<T>(right),
        forall|key: Seq<u128>| #[trigger]
            with_key::<T>(left, key).len() == with_key::<T>(right, key).len(),
    ensures
        keys::<T>(left) == keys::<T>(right),
    decreases left.len(),
{
    if left.len() == 0 {
        if right.len() > 0 {
            let key = T::key_of(right.last());
            assert(with_key::<T>(left, key).len() == with_key::<T>(right, key).len());
        }
        assert(keys::<T>(left) =~= keys::<T>(right));
    } else {
        let greatest = T::key_of(left.last());
        assert(with_key::<T>(left, greatest).len() == with_key::<T>(right, greatest).len());
        lemma_with_key_holds::<T>(right, greatest);
        let i = choose|i: int| 0 <= i < right.len() && T::key_of(#[trigger] right[i]) == greatest;
        let other = T::key_of(right.last());
        assert(key_le(T::key_of(right[i]), T::key_of(right[right.len() - 1])));
        assert(with_key::<T>(left, other).len() == with_key::<T>(right, other).len());
        lemma_with_key_holds::<T>(left, other);
        let j = choose|j: int| 0 <= j < left.len() && T::key_of(#[trigger] left[j]) == other;
        assert(key_le(T::key_of(left[j]), T::key_of(left[left.len() - 1])));
        key_order_is_antisymmetric(greatest, other);
        let first = left.drop_last();
        let second = right.drop_last();
        assert forall|key: Seq<u128>| #[trigger]
            with_key::<T>(first, key).len() == with_key::<T>(second, key).len() by {
            assert(with_key::<T>(left, key).len() == with_key::<T>(right, key).len());
        }
        lemma_same_counts_same_keys::<T>(first, second);
        assert(keys::<T>(left) =~= keys::<T>(first).push(greatest));
        assert(keys::<T>(right) =~= keys::<T>(second).push(greatest));
    }
}

proof fn lemma_insert_at<T: Keyed>(items: Seq<T::V>, item: T::V, place: int)
    requires
        0 <= place <= items.len(),
        forall|j: int|
            place <= j < items.len() ==> !key_le(T::key_of(#[trigger] items[j]), T::key_of(item)),
        place > 0 ==> key_le(T::key_of(items[place - 1]), T::key_of(item)),
    ensures
        inserted::<T>(items, item) == items.insert(place, item),
    decreases items.len(),
{
    if items.len() > 0 {
        if place == items.len() {
            assert(items.insert(place, item) =~= items.push(item));
        } else {
            assert(!key_le(T::key_of(items[items.len() - 1]), T::key_of(item)));
            lemma_insert_at::<T>(items.drop_last(), item, place);
            assert(items.insert(place, item) =~= items.drop_last().insert(place, item).push(
                items.last(),
            ));
        }
    } else {
        assert(items.insert(place, item) =~= seq![item]);
    }
}

/// Sorts items by their keys.
pub fn stable_sort<T: Keyed>(items: Vec<T>) -> (result: Vec<T>)
    ensures
        result.deep_view() == sorted::<T>(items.deep_view()),
{
    let ghost all = items.deep_view();
    let mut rest = items;
    let mut result: Vec<T> = Vec::new();
    let ghost mut done: int = 0;
    assert(all.take(0) =~= Seq::<T::V>::empty());
    assert(rest.deep_view() =~= all.skip(0));
    while rest.len() > 0
        invariant
            0 <= done <= all.len(),
            rest.deep_view() == all.skip(done),
            result.deep_view() == sorted::<T>(all.take(done)),
        decreases rest.len(),
    {
        let ghost waiting = rest.deep_view();
        let item = rest.remove(0);
        assert(item.deep_view() == waiting[0]);
        assert(rest.deep_view() =~= waiting.drop_first());
        let key = item.sort_key();
        let mut place: usize = result.len();
        let mut found = false;
        while place > 0 && !found
            invariant
                place <= result.len(),
                key@ == T::key_of(item.deep_view()),
                forall|j: int|
                    place <= j < result.len() ==> !key_le(
                        T::key_of(#[trigger] result.deep_view()[j]),
                        key@,
                    ),
                found ==> place > 0 && key_le(T::key_of(result.deep_view()[place - 1]), key@),
            decreases place, !found as int,
        {
            let other = result[place - 1].sort_key();
            assert(result.deep_view()[place - 1] == result@[place - 1].deep_view());
            if key_at_most(&other, &key) {
                found = true;
            } else {
                place -= 1;
            }
        }
        let ghost before = result.deep_view();
        proof {
            lemma_insert_at::<T>(before, item.deep_view(), place as int);
        }
        let ghost inside = item.deep_view();
        result.insert(place, item);
        assert(result.deep_view() =~= before.insert(place as int, inside));
        assert(all.take(done + 1).drop_last() =~= all.take(done));
        assert(all.take(done + 1).last() == inside);
        assert(all.skip(done).drop_first() =~= all.skip(done + 1));
        proof {
            done = done + 1;
        }
    }
    assert(all.take(done) =~= all);
    result
}

/// The part of a key for an optional number: missing comes first.
pub open spec fn optional_key(value: Option<u64>) -> Seq<u128> {
    match value {
        Some(value) => seq![1u128, value as u128],
        None => seq![0u128, 0u128],
    }
}

/// The part of a key for an address: IPv4 comes first.
pub open spec fn address_key(address: IpAddr) -> Seq<u128> {
    match address {
        IpAddr::V4(address) => seq![0u128, address.bits as u128],
        IpAddr::V6(address) => seq![1u128, address.bits],
    }
}

/// The part of a key for an optional address: missing comes first.
pub open spec fn optional_address_key(address: Option<IpAddr>) -> Seq<u128> {
    match address {
        Some(address) => seq![1u128] + address_key(address),
        None => seq![0u128, 0u128, 0u128],
    }
}

/// The part of a key for a text: its characters in order, and an end that comes before any
/// character.
pub open spec fn text_key(value: Seq<char>) -> Seq<u128> {
    Seq::new(value.len(), |i: int| (value[i] as u128 + 1) as u128).push(0u128)
}

pub fn push_optional(key: &mut Vec<u128>, value: Option<u64>)
    ensures
        final(key)@ == old(key)@ + optional_key(value),
{
    match value {
        Some(value) => {
            key.push(1);
            key.push(value as u128);
        },
        None => {
            key.push(0);
            key.push(0);
        },
    }
    assert(key@ =~= old(key)@ + optional_key(value));
}

pub fn push_address(key: &mut Vec<u128>, address: IpAddr)
    ensures
        final(key)@ == old(key)@ + address_key(address),
{
    match address {
        IpAddr::V4(address) => {
            key.push(0);
            key.push(address.bits as u128);
        },
        IpAddr::V6(address) => {
            key.push(1);
            key.push(address.bits);
        },
    }
    assert(key@ =~= old(key)@ + address_key(address));
}

pub fn push_optional_address(key: &mut Vec<u128>, address: Option<IpAddr>)
    ensures
        final(key)@ == old(key)@ + optional_address_key(address),
{
    match address {
        Some(address) => {
            key.push(1);
            push_address(key, address);
        },
        None => {
            key.push(0);
            key.push(0);
            key.push(0);
        },
    }
    assert(key@ =~= old(key)@ + optional_address_key(address));
}

fn letter_rank(letter: char) -> (result: u128)
    ensures
        result == (letter as u128 + 1) as u128,
{
    let code: u32 = letter as u32;
    code as u128 + 1
}

pub fn push_text(key: &mut Vec<u128>, value: &str)
    ensures
        final(key)@ == old(key)@ + text_key(value@),
{
    let letters = text::characters(value);
    let mut i: usize = 0;
    while i < letters.len()
        invariant
            i <= letters.len(),
            letters@ == value@,
            key@ == old(key)@ + Seq::new(i as nat, |j: int| (value@[j] as u128 + 1) as u128),
        decreases letters.len() - i,
    {
        key.push(letter_rank(letters[i]));
        i += 1;
        assert(key@ =~= old(key)@ + Seq::new(i as nat, |j: int| (value@[j] as u128 + 1) as u128));
    }
    key.push(0);
    assert(key@ =~= old(key)@ + text_key(value@));
}

} // verus!
