//! Stable sorting by insertion.
use std::collections::BTreeMap;
use vstd::prelude::*;

verus! {

/// The place of `item` among `sorted`: before the first element that it comes before.
pub open spec fn slot<T>(sorted: Seq<T>, item: T, before: spec_fn(T, T) -> bool) -> int
    decreases sorted.len(),
{
    if sorted.len() == 0 || before(item, sorted[0]) {
        0
    } else {
        1 + slot(sorted.skip(1), item, before)
    }
}

/// The elements of `items` in the order of `before`; elements of which neither comes before the
/// other keep their order.
pub open spec fn arranged<T>(items: Seq<T>, before: spec_fn(T, T) -> bool) -> Seq<T>
    decreases items.len(),
{
    if items.len() == 0 {
        Seq::empty()
    } else {
        let sorted = arranged(items.drop_last(), before);
        sorted.insert(slot(sorted, items.last(), before), items.last())
    }
}

/// `before` is a strict weak order.
pub open spec fn orders<T>(before: spec_fn(T, T) -> bool) -> bool {
    &&& forall|a: T| !(#[trigger] before(a, a))
    &&& forall|a: T, b: T, c: T| #[trigger]
        before(a, b) && #[trigger] before(b, c) ==> before(a, c)
    &&& forall|a: T, b: T, c: T|
        !(#[trigger] before(a, b)) && !(#[trigger] before(b, c)) ==> !before(a, c)
}

/// No element comes before an earlier one.
pub open spec fn in_order<T>(items: Seq<T>, before: spec_fn(T, T) -> bool) -> bool {
    forall|i: int, j: int|
        0 <= i < j < items.len() ==> !before(#[trigger] items[j], #[trigger] items[i])
}

pub proof fn slot_bounds<T>(sorted: Seq<T>, item: T, before: spec_fn(T, T) -> bool)
    ensures
        0 <= slot(sorted, item, before) <= sorted.len(),
        forall|i: int|
            0 <= i < slot(sorted, item, before) ==> !before(item, #[trigger] sorted[i]),
        slot(sorted, item, before) < sorted.len() ==> before(
            item,
            sorted[slot(sorted, item, before)],
        ),
    decreases sorted.len(),
{
    if sorted.len() > 0 && !before(item, sorted[0]) {
        let rest = sorted.skip(1);
        slot_bounds(rest, item, before);
        assert forall|i: int| 0 <= i < slot(sorted, item, before) implies !before(
            item,
            #[trigger] sorted[i],
        ) by {
            if i > 0 {
                assert(sorted[i] == rest[i - 1]);
            }
        }
    }
}

/// What stands before `at` plays no part in the place of an item that comes before none of it.
pub proof fn slot_step<T>(sorted: Seq<T>, at: int, item: T, before: spec_fn(T, T) -> bool)
    requires
        0 <= at < sorted.len(),
    ensures
        before(item, sorted[at]) ==> slot(sorted.skip(at), item, before) == 0,
        !before(item, sorted[at]) ==> slot(sorted.skip(at), item, before) == 1 + slot(
            sorted.skip(at + 1),
            item,
            before,
        ),
{
    assert(sorted.skip(at).skip(1) =~= sorted.skip(at + 1));
}

/// What is in order already stays as it is.
pub proof fn arranged_in_place<T>(items: Seq<T>, before: spec_fn(T, T) -> bool)
    requires
        in_order(items, before),
    ensures
        arranged(items, before) == items,
    decreases items.len(),
{
    if items.len() > 0 {
        let less = items.drop_last();
        assert forall|i: int, j: int| 0 <= i < j < less.len() implies !before(
            #[trigger] less[j],
            #[trigger] less[i],
        ) by {
            assert(!before(items[j], items[i]));
        }
        arranged_in_place(less, before);
        slot_bounds(less, items.last(), before);
        let place = slot(less, items.last(), before);
        if place < less.len() {
            assert(!before(items[items.len() - 1], items[place]));
        }
        assert(less.insert(place, items.last()) =~= items);
    } else {
        assert(items =~= Seq::empty());
    }
}

/// Sorting keeps exactly the elements.
pub proof fn arranged_keeps_elements<T>(items: Seq<T>, before: spec_fn(T, T) -> bool)
    ensures
        arranged(items, before).to_multiset() == items.to_multiset(),
        arranged(items, before).len() == items.len(),
    decreases items.len(),
{
    broadcast use vstd::seq_lib::group_to_multiset_ensures;

    if items.len() > 0 {
        let sorted = arranged(items.drop_last(), before);
        arranged_keeps_elements(items.drop_last(), before);
        slot_bounds(sorted, items.last(), before);
        let at = slot(sorted, items.last(), before);
        vstd::seq_lib::to_multiset_insert(sorted, at, items.last());
        assert(items =~= items.drop_last().push(items.last()));
    } else {
        assert(items =~= Seq::empty());
    }
}

/// What is among the sorted elements is among the elements, and the other way round.
pub proof fn arranged_contains<T>(items: Seq<T>, before: spec_fn(T, T) -> bool, item: T)
    ensures
        arranged(items, before).contains(item) <==> items.contains(item),
{
    broadcast use vstd::seq_lib::group_to_multiset_ensures;

    arranged_keeps_elements(items, before);
    assert(arranged(items, before).to_multiset().count(item) == items.to_multiset().count(item));
}

/// Sorting by a strict weak order puts the elements in that order.
pub proof fn arranged_in_order<T>(items: Seq<T>, before: spec_fn(T, T) -> bool)
    requires
        orders(before),
    ensures
        in_order(arranged(items, before), before),
    decreases items.len(),
{
    if items.len() > 0 {
        let sorted = arranged(items.drop_last(), before);
        let item = items.last();
        arranged_in_order(items.drop_last(), before);
        slot_bounds(sorted, item, before);
        let at = slot(sorted, item, before);
        let result = sorted.insert(at, item);
        assert forall|i: int, j: int| 0 <= i < j < result.len() implies !before(
            #[trigger] result[j],
            #[trigger] result[i],
        ) by {
            if j < at {
                assert(result[i] == sorted[i] && result[j] == sorted[j]);
            } else if j == at {
                assert(result[i] == sorted[i]);
            } else if i == at {
                assert(result[j] == sorted[j - 1]);
                if j - 1 > at {
                    assert(!before(sorted[j - 1], sorted[at]));
                }
                if before(sorted[j - 1], item) {
                    assert(before(item, sorted[at]));
                    assert(before(sorted[j - 1], sorted[at]));
                }
            } else if i < at {
                assert(result[i] == sorted[i] && result[j] == sorted[j - 1]);
            } else {
                assert(result[i] == sorted[i - 1] && result[j] == sorted[j - 1]);
            }
        }
    }
}

/// Whether `keys` are the numbers of `set`, each once, from the smallest up.
pub open spec fn lists_squares(keys: Seq<u16>, set: Set<u16>) -> bool {
    &&& keys.to_set() == set
    &&& forall|i: int, j: int| 0 <= i < j < keys.len() ==> keys[i] < keys[j]
}

/// The numbers of a set below `end`, from the smallest up.
pub open spec fn squares_below(set: Set<u16>, end: int) -> Seq<u16>
    decreases end,
{
    if end <= 0 {
        Seq::empty()
    } else if set.contains((end - 1) as u16) {
        squares_below(set, end - 1).push((end - 1) as u16)
    } else {
        squares_below(set, end - 1)
    }
}

/// The numbers of a set from the smallest up.
pub open spec fn ascending_squares(set: Set<u16>) -> Seq<u16> {
    squares_below(set, u16::MAX + 1)
}

proof fn squares_below_are_listed(set: Set<u16>, end: int)
    requires
        0 <= end <= u16::MAX + 1,
    ensures
        forall|i: int| 0 <= i < squares_below(set, end).len() ==> #[trigger] squares_below(set, end)[i]
            < end,
        forall|i: int, j: int|
            0 <= i < j < squares_below(set, end).len() ==> squares_below(set, end)[i] < squares_below(set, end)[j],
        forall|key: u16| #[trigger]
            squares_below(set, end).contains(key) <==> set.contains(key) && key < end,
    decreases end,
{
    if end > 0 {
        squares_below_are_listed(set, end - 1);
        let before = squares_below(set, end - 1);
        let last = (end - 1) as u16;
        assert forall|key: u16| #[trigger]
            squares_below(set, end).contains(key) <==> set.contains(key) && key < end by {
            assert(before.contains(key) <==> set.contains(key) && key < end - 1);
            if set.contains(last) {
                if before.contains(key) {
                    let i = choose|i: int| 0 <= i < before.len() && before[i] == key;
                    assert(before.push(last)[i] == key);
                }
                if key == last {
                    assert(before.push(last)[before.len() as int] == key);
                }
                if before.push(last).contains(key) && key != last {
                    let i = choose|i: int|
                        0 <= i < before.push(last).len() && before.push(last)[i] == key;
                    assert(before[i] == key);
                }
            }
        }
    }
}

/// The ascending list of a set holds its numbers, each once, from the smallest up.
pub proof fn ascending_squares_are_listed(set: Set<u16>)
    ensures
        lists_squares(ascending_squares(set), set),
{
    squares_below_are_listed(set, u16::MAX + 1);
    let keys = ascending_squares(set);
    assert forall|key: u16| keys.to_set().contains(key) <==> set.contains(key) by {
        assert(keys.contains(key) <==> set.contains(key) && key < u16::MAX + 1);
    }
    assert(keys.to_set() =~= set);
}

/// There is one ascending list of a set.
pub proof fn one_ascending_squares(left: Seq<u16>, right: Seq<u16>, set: Set<u16>)
    requires
        lists_squares(left, set),
        lists_squares(right, set),
    ensures
        left == right,
    decreases left.len(),
{
    assert(forall|key: u16| left.contains(key) <==> set.contains(key)) by {
        assert forall|key: u16| left.contains(key) <==> set.contains(key) by {
            assert(left.to_set().contains(key) <==> left.contains(key));
        }
    }
    assert(forall|key: u16| right.contains(key) <==> set.contains(key)) by {
        assert forall|key: u16| right.contains(key) <==> set.contains(key) by {
            assert(right.to_set().contains(key) <==> right.contains(key));
        }
    }
    if left.len() == 0 {
        if right.len() > 0 {
            assert(right.contains(right[0]));
            assert(left.contains(right[0]));
        }
        assert(left =~= right);
    } else {
        assert(left.contains(left[0]));
        assert(right.contains(left[0]));
        assert(right.contains(right[0]));
        assert(left.contains(right[0]));
        assert(left[0] == right[0]);
        let rest = set.remove(left[0]);
        assert(lists_squares(left.skip(1), rest)) by {
            squares_without_first(left, set);
        }
        assert(lists_squares(right.skip(1), rest)) by {
            squares_without_first(right, set);
        }
        one_ascending_squares(left.skip(1), right.skip(1), rest);
        assert(left =~= seq![left[0]] + left.skip(1));
        assert(right =~= seq![right[0]] + right.skip(1));
    }
}

proof fn squares_without_first(keys: Seq<u16>, set: Set<u16>)
    requires
        lists_squares(keys, set),
        keys.len() > 0,
    ensures
        lists_squares(keys.skip(1), set.remove(keys[0])),
{
    let rest = keys.skip(1);
    assert forall|key: u16| rest.to_set().contains(key) <==> set.remove(keys[0]).contains(key) by {
        assert(keys.to_set().contains(key) <==> keys.contains(key));
        if rest.contains(key) {
            let at = choose|at: int| 0 <= at < rest.len() && rest[at] == key;
            assert(keys[at + 1] == key);
            assert(keys[0] < keys[at + 1]);
        }
        if keys.contains(key) && key != keys[0] {
            let at = choose|at: int| 0 <= at < keys.len() && keys[at] == key;
            assert(rest[at - 1] == key);
        }
    }
    assert(rest.to_set() =~= set.remove(keys[0]));
}

proof fn squares_increase(keys: Seq<u16>)
    requires
        vstd::std_specs::btree::increasing_seq(keys),
    ensures
        forall|i: int, j: int| 0 <= i < j < keys.len() ==> keys[i] < keys[j],
{
    broadcast use vstd::std_specs::btree::group_btree_axioms;

    assert forall|i: int, j: int| 0 <= i < j < keys.len() implies keys[i] < keys[j] by {
        assert(vstd::std_specs::cmp::OrdSpec::cmp_spec(&keys[i], &keys[j]) is Less);
    }
}

/// The keys of a map from the smallest up.
pub fn squares_keys<V>(map: &BTreeMap<u16, V>) -> (keys: Vec<u16>)
    ensures
        keys@ == ascending_squares(map@.dom()),
        lists_squares(keys@, map@.dom()),
{
    broadcast use vstd::std_specs::btree::group_btree_axioms;

    let mut keys: Vec<u16> = Vec::new();
    let ghost entries = vstd::std_specs::iter::IteratorSpec::remaining(&map.iter());
    let ghost ranked = entries.map_values(|entry: (&u16, &V)| *entry.0);
    let iterator = map.iter();
    proof {
        squares_increase(ranked);
    }
    for entry in iter: map.iter()
        invariant
            entries == vstd::std_specs::iter::IteratorSpec::remaining(&map.iter()),
            ranked == entries.map_values(|entry: (&u16, &V)| *entry.0),
            iter.seq() == entries,
            keys@ == ranked.take(iter.index() as int),
    {
        let (key, _) = entry;
        keys.push(*key);
        assert(keys@ =~= ranked.take(iter.index() as int + 1));
    }
    assert(keys@ =~= ranked);
    assert forall|key: u16| ranked.to_set().contains(key) <==> map@.dom().contains(key) by {
        if map@.contains_key(key) {
            assert(entries.contains((&key, &map@[key])));
            let at = choose|at: int|
                0 <= at < entries.len() && entries[at] == (&key, &map@[key]);
            assert(ranked[at] == key);
        }
        if ranked.contains(key) {
            let at = choose|at: int| 0 <= at < ranked.len() && ranked[at] == key;
            assert(map@.contains_key(*entries[at].0));
        }
    }
    assert(ranked.to_set() =~= map@.dom());
    proof {
        assert(lists_squares(keys@, map@.dom()));
        ascending_squares_are_listed(map@.dom());
        one_ascending_squares(keys@, ascending_squares(map@.dom()), map@.dom());
    }
    keys
}

/// Whether `keys` are the numbers of `set`, each once, from the smallest up.
pub open spec fn lists_players(keys: Seq<u128>, set: Set<u128>) -> bool {
    &&& keys.to_set() == set
    &&& forall|i: int, j: int| 0 <= i < j < keys.len() ==> keys[i] < keys[j]
}

/// The numbers of a set below `end`, from the smallest up.
pub open spec fn players_below(set: Set<u128>, end: int) -> Seq<u128>
    decreases end,
{
    if end <= 0 {
        Seq::empty()
    } else if set.contains((end - 1) as u128) {
        players_below(set, end - 1).push((end - 1) as u128)
    } else {
        players_below(set, end - 1)
    }
}

/// The numbers of a set from the smallest up.
pub open spec fn ascending_players(set: Set<u128>) -> Seq<u128> {
    players_below(set, u128::MAX + 1)
}

proof fn players_below_are_listed(set: Set<u128>, end: int)
    requires
        0 <= end <= u128::MAX + 1,
    ensures
        forall|i: int| 0 <= i < players_below(set, end).len() ==> #[trigger] players_below(set, end)[i]
            < end,
        forall|i: int, j: int|
            0 <= i < j < players_below(set, end).len() ==> players_below(set, end)[i] < players_below(set, end)[j],
        forall|key: u128| #[trigger]
            players_below(set, end).contains(key) <==> set.contains(key) && key < end,
    decreases end,
{
    if end > 0 {
        players_below_are_listed(set, end - 1);
        let before = players_below(set, end - 1);
        let last = (end - 1) as u128;
        assert forall|key: u128| #[trigger]
            players_below(set, end).contains(key) <==> set.contains(key) && key < end by {
            assert(before.contains(key) <==> set.contains(key) && key < end - 1);
            if set.contains(last) {
                if before.contains(key) {
                    let i = choose|i: int| 0 <= i < before.len() && before[i] == key;
                    assert(before.push(last)[i] == key);
                }
                if key == last {
                    assert(before.push(last)[before.len() as int] == key);
                }
                if before.push(last).contains(key) && key != last {
                    let i = choose|i: int|
                        0 <= i < before.push(last).len() && before.push(last)[i] == key;
                    assert(before[i] == key);
                }
            }
        }
    }
}

/// The ascending list of a set holds its numbers, each once, from the smallest up.
pub proof fn ascending_players_are_listed(set: Set<u128>)
    ensures
        lists_players(ascending_players(set), set),
{
    players_below_are_listed(set, u128::MAX + 1);
    let keys = ascending_players(set);
    assert forall|key: u128| keys.to_set().contains(key) <==> set.contains(key) by {
        assert(keys.contains(key) <==> set.contains(key) && key < u128::MAX + 1);
    }
    assert(keys.to_set() =~= set);
}

/// There is one ascending list of a set.
pub proof fn one_ascending_players(left: Seq<u128>, right: Seq<u128>, set: Set<u128>)
    requires
        lists_players(left, set),
        lists_players(right, set),
    ensures
        left == right,
    decreases left.len(),
{
    assert(forall|key: u128| left.contains(key) <==> set.contains(key)) by {
        assert forall|key: u128| left.contains(key) <==> set.contains(key) by {
            assert(left.to_set().contains(key) <==> left.contains(key));
        }
    }
    assert(forall|key: u128| right.contains(key) <==> set.contains(key)) by {
        assert forall|key: u128| right.contains(key) <==> set.contains(key) by {
            assert(right.to_set().contains(key) <==> right.contains(key));
        }
    }
    if left.len() == 0 {
        if right.len() > 0 {
            assert(right.contains(right[0]));
            assert(left.contains(right[0]));
        }
        assert(left =~= right);
    } else {
        assert(left.contains(left[0]));
        assert(right.contains(left[0]));
        assert(right.contains(right[0]));
        assert(left.contains(right[0]));
        assert(left[0] == right[0]);
        let rest = set.remove(left[0]);
        assert(lists_players(left.skip(1), rest)) by {
            players_without_first(left, set);
        }
        assert(lists_players(right.skip(1), rest)) by {
            players_without_first(right, set);
        }
        one_ascending_players(left.skip(1), right.skip(1), rest);
        assert(left =~= seq![left[0]] + left.skip(1));
        assert(right =~= seq![right[0]] + right.skip(1));
    }
}

proof fn players_without_first(keys: Seq<u128>, set: Set<u128>)
    requires
        lists_players(keys, set),
        keys.len() > 0,
    ensures
        lists_players(keys.skip(1), set.remove(keys[0])),
{
    let rest = keys.skip(1);
    assert forall|key: u128| rest.to_set().contains(key) <==> set.remove(keys[0]).contains(key) by {
        assert(keys.to_set().contains(key) <==> keys.contains(key));
        if rest.contains(key) {
            let at = choose|at: int| 0 <= at < rest.len() && rest[at] == key;
            assert(keys[at + 1] == key);
            assert(keys[0] < keys[at + 1]);
        }
        if keys.contains(key) && key != keys[0] {
            let at = choose|at: int| 0 <= at < keys.len() && keys[at] == key;
            assert(rest[at - 1] == key);
        }
    }
    assert(rest.to_set() =~= set.remove(keys[0]));
}

proof fn players_increase(keys: Seq<u128>)
    requires
        vstd::std_specs::btree::increasing_seq(keys),
    ensures
        forall|i: int, j: int| 0 <= i < j < keys.len() ==> keys[i] < keys[j],
{
    broadcast use vstd::std_specs::btree::group_btree_axioms;

    assert forall|i: int, j: int| 0 <= i < j < keys.len() implies keys[i] < keys[j] by {
        assert(vstd::std_specs::cmp::OrdSpec::cmp_spec(&keys[i], &keys[j]) is Less);
    }
}

/// The keys of a map from the smallest up.
pub fn players_keys<V>(map: &BTreeMap<u128, V>) -> (keys: Vec<u128>)
    ensures
        keys@ == ascending_players(map@.dom()),
        lists_players(keys@, map@.dom()),
{
    broadcast use vstd::std_specs::btree::group_btree_axioms;

    let mut keys: Vec<u128> = Vec::new();
    let ghost entries = vstd::std_specs::iter::IteratorSpec::remaining(&map.iter());
    let ghost ranked = entries.map_values(|entry: (&u128, &V)| *entry.0);
    let iterator = map.iter();
    proof {
        players_increase(ranked);
    }
    for entry in iter: map.iter()
        invariant
            entries == vstd::std_specs::iter::IteratorSpec::remaining(&map.iter()),
            ranked == entries.map_values(|entry: (&u128, &V)| *entry.0),
            iter.seq() == entries,
            keys@ == ranked.take(iter.index() as int),
    {
        let (key, _) = entry;
        keys.push(*key);
        assert(keys@ =~= ranked.take(iter.index() as int + 1));
    }
    assert(keys@ =~= ranked);
    assert forall|key: u128| ranked.to_set().contains(key) <==> map@.dom().contains(key) by {
        if map@.contains_key(key) {
            assert(entries.contains((&key, &map@[key])));
            let at = choose|at: int|
                0 <= at < entries.len() && entries[at] == (&key, &map@[key]);
            assert(ranked[at] == key);
        }
        if ranked.contains(key) {
            let at = choose|at: int| 0 <= at < ranked.len() && ranked[at] == key;
            assert(map@.contains_key(*entries[at].0));
        }
    }
    assert(ranked.to_set() =~= map@.dom());
    proof {
        assert(lists_players(keys@, map@.dom()));
        ascending_players_are_listed(map@.dom());
        one_ascending_players(keys@, ascending_players(map@.dom()), map@.dom());
    }
    keys
}

} // verus!
