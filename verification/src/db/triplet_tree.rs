//! One index of the store: a map from a pair of keys to the list of values
//! that were appended under that pair, kept in the order in which the pairs
//! first appeared.

use crate::db::Component;
use crate::sequences::{lemma_filter_keeps_all, lemma_filter_keeps_none, same_elements};
use vstd::prelude::*;
use vstd::seq_lib::*;

verus! {

/// What an index holds under one pair of keys.
pub struct GroupView<A, B, C> {
    pub key1: A,
    pub key2: B,
    pub values: Seq<C>,
}

#[derive(Debug)]
struct Group<K1, K2, V> {
    key1: K1,
    key2: K2,
    values: Vec<V>,
}

/// A two-level index: (key1, key2) -> values, in order of insertion.
#[derive(Debug)]
pub struct TripletTree<K1: Component, K2: Component, V: Component> {
    groups: Vec<Group<K1, K2, V>>,
}

/// The views of the items of a sequence, one for one.
pub open spec fn views<T: View>(items: Seq<T>) -> Seq<T::V> {
    Seq::new(items.len(), |i: int| items[i]@)
}

/// The views of a list of (key1, key2, value) items.
pub open spec fn triple_views<K1: View, K2: View, V: View>(items: Seq<(K1, K2, V)>) -> Seq<
    (K1::V, K2::V, V::V),
> {
    Seq::new(items.len(), |i: int| (items[i].0@, items[i].1@, items[i].2@))
}

/// The views of a list of (key2, values) rows.
pub open spec fn row_views<K2: View, V: View>(rows: Seq<(K2, Vec<V>)>) -> Seq<(K2::V, Seq<V::V>)> {
    Seq::new(rows.len(), |i: int| (rows[i].0@, views(rows[i].1@)))
}

/// The views of a list of (key1, key2, values) groups.
pub open spec fn group_views<K1: View, K2: View, V: View>(groups: Seq<(K1, K2, Vec<V>)>) -> Seq<
    GroupView<K1::V, K2::V, V::V>,
> {
    Seq::new(
        groups.len(),
        |i: int| GroupView { key1: groups[i].0@, key2: groups[i].1@, values: views(groups[i].2@) },
    )
}

/// The view of a key that may be left open.
pub open spec fn key_view<K: View>(key: Option<&K>) -> Option<K::V> {
    match key {
        Some(k) => Some(k@),
        None => None,
    }
}

pub open spec fn keyed<A, B, C>(group: GroupView<A, B, C>, key1: A, key2: B) -> bool {
    group.key1 == key1 && group.key2 == key2
}

/// The index of the first group under (key1, key2), or the number of groups
/// where there is none.
pub open spec fn position<A, B, C>(groups: Seq<GroupView<A, B, C>>, key1: A, key2: B) -> int
    decreases groups.len(),
{
    if groups.len() == 0 {
        0
    } else if keyed(groups[0], key1, key2) {
        0
    } else {
        1 + position(groups.drop_first(), key1, key2)
    }
}

/// The values under (key1, key2); none where the pair is absent.
pub open spec fn entry<A, B, C>(groups: Seq<GroupView<A, B, C>>, key1: A, key2: B) -> Seq<C> {
    let i = position(groups, key1, key2);
    if i < groups.len() {
        groups[i].values
    } else {
        Seq::empty()
    }
}

/// The index after `value` was appended under (key1, key2): at the end of the
/// pair's list, or as a new last group where the pair is new.
pub open spec fn appended<A, B, C>(
    groups: Seq<GroupView<A, B, C>>,
    key1: A,
    key2: B,
    value: C,
) -> Seq<GroupView<A, B, C>> {
    let i = position(groups, key1, key2);
    if i < groups.len() {
        groups.update(i, GroupView { key1, key2, values: groups[i].values.push(value) })
    } else {
        groups.push(GroupView { key1, key2, values: seq![value] })
    }
}

/// The index without the group under (key1, key2).
pub open spec fn removed<A, B, C>(groups: Seq<GroupView<A, B, C>>, key1: A, key2: B) -> Seq<
    GroupView<A, B, C>,
> {
    let i = position(groups, key1, key2);
    if i < groups.len() {
        groups.remove(i)
    } else {
        groups
    }
}

/// No pair of keys heads two groups.
pub open spec fn distinct_keys<A, B, C>(groups: Seq<GroupView<A, B, C>>) -> bool {
    forall|i: int, j: int|
        0 <= i < j < groups.len() ==> !keyed(#[trigger] groups[i], groups[j].key1, #[trigger] groups[j].key2)
}

pub open spec fn first_is<A, B, C>(key1: A) -> spec_fn(GroupView<A, B, C>) -> bool {
    |group: GroupView<A, B, C>| group.key1 == key1
}

pub open spec fn row<A, B, C>() -> spec_fn(GroupView<A, B, C>) -> (B, Seq<C>) {
    |group: GroupView<A, B, C>| (group.key2, group.values)
}

/// The (key2, values) rows of the groups whose first key is `key1`.
pub open spec fn rows_under<A, B, C>(groups: Seq<GroupView<A, B, C>>, key1: A) -> Seq<(B, Seq<C>)> {
    groups.filter(first_is(key1)).map_values(row())
}

/// The triples of one group, in the order of its values.
pub open spec fn expand<A, B, C>(group: GroupView<A, B, C>) -> Seq<(A, B, C)> {
    Seq::new(group.values.len(), |j: int| (group.key1, group.key2, group.values[j]))
}

/// Every (key1, key2, value) of the index, group after group.
pub open spec fn triples<A, B, C>(groups: Seq<GroupView<A, B, C>>) -> Seq<(A, B, C)>
    decreases groups.len(),
{
    if groups.len() == 0 {
        Seq::empty()
    } else {
        triples(groups.drop_last()) + expand(groups.last())
    }
}

/// Whether a pair of keys agrees with the keys that are given.
pub open spec fn keys_fit<A, B>(key1: Option<A>, key2: Option<B>, a: A, b: B) -> bool {
    &&& key1 matches Some(k) ==> a == k
    &&& key2 matches Some(k) ==> b == k
}

/// Whether a triple agrees with the keys that are given.
pub open spec fn fits<A, B, C>(key1: Option<A>, key2: Option<B>) -> spec_fn((A, B, C)) -> bool {
    |t: (A, B, C)| keys_fit(key1, key2, t.0, t.1)
}

/// The triples that agree with the given keys, in the order of the index.
pub open spec fn matching<A, B, C>(
    groups: Seq<GroupView<A, B, C>>,
    key1: Option<A>,
    key2: Option<B>,
) -> Seq<(A, B, C)> {
    triples(groups).filter(fits(key1, key2))
}

/// The index that results from appending the triples one after another to an
/// empty index.
pub open spec fn indexed<A, B, C>(items: Seq<(A, B, C)>) -> Seq<GroupView<A, B, C>>
    decreases items.len(),
{
    if items.len() == 0 {
        Seq::empty()
    } else {
        appended(indexed(items.drop_last()), items.last().0, items.last().1, items.last().2)
    }
}

pub proof fn lemma_position_bounds<A, B, C>(groups: Seq<GroupView<A, B, C>>, key1: A, key2: B)
    ensures
        0 <= position(groups, key1, key2) <= groups.len(),
        position(groups, key1, key2) < groups.len() ==> keyed(
            groups[position(groups, key1, key2)],
            key1,
            key2,
        ),
        forall|j: int| 0 <= j < position(groups, key1, key2) ==> !keyed(#[trigger] groups[j], key1, key2),
    decreases groups.len(),
{
    if groups.len() > 0 && !keyed(groups[0], key1, key2) {
        let rest = groups.drop_first();
        lemma_position_bounds(rest, key1, key2);
        assert forall|j: int| 0 <= j < position(groups, key1, key2) implies !keyed(
            #[trigger] groups[j],
            key1,
            key2,
        ) by {
            if j > 0 {
                assert(groups[j] == rest[j - 1]);
            }
        }
    }
}

/// The first group under the pair stands at `i` if none before `i` is under it
/// and `i` is, or is the end.
pub proof fn lemma_position_is<A, B, C>(groups: Seq<GroupView<A, B, C>>, key1: A, key2: B, i: int)
    requires
        0 <= i <= groups.len(),
        forall|j: int| 0 <= j < i ==> !keyed(#[trigger] groups[j], key1, key2),
        i < groups.len() ==> keyed(groups[i], key1, key2),
    ensures
        position(groups, key1, key2) == i,
{
    lemma_position_bounds(groups, key1, key2);
    let p = position(groups, key1, key2);
    if p < i {
        assert(!keyed(groups[p], key1, key2));
    }
}

pub proof fn lemma_appended_distinct<A, B, C>(groups: Seq<GroupView<A, B, C>>, key1: A, key2: B, value: C)
    requires
        distinct_keys(groups),
    ensures
        distinct_keys(appended(groups, key1, key2, value)),
{
    lemma_position_bounds(groups, key1, key2);
    let after = appended(groups, key1, key2, value);
    let p = position(groups, key1, key2);
    assert forall|i: int, j: int| 0 <= i < j < after.len() implies !keyed(
        #[trigger] after[i],
        after[j].key1,
        #[trigger] after[j].key2,
    ) by {
        if p < groups.len() {
            assert(after[i].key1 == groups[i].key1 && after[i].key2 == groups[i].key2);
            assert(after[j].key1 == groups[j].key1 && after[j].key2 == groups[j].key2);
            assert(!keyed(groups[i], groups[j].key1, groups[j].key2));
        } else if j < groups.len() {
            assert(!keyed(groups[i], groups[j].key1, groups[j].key2));
        } else {
            assert(!keyed(groups[i], key1, key2));
        }
    }
}

pub proof fn lemma_removed_distinct<A, B, C>(groups: Seq<GroupView<A, B, C>>, key1: A, key2: B)
    requires
        distinct_keys(groups),
    ensures
        distinct_keys(removed(groups, key1, key2)),
        entry(removed(groups, key1, key2), key1, key2) == Seq::<C>::empty(),
{
    lemma_position_bounds(groups, key1, key2);
    let after = removed(groups, key1, key2);
    let p = position(groups, key1, key2);
    assert forall|i: int, j: int| 0 <= i < j < after.len() implies !keyed(
        #[trigger] after[i],
        after[j].key1,
        #[trigger] after[j].key2,
    ) by {
        if p < groups.len() {
            let gi = if i < p { i } else { i + 1 };
            let gj = if j < p { j } else { j + 1 };
            assert(after[i] == groups[gi]);
            assert(after[j] == groups[gj]);
            assert(!keyed(groups[gi], groups[gj].key1, groups[gj].key2));
        } else {
            assert(!keyed(groups[i], groups[j].key1, groups[j].key2));
        }
    }
    assert forall|j: int| 0 <= j < after.len() implies !keyed(#[trigger] after[j], key1, key2) by {
        if p < groups.len() {
            let gj = if j < p { j } else { j + 1 };
            assert(after[j] == groups[gj]);
            if gj < p {
                assert(!keyed(groups[gj], key1, key2));
            } else {
                assert(!keyed(groups[p], groups[gj].key1, groups[gj].key2));
            }
        }
    }
    lemma_position_is(after, key1, key2, after.len() as int);
}

/// The triples of an index with one more group at its end.
pub proof fn lemma_triples_push<A, B, C>(groups: Seq<GroupView<A, B, C>>, group: GroupView<A, B, C>)
    ensures
        triples(groups.push(group)) == triples(groups) + expand(group),
{
    assert(groups.push(group).drop_last() =~= groups);
}

/// The matching triples of an index with one more group at its end: all of
/// the group's where its keys fit, none of them where they do not.
pub proof fn lemma_matching_push<A, B, C>(
    groups: Seq<GroupView<A, B, C>>,
    group: GroupView<A, B, C>,
    key1: Option<A>,
    key2: Option<B>,
)
    ensures
        matching(groups.push(group), key1, key2) == matching(groups, key1, key2) + (if keys_fit(
            key1,
            key2,
            group.key1,
            group.key2,
        ) {
            expand(group)
        } else {
            Seq::empty()
        }),
{
    lemma_triples_push(groups, group);
    Seq::filter_distributes_over_add(triples(groups), expand(group), fits(key1, key2));
    if keys_fit(key1, key2, group.key1, group.key2) {
        lemma_filter_keeps_all(expand(group), fits(key1, key2));
    } else {
        lemma_filter_keeps_none(expand(group), fits(key1, key2));
    }
}

/// The triples of an index in which one group holds one more value at its end
/// are those of the index and that group's keys with the value.
pub proof fn lemma_triples_grown<A, B, C>(groups: Seq<GroupView<A, B, C>>, i: int, value: C)
    requires
        0 <= i < groups.len(),
    ensures
        same_elements(
            triples(
                groups.update(
                    i,
                    GroupView {
                        key1: groups[i].key1,
                        key2: groups[i].key2,
                        values: groups[i].values.push(value),
                    },
                ),
            ),
            triples(groups).push((groups[i].key1, groups[i].key2, value)),
        ),
    decreases groups.len(),
{
    broadcast use group_to_multiset_ensures;

    let grown = GroupView {
        key1: groups[i].key1,
        key2: groups[i].key2,
        values: groups[i].values.push(value),
    };
    let item = (groups[i].key1, groups[i].key2, value);
    let after = groups.update(i, grown);
    if i == groups.len() - 1 {
        assert(after.drop_last() =~= groups.drop_last());
        assert(expand(grown) =~= expand(groups[i]).push(item));
        assert(triples(after) =~= triples(groups).push(item));
    } else {
        lemma_triples_grown(groups.drop_last(), i, value);
        assert(after.drop_last() =~= groups.drop_last().update(i, grown));
        lemma_multiset_commutative(triples(after.drop_last()), expand(groups.last()));
        lemma_multiset_commutative(triples(groups.drop_last()), expand(groups.last()));
        assert(triples(after).to_multiset() =~= triples(groups).to_multiset().insert(item));
    }
}

/// Appending a value adds its triple to the triples of the index, and nothing
/// else changes but their order.
pub proof fn lemma_triples_appended<A, B, C>(groups: Seq<GroupView<A, B, C>>, key1: A, key2: B, value: C)
    ensures
        same_elements(triples(appended(groups, key1, key2, value)), triples(groups).push((key1, key2, value))),
{
    lemma_position_bounds(groups, key1, key2);
    let p = position(groups, key1, key2);
    if p < groups.len() {
        lemma_triples_grown(groups, p, value);
    } else {
        let group = GroupView { key1, key2, values: seq![value] };
        lemma_triples_push(groups, group);
        assert(expand(group) =~= seq![(key1, key2, value)]);
        assert(triples(groups) + seq![(key1, key2, value)] =~= triples(groups).push((key1, key2, value)));
    }
}

/// What stands under a pair of keys after a value was appended under a pair:
/// one more value where the pairs are the same, and what stood there before
/// where they differ.
pub proof fn lemma_entry_appended<A, B, C>(
    groups: Seq<GroupView<A, B, C>>,
    key1: A,
    key2: B,
    value: C,
    at1: A,
    at2: B,
)
    ensures
        entry(appended(groups, key1, key2, value), at1, at2) == if key1 == at1 && key2 == at2 {
            entry(groups, at1, at2).push(value)
        } else {
            entry(groups, at1, at2)
        },
{
    lemma_position_bounds(groups, key1, key2);
    lemma_position_bounds(groups, at1, at2);
    let after = appended(groups, key1, key2, value);
    let p = position(groups, key1, key2);
    let q = position(groups, at1, at2);
    assert forall|j: int| 0 <= j < q && j < after.len() implies !keyed(#[trigger] after[j], at1, at2) by {
        assert(!keyed(groups[j], at1, at2));
    }
    if key1 == at1 && key2 == at2 {
        lemma_position_is(after, at1, at2, p);
        if p >= groups.len() {
            assert(seq![value] =~= Seq::<C>::empty().push(value));
        }
    } else if q < groups.len() {
        lemma_position_is(after, at1, at2, q);
    } else {
        assert forall|j: int| 0 <= j < after.len() implies !keyed(#[trigger] after[j], at1, at2) by {
            if j < groups.len() {
                assert(!keyed(groups[j], at1, at2));
            }
        }
        lemma_position_is(after, at1, at2, after.len() as int);
    }
}

/// The value of a triple.
pub open spec fn third<A, B, C>() -> spec_fn((A, B, C)) -> C {
    |t: (A, B, C)| t.2
}

/// An index built from a list of triples holds each pair of keys once, holds
/// the triples of the list and no others, and holds under each pair the values
/// that the list gives that pair, in the list's order.
pub proof fn lemma_indexed<A, B, C>(items: Seq<(A, B, C)>)
    ensures
        distinct_keys(indexed(items)),
        same_elements(triples(indexed(items)), items),
        forall|key1: A, key2: B| #[trigger]
            entry(indexed(items), key1, key2) == items.filter(fits(Some(key1), Some(key2))).map_values(
                third(),
            ),
    decreases items.len(),
{
    broadcast use group_to_multiset_ensures;

    if items.len() == 0 {
        assert forall|key1: A, key2: B| #[trigger]
            entry(indexed(items), key1, key2) == items.filter(fits(Some(key1), Some(key2))).map_values(
                third(),
            ) by {
            items.lemma_filter_len(fits(Some(key1), Some(key2)));
            assert(items.filter(fits(Some(key1), Some(key2))).map_values(third::<A, B, C>())
                =~= Seq::<C>::empty());
        }
        assert(triples(indexed(items)) =~= items);
    } else {
        let front = items.drop_last();
        let x = items.last();
        lemma_indexed(front);
        lemma_appended_distinct(indexed(front), x.0, x.1, x.2);
        lemma_triples_appended(indexed(front), x.0, x.1, x.2);
        assert(items =~= front.push(x));
        assert forall|key1: A, key2: B| #[trigger]
            entry(indexed(items), key1, key2) == items.filter(fits(Some(key1), Some(key2))).map_values(
                third(),
            ) by {
            let accept = fits::<A, B, C>(Some(key1), Some(key2));
            lemma_entry_appended(indexed(front), x.0, x.1, x.2, key1, key2);
            front.lemma_filter_push(x, accept);
            assert(entry(indexed(front), key1, key2) == front.filter(accept).map_values(third()));
            if accept(x) {
                assert(front.filter(accept).push(x).map_values(third()) =~= front.filter(
                    accept,
                ).map_values(third()).push(x.2));
            }
        }
    }
}

/// A value under its keys.
pub open spec fn under<A, B, C>(key1: A, key2: B) -> spec_fn(C) -> (A, B, C) {
    |value: C| (key1, key2, value)
}

/// In an index that holds every pair of keys once, the triples that fit a
/// pair of keys are the values under that pair, in the order in which they
/// were appended.
pub proof fn lemma_matching_pair<A, B, C>(groups: Seq<GroupView<A, B, C>>, key1: A, key2: B)
    requires
        distinct_keys(groups),
    ensures
        matching(groups, Some(key1), Some(key2)) == entry(groups, key1, key2).map_values(
            under(key1, key2),
        ),
    decreases groups.len(),
{
    let accept = fits::<A, B, C>(Some(key1), Some(key2));
    if groups.len() == 0 {
        triples(groups).lemma_filter_len(accept);
        assert(matching(groups, Some(key1), Some(key2)) =~= entry(groups, key1, key2).map_values(
            under(key1, key2),
        ));
    } else {
        let front = groups.drop_last();
        let last = groups.last();
        assert(groups =~= front.push(last));
        assert(distinct_keys(front)) by {
            assert forall|i: int, j: int| 0 <= i < j < front.len() implies !keyed(
                #[trigger] front[i],
                front[j].key1,
                #[trigger] front[j].key2,
            ) by {
                assert(!keyed(groups[i], groups[j].key1, groups[j].key2));
            }
        }
        lemma_matching_pair(front, key1, key2);
        lemma_matching_push(front, last, Some(key1), Some(key2));
        lemma_position_bounds(front, key1, key2);
        let p = position(front, key1, key2);
        if keyed(last, key1, key2) {
            assert forall|j: int| 0 <= j < front.len() implies !keyed(
                #[trigger] groups[j],
                key1,
                key2,
            ) by {
                assert(!keyed(groups[j], groups[groups.len() - 1].key1, groups[groups.len() - 1].key2));
            }
            lemma_position_is(groups, key1, key2, groups.len() - 1);
            if p < front.len() {
                assert(keyed(groups[p], key1, key2));
            }
            assert(entry(front, key1, key2) =~= Seq::<C>::empty());
            assert(matching(front, Some(key1), Some(key2)) =~= Seq::<(A, B, C)>::empty());
            assert(expand(last) =~= last.values.map_values(under(key1, key2)));
            assert(Seq::<(A, B, C)>::empty() + expand(last) =~= expand(last));
        } else {
            assert forall|j: int| 0 <= j < p implies !keyed(#[trigger] groups[j], key1, key2) by {
                assert(groups[j] == front[j]);
            }
            if p < front.len() {
                assert(groups[p] == front[p]);
                lemma_position_is(groups, key1, key2, p);
            } else {
                assert forall|j: int| 0 <= j < groups.len() implies !keyed(
                    #[trigger] groups[j],
                    key1,
                    key2,
                ) by {
                    if j < front.len() {
                        assert(groups[j] == front[j]);
                    }
                }
                lemma_position_is(groups, key1, key2, groups.len() as int);
            }
            assert(matching(front, Some(key1), Some(key2)) + Seq::<(A, B, C)>::empty()
                =~= matching(front, Some(key1), Some(key2)));
        }
    }
}

/// The index built from a list with one more triple at its end.
pub proof fn lemma_indexed_push<A, B, C>(items: Seq<(A, B, C)>, item: (A, B, C))
    ensures
        indexed(items.push(item)) == appended(indexed(items), item.0, item.1, item.2),
{
    assert(items.push(item).drop_last() =~= items);
}

impl<K1: View, K2: View, V: View> View for Group<K1, K2, V> {
    type V = GroupView<K1::V, K2::V, V::V>;

    closed spec fn view(&self) -> GroupView<K1::V, K2::V, V::V> {
        GroupView { key1: self.key1@, key2: self.key2@, values: views(self.values@) }
    }
}

impl<K1: Component, K2: Component, V: Component> View for TripletTree<K1, K2, V> {
    type V = Seq<GroupView<K1::V, K2::V, V::V>>;

    closed spec fn view(&self) -> Seq<GroupView<K1::V, K2::V, V::V>> {
        Seq::new(self.groups@.len(), |i: int| self.groups@[i]@)
    }
}

impl<K1: Component, K2: Component, V: Component> Default for TripletTree<K1, K2, V> {
    fn default() -> (tree: Self)
        ensures
            tree@ == Seq::<GroupView<K1::V, K2::V, V::V>>::empty(),
    {
        let tree = TripletTree { groups: Vec::new() };
        assert(tree@ =~= Seq::empty());
        tree
    }
}

/// A copy of a list of values, item by item.
fn duplicate_all<V: Component>(values: &Vec<V>) -> (copies: Vec<V>)
    ensures
        views(copies@) == views(values@),
{
    let mut copies: Vec<V> = Vec::new();
    let mut j: usize = 0;
    while j < values.len()
        invariant
            j <= values.len(),
            copies.len() == j,
            forall|k: int| 0 <= k < j ==> copies[k]@ == values[k]@,
        decreases values.len() - j,
    {
        copies.push(values[j].duplicate());
        j += 1;
    }
    assert(views(copies@) =~= views(values@));
    copies
}

impl<K1: Component, K2: Component, V: Component> TripletTree<K1, K2, V> {
    /// Every pair of keys heads at most one group.
    pub open spec fn wf(&self) -> bool {
        distinct_keys(self@)
    }

    /// The number of (key1, key2) groups.
    pub fn len(&self) -> (count: usize)
        ensures
            count == self@.len(),
    {
        self.groups.len()
    }

    /// Appends the value under the pair of keys, after the values that the
    /// pair already holds.
    pub fn append(&mut self, key1: K1, key2: K2, value: V)
        ensures
            final(self)@ == appended(old(self)@, key1@, key2@, value@),
            old(self).wf() ==> final(self).wf(),
    {
        let n = self.groups.len();
        let mut i: usize = 0;
        while i < n
            invariant
                i <= n,
                n == self.groups.len(),
                self.groups == old(self).groups,
                forall|j: int| 0 <= j < i ==> !keyed(#[trigger] self@[j], key1@, key2@),
            decreases n - i,
        {
            if self.groups[i].key1.same(&key1) && self.groups[i].key2.same(&key2) {
                proof {
                    lemma_position_is(self@, key1@, key2@, i as int);
                }
                self.groups[i].values.push(value);
                assert(self@ =~= appended(old(self)@, key1@, key2@, value@)) by {
                    assert(views(old(self).groups@[i as int].values@.push(value)) =~= views(
                        old(self).groups@[i as int].values@,
                    ).push(value@));
                }
                proof {
                    if old(self).wf() {
                        lemma_appended_distinct(old(self)@, key1@, key2@, value@);
                    }
                }
                return ;
            }
            i += 1;
        }
        proof {
            lemma_position_is(self@, key1@, key2@, n as int);
        }
        let mut values: Vec<V> = Vec::new();
        values.push(value);
        self.groups.push(Group { key1, key2, values });
        assert(self@ =~= appended(old(self)@, key1@, key2@, value@)) by {
            assert(views(seq![value]) =~= seq![value@]);
        }
        proof {
            if old(self).wf() {
                lemma_appended_distinct(old(self)@, key1@, key2@, value@);
            }
        }
    }

    /// The (key2, values) rows of every group whose first key is `key1`, in
    /// the order of the index.
    pub fn get(&self, key1: &K1) -> (rows: Vec<(K2, Vec<V>)>)
        ensures
            row_views(rows@) == rows_under(self@, key1@),
    {
        let mut rows: Vec<(K2, Vec<V>)> = Vec::new();
        let n = self.groups.len();
        let mut i: usize = 0;
        proof {
            assert(self@.take(0) =~= Seq::empty());
            self@.take(0).lemma_filter_len(first_is(key1@));
            assert(row_views(rows@) =~= rows_under(self@.take(0), key1@));
        }
        while i < n
            invariant
                i <= n,
                n == self.groups.len(),
                row_views(rows@) == rows_under(self@.take(i as int), key1@),
            decreases n - i,
        {
            proof {
                assert(self@.take(i + 1) =~= self@.take(i as int).push(self@[i as int]));
                self@.take(i as int).lemma_filter_push(self@[i as int], first_is(key1@));
            }
            if self.groups[i].key1.same(key1) {
                let ghost before = row_views(rows@);
                let values = duplicate_all(&self.groups[i].values);
                rows.push((self.groups[i].key2.duplicate(), values));
                assert(row_views(rows@) =~= before.push(row()(self@[i as int])));
                assert(self@.take(i as int).filter(first_is(key1@)).push(self@[i as int]).map_values(
                    row(),
                ) =~= rows_under(self@.take(i as int), key1@).push(row()(self@[i as int])));
            }
            i += 1;
        }
        assert(self@.take(n as int) =~= self@);
        rows
    }

    /// The values under the pair of keys, in the order in which they were
    /// appended; none where the pair is absent.
    pub fn values(&self, key1: &K1, key2: &K2) -> (values: Vec<V>)
        ensures
            views(values@) == entry(self@, key1@, key2@),
    {
        let n = self.groups.len();
        let mut i: usize = 0;
        while i < n
            invariant
                i <= n,
                n == self.groups.len(),
                forall|j: int| 0 <= j < i ==> !keyed(#[trigger] self@[j], key1@, key2@),
            decreases n - i,
        {
            if self.groups[i].key1.same(key1) && self.groups[i].key2.same(key2) {
                proof {
                    lemma_position_is(self@, key1@, key2@, i as int);
                }
                return duplicate_all(&self.groups[i].values);
            }
            i += 1;
        }
        proof {
            lemma_position_is(self@, key1@, key2@, n as int);
        }
        let none: Vec<V> = Vec::new();
        assert(views(none@) =~= Seq::empty());
        none
    }

    /// Deletes all values under the pair of keys.
    pub fn remove(&mut self, key1: &K1, key2: &K2)
        ensures
            final(self)@ == removed(old(self)@, key1@, key2@),
            old(self).wf() ==> final(self).wf() && entry(final(self)@, key1@, key2@)
                == Seq::<V::V>::empty(),
    {
        let n = self.groups.len();
        let mut i: usize = 0;
        while i < n
            invariant
                i <= n,
                n == self.groups.len(),
                self.groups == old(self).groups,
                forall|j: int| 0 <= j < i ==> !keyed(#[trigger] self@[j], key1@, key2@),
            decreases n - i,
        {
            if self.groups[i].key1.same(key1) && self.groups[i].key2.same(key2) {
                proof {
                    lemma_position_is(self@, key1@, key2@, i as int);
                }
                let _ = self.groups.remove(i);
                assert(self@ =~= removed(old(self)@, key1@, key2@));
                proof {
                    if old(self).wf() {
                        lemma_removed_distinct(old(self)@, key1@, key2@);
                    }
                }
                return ;
            }
            i += 1;
        }
        proof {
            lemma_position_is(self@, key1@, key2@, n as int);
            if old(self).wf() {
                lemma_removed_distinct(old(self)@, key1@, key2@);
            }
        }
    }

    /// Empties the index.
    pub fn clear(&mut self)
        ensures
            final(self)@ == Seq::<GroupView<K1::V, K2::V, V::V>>::empty(),
            final(self).wf(),
    {
        self.groups.clear();
        assert(self@ =~= Seq::empty());
    }

    /// Every group of the index, in order.
    pub fn scan(&self) -> (groups: Vec<(K1, K2, Vec<V>)>)
        ensures
            group_views(groups@) == self@,
    {
        let mut groups: Vec<(K1, K2, Vec<V>)> = Vec::new();
        let n = self.groups.len();
        let mut i: usize = 0;
        while i < n
            invariant
                i <= n,
                n == self.groups.len(),
                groups.len() == i,
                forall|k: int| 0 <= k < i ==> (#[trigger] group_views(groups@)[k]) == self@[k],
            decreases n - i,
        {
            let ghost before = groups@;
            let values = duplicate_all(&self.groups[i].values);
            groups.push((self.groups[i].key1.duplicate(), self.groups[i].key2.duplicate(), values));
            assert forall|k: int| 0 <= k < i + 1 implies (#[trigger] group_views(groups@)[k])
                == self@[k] by {
                if k < i {
                    assert(groups@[k] == before[k]);
                    assert(group_views(before)[k] == self@[k]);
                }
            }
            i += 1;
        }
        assert(group_views(groups@) =~= self@);
        groups
    }

    /// The triples that agree with the keys that are given, in the order of
    /// the index: all triples where both keys are left open.
    pub fn matching(&self, key1: Option<&K1>, key2: Option<&K2>) -> (found: Vec<(K1, K2, V)>)
        ensures
            triple_views(found@) == matching(self@, key_view(key1), key_view(key2)),
    {
        let mut found: Vec<(K1, K2, V)> = Vec::new();
        let n = self.groups.len();
        let mut i: usize = 0;
        proof {
            assert(self@.take(0) =~= Seq::empty());
            triples(self@.take(0)).lemma_filter_len(fits(key_view(key1), key_view(key2)));
            assert(triple_views(found@) =~= matching(self@.take(0), key_view(key1), key_view(key2)));
        }
        while i < n
            invariant
                i <= n,
                n == self.groups.len(),
                triple_views(found@) == matching(self@.take(i as int), key_view(key1), key_view(key2)),
            decreases n - i,
        {
            let group = &self.groups[i];
            let fit1 = match key1 {
                Some(k) => group.key1.same(k),
                None => true,
            };
            let fit2 = match key2 {
                Some(k) => group.key2.same(k),
                None => true,
            };
            proof {
                assert(self@.take(i + 1) =~= self@.take(i as int).push(self@[i as int]));
                lemma_matching_push(self@.take(i as int), self@[i as int], key_view(key1), key_view(key2));
            }
            if fit1 && fit2 {
                let ghost before = triple_views(found@);
                let m = group.values.len();
                let mut j: usize = 0;
                while j < m
                    invariant
                        j <= m,
                        m == group.values.len(),
                        i < n,
                        n == self.groups.len(),
                        group@ == self@[i as int],
                        triple_views(found@) == before + expand(group@).take(j as int),
                    decreases m - j,
                {
                    let ghost sofar = triple_views(found@);
                    found.push(
                        (group.key1.duplicate(), group.key2.duplicate(), group.values[j].duplicate()),
                    );
                    assert(triple_views(found@) =~= sofar.push(expand(group@)[j as int]));
                    assert(expand(group@).take(j + 1) =~= expand(group@).take(j as int).push(
                        expand(group@)[j as int],
                    ));
                    j += 1;
                }
                assert(expand(group@).take(m as int) =~= expand(group@));
            } else {
                assert(triple_views(found@) =~= triple_views(found@) + Seq::empty());
            }
            i += 1;
        }
        assert(self@.take(n as int) =~= self@);
        found
    }
}

} // verus!
