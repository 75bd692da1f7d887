//! Facts about sequences that hold the same elements in a different order.

use vstd::prelude::*;
use vstd::multiset::Multiset;
use vstd::seq_lib::*;

verus! {

/// Two sequences hold the same elements, each as often in one as in the other.
pub open spec fn same_elements<T>(a: Seq<T>, b: Seq<T>) -> bool {
    a.to_multiset() =~= b.to_multiset()
}

/// The predicate that asks `accept` of the image under `f`.
pub open spec fn after<T, U>(f: spec_fn(T) -> U, accept: spec_fn(U) -> bool) -> spec_fn(T) -> bool {
    |x: T| accept(f(x))
}

/// The last element of `a` stands somewhere in `b`; without it the two still
/// hold the same elements.
pub proof fn lemma_same_elements_step<T>(a: Seq<T>, b: Seq<T>) -> (i: int)
    requires
        same_elements(a, b),
        a.len() > 0,
    ensures
        0 <= i < b.len(),
        b[i] == a.last(),
        same_elements(a.drop_last(), b.remove(i)),
{
    broadcast use group_to_multiset_ensures;

    assert(a.contains(a.last())) by {
        assert(a[a.len() - 1] == a.last());
    }
    assert(b.to_multiset().count(a.last()) > 0);
    assert(b.contains(a.last()));
    let i = choose|i: int| 0 <= i < b.len() && b[i] == a.last();
    assert(a.drop_last() =~= a.remove(a.len() - 1));
    i
}

pub proof fn lemma_same_elements_len<T>(a: Seq<T>, b: Seq<T>)
    requires
        same_elements(a, b),
    ensures
        a.len() == b.len(),
{
    to_multiset_len(a);
    to_multiset_len(b);
}

/// A sequence split at `i` into what stands before, the element, and the rest.
pub proof fn lemma_split_at<T>(s: Seq<T>, i: int)
    requires
        0 <= i < s.len(),
    ensures
        s =~= s.take(i) + seq![s[i]] + s.skip(i + 1),
        s.remove(i) =~= s.take(i) + s.skip(i + 1),
{
}

/// Mapping keeps "the same elements".
pub proof fn lemma_map_same_elements<T, U>(a: Seq<T>, b: Seq<T>, f: spec_fn(T) -> U)
    requires
        same_elements(a, b),
    ensures
        same_elements(a.map_values(f), b.map_values(f)),
    decreases a.len(),
{
    broadcast use group_to_multiset_ensures;

    lemma_same_elements_len(a, b);
    if a.len() == 0 {
        assert(a.map_values(f) =~= b.map_values(f));
    } else {
        let i = lemma_same_elements_step(a, b);
        lemma_map_same_elements(a.drop_last(), b.remove(i), f);
        assert(a.map_values(f) =~= a.drop_last().map_values(f).push(f(a.last())));
        assert(b.map_values(f).remove(i) =~= b.remove(i).map_values(f));
        assert(b.map_values(f)[i] == f(a.last()));
        assert(b.map_values(f).to_multiset().count(f(a.last())) > 0) by {
            assert(b.map_values(f).contains(f(a.last())));
        }
        assert(b.map_values(f).to_multiset() =~= b.map_values(f).remove(i).to_multiset().insert(
            f(a.last()),
        ));
    }
}

/// Filtering keeps "the same elements".
pub proof fn lemma_filter_same_elements<T>(a: Seq<T>, b: Seq<T>, accept: spec_fn(T) -> bool)
    requires
        same_elements(a, b),
    ensures
        same_elements(a.filter(accept), b.filter(accept)),
        a.filter(accept).len() == b.filter(accept).len(),
    decreases a.len(),
{
    broadcast use group_to_multiset_ensures;

    lemma_same_elements_len(a, b);
    if a.len() == 0 {
        assert(a =~= b);
    } else {
        let i = lemma_same_elements_step(a, b);
        let x = a.last();
        lemma_filter_same_elements(a.drop_last(), b.remove(i), accept);
        assert(a =~= a.drop_last().push(x));
        a.drop_last().lemma_filter_push(x, accept);
        lemma_split_at(b, i);
        let head = b.take(i);
        let tail = b.skip(i + 1);
        Seq::filter_distributes_over_add(head + seq![x], tail, accept);
        Seq::filter_distributes_over_add(head, seq![x], accept);
        Seq::filter_distributes_over_add(head, tail, accept);
        assert(seq![x] =~= Seq::<T>::empty().push(x));
        Seq::<T>::empty().lemma_filter_push(x, accept);
        assert(Seq::<T>::empty().filter(accept) =~= Seq::<T>::empty()) by {
            Seq::<T>::empty().lemma_filter_len(accept);
        }
        lemma_multiset_commutative(head.filter(accept) + seq![x].filter(accept), tail.filter(accept));
        lemma_multiset_commutative(head.filter(accept), seq![x].filter(accept));
        lemma_multiset_commutative(head.filter(accept), tail.filter(accept));
        if accept(x) {
            assert(seq![x].filter(accept) =~= seq![x]);
            assert(seq![x].to_multiset() =~= Multiset::<T>::empty().insert(x));
            assert(b.filter(accept).to_multiset() =~= b.remove(i).filter(accept).to_multiset().insert(x));
        } else {
            assert(seq![x].filter(accept) =~= Seq::<T>::empty());
            assert(b.filter(accept).to_multiset() =~= b.remove(i).filter(accept).to_multiset());
        }
        lemma_same_elements_len(a.filter(accept), b.filter(accept));
    }
}

/// Filtering the images is filtering first, by the predicate asked of the
/// image, and mapping after.
pub proof fn lemma_filter_of_map<T, U>(s: Seq<T>, f: spec_fn(T) -> U, accept: spec_fn(U) -> bool)
    ensures
        s.map_values(f).filter(accept) == s.filter(after(f, accept)).map_values(f),
    decreases s.len(),
{
    if s.len() == 0 {
        assert(s.map_values(f) =~= Seq::<U>::empty());
        Seq::<U>::empty().lemma_filter_len(accept);
        s.lemma_filter_len(after(f, accept));
        assert(s.map_values(f).filter(accept) =~= s.filter(after(f, accept)).map_values(f));
    } else {
        let front = s.drop_last();
        let x = s.last();
        lemma_filter_of_map(front, f, accept);
        assert(s =~= front.push(x));
        assert(s.map_values(f) =~= front.map_values(f).push(f(x)));
        front.map_values(f).lemma_filter_push(f(x), accept);
        front.lemma_filter_push(x, after(f, accept));
        if accept(f(x)) {
            assert(front.filter(after(f, accept)).push(x).map_values(f) =~= front.filter(
                after(f, accept),
            ).map_values(f).push(f(x)));
        }
    }
}

/// A predicate that every element meets filters nothing out.
pub proof fn lemma_filter_keeps_all<T>(s: Seq<T>, accept: spec_fn(T) -> bool)
    requires
        forall|i: int| 0 <= i < s.len() ==> accept(#[trigger] s[i]),
    ensures
        s.filter(accept) == s,
    decreases s.len(),
{
    if s.len() == 0 {
        s.lemma_filter_len(accept);
        assert(s.filter(accept) =~= s);
    } else {
        let front = s.drop_last();
        lemma_filter_keeps_all(front, accept);
        assert(s =~= front.push(s.last()));
        front.lemma_filter_push(s.last(), accept);
    }
}

/// A predicate that no element meets filters everything out.
pub proof fn lemma_filter_keeps_none<T>(s: Seq<T>, accept: spec_fn(T) -> bool)
    requires
        forall|i: int| 0 <= i < s.len() ==> !accept(#[trigger] s[i]),
    ensures
        s.filter(accept) == Seq::<T>::empty(),
    decreases s.len(),
{
    if s.len() == 0 {
        s.lemma_filter_len(accept);
        assert(s.filter(accept) =~= Seq::<T>::empty());
    } else {
        let front = s.drop_last();
        lemma_filter_keeps_none(front, accept);
        assert(s =~= front.push(s.last()));
        front.lemma_filter_push(s.last(), accept);
    }
}

} // verus!
