//! Stable insertion sorting, generic in the comparison.
//!
//! Both orderings the library needs — items by date, newest first, and
//! image paths ascending — share this development: the sort's
//! definition, the position form of one insertion, and the laws that it
//! orders and permutes.

use vstd::multiset::Multiset;
use vstd::prelude::*;

verus! {

/// Stable insertion of `x`: it goes after every element `e` with
/// `le(e, x)`, so elements comparing equal keep their previous order.
pub open spec fn spec_insert_by<A>(sorted: Seq<A>, x: A, le: spec_fn(A, A) -> bool) -> Seq<A>
    decreases sorted.len(),
{
    if sorted.len() == 0 {
        seq![x]
    } else if le(sorted[0], x) {
        seq![sorted[0]] + spec_insert_by(sorted.skip(1), x, le)
    } else {
        seq![x] + sorted
    }
}

/// The stable sort of `s` under `le`: each element inserted in turn.
pub open spec fn spec_sort_by<A>(s: Seq<A>, le: spec_fn(A, A) -> bool) -> Seq<A>
    decreases s.len(),
{
    if s.len() == 0 {
        Seq::empty()
    } else {
        spec_insert_by(spec_sort_by(s.drop_last(), le), s.last(), le)
    }
}

/// Whether `s` is ordered under `le`.
pub open spec fn spec_sorted_by<A>(s: Seq<A>, le: spec_fn(A, A) -> bool) -> bool {
    forall|i: int, j: int| 0 <= i < j < s.len() ==> le(#[trigger] s[i], #[trigger] s[j])
}

/// Inserting at the boundary position equals the recursive insertion.
pub proof fn lemma_insert_by_at<A>(s: Seq<A>, x: A, le: spec_fn(A, A) -> bool, p: int)
    requires
        0 <= p <= s.len(),
        forall|k: int| 0 <= k < p ==> le(#[trigger] s[k], x),
        p < s.len() ==> !le(s[p], x),
    ensures
        spec_insert_by(s, x, le) == s.take(p) + seq![x] + s.skip(p),
    decreases s.len(),
{
    if s.len() == 0 {
        assert(spec_insert_by(s, x, le) =~= s.take(p) + seq![x] + s.skip(p));
    } else if le(s[0], x) {
        assert(p >= 1);
        lemma_insert_by_at(s.skip(1), x, le, p - 1);
        assert(s.skip(1).take(p - 1) =~= s.take(p).skip(1));
        assert(s.skip(1).skip(p - 1) =~= s.skip(p));
        assert(seq![s[0]] + (s.skip(1).take(p - 1) + seq![x] + s.skip(1).skip(p - 1)) =~= s.take(p)
            + seq![x] + s.skip(p));
    } else {
        assert(p == 0);
        assert(seq![x] + s =~= s.take(0) + seq![x] + s.skip(0));
    }
}

proof fn lemma_empty_to_multiset<A>()
    ensures
        Seq::<A>::empty().to_multiset() == Multiset::<A>::empty(),
{
    broadcast use vstd::multiset::group_multiset_axioms;

    assert forall|a: A| Seq::<A>::empty().to_multiset().count(a) == Multiset::<A>::empty().count(
        a,
    ) by {
        vstd::seq_lib::to_multiset_contains(Seq::<A>::empty(), a);
        if Seq::<A>::empty().to_multiset().count(a) > 0 {
            assert(Seq::<A>::empty().contains(a));
        }
    }
    assert(Seq::<A>::empty().to_multiset() =~= Multiset::<A>::empty());
}

/// For a total and transitive comparison, insertion keeps an ordered
/// list ordered, adds one occurrence of the new element, and invents no
/// others.
pub proof fn lemma_insert_by_props<A>(s: Seq<A>, x: A, le: spec_fn(A, A) -> bool)
    requires
        spec_sorted_by(s, le),
        forall|a: A, b: A| #![trigger le(a, b)] le(a, b) || le(b, a),
        forall|a: A, b: A, c: A| #![trigger le(a, b), le(b, c)] le(a, b) && le(b, c) ==> le(a, c),
    ensures
        spec_sorted_by(spec_insert_by(s, x, le), le),
        spec_insert_by(s, x, le).to_multiset() == s.to_multiset().insert(x),
        spec_insert_by(s, x, le).len() == s.len() + 1,
        forall|j: int|
            0 <= j < spec_insert_by(s, x, le).len() ==> spec_insert_by(s, x, le)[j] == x
                || s.contains(#[trigger] spec_insert_by(s, x, le)[j]),
    decreases s.len(),
{
    broadcast use vstd::multiset::group_multiset_axioms;

    let r = spec_insert_by(s, x, le);
    if s.len() == 0 {
        assert(seq![x] =~= Seq::<A>::empty().push(x));
        vstd::seq_lib::to_multiset_build(Seq::<A>::empty(), x);
        lemma_empty_to_multiset::<A>();
        assert(s =~= Seq::<A>::empty());
    } else if le(s[0], x) {
        assert(spec_sorted_by(s.skip(1), le)) by {
            assert(forall|i: int, j: int|
                0 <= i < j < s.skip(1).len() ==> le(#[trigger] s.skip(1)[i], #[trigger] s.skip(1)[j]));
        }
        lemma_insert_by_props(s.skip(1), x, le);
        let tail = spec_insert_by(s.skip(1), x, le);
        assert forall|i: int, j: int| 0 <= i < j < r.len() implies le(
            #[trigger] r[i],
            #[trigger] r[j],
        ) by {
            if i == 0 {
                assert(r[j] == tail[j - 1]);
                if tail[j - 1] == x {
                } else {
                    assert(s.skip(1).contains(tail[j - 1]));
                    let k = choose|k: int| 0 <= k < s.skip(1).len() && s.skip(1)[k] == tail[j - 1];
                    assert(s[k + 1] == tail[j - 1]);
                    assert(le(s[0], s[k + 1]));
                }
            } else {
                assert(tail[i - 1] == r[i]);
                assert(tail[j - 1] == r[j]);
            }
        }
        assert forall|j: int| 0 <= j < r.len() implies r[j] == x || s.contains(#[trigger] r[j]) by {
            if j == 0 {
                assert(s.contains(s[0]));
            } else {
                assert(r[j] == tail[j - 1]);
                if tail[j - 1] != x {
                    assert(s.skip(1).contains(tail[j - 1]));
                    let k = choose|k: int| 0 <= k < s.skip(1).len() && s.skip(1)[k] == tail[j - 1];
                    assert(s[k + 1] == tail[j - 1]);
                }
            }
        }
        assert(r.to_multiset() == s.to_multiset().insert(x)) by {
            vstd::seq_lib::lemma_multiset_commutative(seq![s[0]], tail);
            vstd::seq_lib::lemma_multiset_commutative(seq![s[0]], s.skip(1));
            assert(s =~= seq![s[0]] + s.skip(1));
            assert(r =~= seq![s[0]] + tail);
            assert(r.to_multiset() =~= s.to_multiset().insert(x));
        }
    } else {
        assert(r =~= seq![x] + s);
        assert(le(x, s[0]));
        assert forall|i: int, j: int| 0 <= i < j < r.len() implies le(
            #[trigger] r[i],
            #[trigger] r[j],
        ) by {
            if i == 0 {
                assert(r[j] == s[j - 1]);
                if j - 1 > 0 {
                    assert(le(s[0], s[j - 1]));
                }
            }
        }
        assert(r.to_multiset() == s.to_multiset().insert(x)) by {
            vstd::seq_lib::lemma_multiset_commutative(seq![x], s);
            assert(seq![x] =~= Seq::<A>::empty().push(x));
            vstd::seq_lib::to_multiset_build(Seq::<A>::empty(), x);
            lemma_empty_to_multiset::<A>();
            assert(r.to_multiset() =~= s.to_multiset().insert(x));
        }
        assert forall|j: int| 0 <= j < r.len() implies r[j] == x || s.contains(#[trigger] r[j]) by {
            if j > 0 {
                assert(r[j] == s[j - 1]);
            }
        }
    }
}

/// For a total and transitive comparison, the sorted list is ordered
/// and holds exactly the elements it was given.
pub proof fn lemma_sort_by_props<A>(s: Seq<A>, le: spec_fn(A, A) -> bool)
    requires
        forall|a: A, b: A| #![trigger le(a, b)] le(a, b) || le(b, a),
        forall|a: A, b: A, c: A| #![trigger le(a, b), le(b, c)] le(a, b) && le(b, c) ==> le(a, c),
    ensures
        spec_sorted_by(spec_sort_by(s, le), le),
        spec_sort_by(s, le).to_multiset() == s.to_multiset(),
        spec_sort_by(s, le).len() == s.len(),
    decreases s.len(),
{
    broadcast use vstd::multiset::group_multiset_axioms;

    if s.len() == 0 {
        assert(s =~= Seq::<A>::empty());
    } else {
        lemma_sort_by_props(s.drop_last(), le);
        lemma_insert_by_props(spec_sort_by(s.drop_last(), le), s.last(), le);
        assert(s.to_multiset() == s.drop_last().to_multiset().insert(s.last())) by {
            assert(s =~= s.drop_last().push(s.last()));
            vstd::seq_lib::to_multiset_build(s.drop_last(), s.last());
        }
    }
}

} // verus!
