//! Chronological ordering and navigation linking.
//!
//! The collection is sorted newest first — a stable order, so items with
//! equal timestamps keep their scan order — and then walked once to give
//! each item its neighbours' slugs.

use vstd::prelude::*;

use crate::content::Content;
use vstd::multiset::Multiset;

verus! {

/// Whether `a`'s date is no older than `b`'s, the order the sort keeps.
pub open spec fn spec_date_ge(a: Content, b: Content) -> bool {
    b.spec_date().spec_le(a.spec_date())
}


/// The newest-first comparison as a single order value: `a` before `b`
/// when `a` is at least as new.
pub open spec fn spec_date_order() -> spec_fn(Content, Content) -> bool {
    |a: Content, b: Content| spec_date_ge(a, b)
}

/// Stable insertion of `x` into a descending list: `x` goes after every
/// item at least as new, so equal dates keep their previous order.
pub open spec fn spec_insert_desc(sorted: Seq<Content>, x: Content) -> Seq<Content> {
    crate::sorting::spec_insert_by(sorted, x, spec_date_order())
}

/// The stable descending sort of `s`: each item inserted in turn.
pub open spec fn spec_sort_desc(s: Seq<Content>) -> Seq<Content> {
    crate::sorting::spec_sort_by(s, spec_date_order())
}

/// Whether `s` is ordered newest first.
pub open spec fn spec_sorted_desc(s: Seq<Content>) -> bool {
    crate::sorting::spec_sorted_by(s, spec_date_order())
}

/// The newest-first order is total and transitive: instants compare as
/// integer pairs.
proof fn lemma_date_order_laws()
    ensures
        forall|a: Content, b: Content|
            #![trigger spec_date_order()(a, b)]
            spec_date_order()(a, b) || spec_date_order()(b, a),
        forall|a: Content, b: Content, c: Content|
            #![trigger spec_date_order()(a, b), spec_date_order()(b, c)]
            spec_date_order()(a, b) && spec_date_order()(b, c) ==> spec_date_order()(a, c),
{
}

/// The sorted collection is ordered newest first and holds exactly the
/// items it was given.
pub proof fn lemma_sort_desc_props(s: Seq<Content>)
    ensures
        spec_sorted_desc(spec_sort_desc(s)),
        spec_sort_desc(s).to_multiset() == s.to_multiset(),
        spec_sort_desc(s).len() == s.len(),
{
    lemma_date_order_laws();
    crate::sorting::lemma_sort_by_props(s, spec_date_order());
}

/// Sorts the collection by date, newest first; a stable sort, so items
/// with equal dates keep their relative order.
pub fn sort_desc(items: Vec<Content>) -> (r: Vec<Content>)
    requires
        forall|i: int| 0 <= i < items@.len() ==> (#[trigger] items@[i]).wf(),
    ensures
        r@ == spec_sort_desc(items@),
{
    let ghost orig = items@;
    let total = items.len();
    proof {
        assert(orig.len() == total);
    }
    let mut src = items;
    let mut out: Vec<Content> = Vec::new();
    let mut i: usize = 0;
    proof {
        assert(orig.take(0) =~= Seq::<Content>::empty());
        assert(orig.skip(0) =~= orig);
    }
    while src.len() > 0
        invariant
            orig.len() <= usize::MAX,
            i + src@.len() == orig.len(),
            src@ == orig.skip(i as int),
            out@ == spec_sort_desc(orig.take(i as int)),
            forall|k: int| 0 <= k < orig.len() ==> (#[trigger] orig[k]).wf(),
            forall|k: int| 0 <= k < out@.len() ==> (#[trigger] out@[k]).wf(),
        decreases src@.len(),
    {
        let ghost out0 = out@;
        let x = src.remove(0);
        proof {
            assert(x == orig[i as int]);
            assert(src@ =~= orig.skip(i + 1));
        }
        let xd = x.meta.datetime();
        let mut p: usize = 0;
        while p < out.len() && xd.is_le(&out[p].meta.datetime())
            invariant
                p <= out@.len(),
                out@ == out0,
                x.wf(),
                xd == x.spec_date(),
                forall|k: int| 0 <= k < out@.len() ==> (#[trigger] out@[k]).wf(),
                forall|k: int| 0 <= k < p ==> spec_date_ge(#[trigger] out@[k], x),
            decreases out@.len() - p,
        {
            p = p + 1;
        }
        out.insert(p, x);
        proof {
            assert(forall|k: int|
                0 <= k < p ==> spec_date_order()(#[trigger] out0[k], x));
            crate::sorting::lemma_insert_by_at(out0, x, spec_date_order(), p as int);
            assert(out@ =~= out0.take(p as int) + seq![x] + out0.skip(p as int));
            assert(orig.take(i + 1).drop_last() =~= orig.take(i as int));
            assert(orig.take(i + 1).last() == orig[i as int]);
            assert(out@ == spec_sort_desc(orig.take(i + 1)));
            assert forall|k: int| 0 <= k < out@.len() implies (#[trigger] out@[k]).wf() by {
                if k < p {
                    assert(out@[k] == out0[k]);
                } else if k == p {
                    assert(out@[k] == x);
                } else {
                    assert(out@[k] == out0[k - 1]);
                }
            }
        }
        i = i + 1;
    }
    proof {
        assert(orig.take(orig.len() as int) =~= orig);
    }
    out
}

/// Whether `b` is `a` with only the navigation fields changed.
pub open spec fn spec_same_core(a: Content, b: Content) -> bool {
    a.path == b.path && a.raw == b.raw && a.events == b.events && a.meta == b.meta && a.slug
        == b.slug && a.assets == b.assets
}

/// Gives every item its neighbours' slugs: `previous` points at the
/// next-newer item (none for the first), `next` at the next-older one
/// (none for the last).
pub fn link_navigation(items: Vec<Content>) -> (r: Vec<Content>)
    ensures
        r@.len() == items@.len(),
        forall|i: int| 0 <= i < r@.len() ==> spec_same_core(items@[i], #[trigger] r@[i]),
        forall|i: int|
            0 <= i < r@.len() ==> if i == 0 {
                (#[trigger] r@[i]).previous is None
            } else {
                r@[i].previous matches Some(p) && p@ == items@[i - 1].slug@
            },
        forall|i: int|
            0 <= i < r@.len() ==> if i == r@.len() - 1 {
                (#[trigger] r@[i]).next is None
            } else {
                r@[i].next matches Some(nx) && nx@ == items@[i + 1].slug@
            },
{
    let n = items.len();
    let mut slugs: Vec<String> = Vec::new();
    let mut i: usize = 0;
    while i < n
        invariant
            i <= n,
            n == items@.len(),
            slugs@.len() == i,
            forall|k: int| 0 <= k < i ==> (#[trigger] slugs@[k])@ == items@[k].slug@,
        decreases n - i,
    {
        slugs.push(items[i].slug.clone());
        i = i + 1;
    }
    let ghost orig = items@;
    let mut src = items;
    let mut out: Vec<Content> = Vec::new();
    let mut j: usize = 0;
    proof {
        assert(orig.skip(0) =~= orig);
    }
    while j < n
        invariant
            j <= n,
            n == orig.len(),
            src@ == orig.skip(j as int),
            out@.len() == j,
            slugs@.len() == n,
            forall|k: int| 0 <= k < n ==> (#[trigger] slugs@[k])@ == orig[k].slug@,
            forall|k: int| 0 <= k < j ==> spec_same_core(orig[k], #[trigger] out@[k]),
            forall|k: int|
                0 <= k < j ==> if k == 0 {
                    (#[trigger] out@[k]).previous is None
                } else {
                    out@[k].previous matches Some(p) && p@ == orig[k - 1].slug@
                },
            forall|k: int|
                0 <= k < j ==> if k == n - 1 {
                    (#[trigger] out@[k]).next is None
                } else {
                    out@[k].next matches Some(nx) && nx@ == orig[k + 1].slug@
                },
        decreases n - j,
    {
        let c = src.remove(0);
        proof {
            assert(c == orig[j as int]);
            assert(src@ =~= orig.skip(j + 1));
        }
        let prev = if j == 0 {
            None
        } else {
            Some(slugs[j - 1].clone())
        };
        let nxt = if j + 1 < n {
            Some(slugs[j + 1].clone())
        } else {
            None
        };
        let Content { path, raw, events, meta, slug, assets, previous: _, next: _ } = c;
        out.push(
            Content { path, raw, events, meta, slug, assets, previous: prev, next: nxt },
        );
        j = j + 1;
    }
    out
}

/// With pairwise distinct slugs the links form a single chain with no
/// cycles: the first item has no `previous`, the last no `next`, a
/// `next` link resolves only to the item one step older, and a
/// `previous` link only to the item one step newer.
pub proof fn lemma_navigation_chain(before: Seq<Content>, after: Seq<Content>)
    requires
        after.len() == before.len(),
        forall|i: int| 0 <= i < after.len() ==> spec_same_core(before[i], #[trigger] after[i]),
        forall|i: int|
            0 <= i < after.len() ==> if i == 0 {
                (#[trigger] after[i]).previous is None
            } else {
                after[i].previous matches Some(p) && p@ == before[i - 1].slug@
            },
        forall|i: int|
            0 <= i < after.len() ==> if i == after.len() - 1 {
                (#[trigger] after[i]).next is None
            } else {
                after[i].next matches Some(nx) && nx@ == before[i + 1].slug@
            },
        forall|i: int, j: int|
            0 <= i < j < before.len() ==> (#[trigger] before[i]).slug@ != (
            #[trigger] before[j]).slug@,
    ensures
        after.len() > 0 ==> after[0].previous is None,
        after.len() > 0 ==> after[after.len() - 1].next is None,
        forall|i: int, j: int|
            0 <= i < after.len() && 0 <= j < after.len() && ((#[trigger] after[i]).next matches Some(
                nx,
            ) && nx@ == (#[trigger] after[j]).slug@) ==> j == i + 1,
        forall|i: int, j: int|
            0 <= i < after.len() && 0 <= j < after.len() && ((
            #[trigger] after[i]).previous matches Some(p) && p@ == (#[trigger] after[j]).slug@)
                ==> j == i - 1,
{
    assert forall|i: int, j: int|
        0 <= i < after.len() && 0 <= j < after.len() && ((#[trigger] after[i]).next matches Some(nx)
            && nx@ == (#[trigger] after[j]).slug@) implies j == i + 1 by {
        assert(after[j].slug == before[j].slug);
        if i < after.len() - 1 {
            assert(after[i].next matches Some(nx) && nx@ == before[i + 1].slug@);
            if j != i + 1 {
                if j < i + 1 {
                    assert(before[j].slug@ != before[i + 1].slug@);
                } else {
                    assert(before[i + 1].slug@ != before[j].slug@);
                }
            }
        }
    }
    assert forall|i: int, j: int|
        0 <= i < after.len() && 0 <= j < after.len() && ((
        #[trigger] after[i]).previous matches Some(p) && p@ == (#[trigger] after[j]).slug@) implies
        j == i - 1 by {
        assert(after[j].slug == before[j].slug);
        if i > 0 {
            assert(after[i].previous matches Some(p) && p@ == before[i - 1].slug@);
            if j != i - 1 {
                if j < i - 1 {
                    assert(before[j].slug@ != before[i - 1].slug@);
                } else {
                    assert(before[i - 1].slug@ != before[j].slug@);
                }
            }
        }
    }
}

/// Picks out the items that denote exactly the instant `(ts, ns)`.
pub open spec fn spec_at_instant(ts: i64, ns: i32) -> spec_fn(Content) -> bool {
    |c: Content| c.spec_date().ts_second == ts && c.spec_date().ts_nanosecond == ns
}

/// Inserting into a descending list puts the new item after every item
/// of its own instant, so a fixed instant's subsequence just grows at
/// the end.
proof fn lemma_insert_desc_filter(t: Seq<Content>, x: Content, ts: i64, ns: i32)
    requires
        spec_sorted_desc(t),
    ensures
        spec_insert_desc(t, x).filter(spec_at_instant(ts, ns)) == if spec_at_instant(ts, ns)(x) {
            t.filter(spec_at_instant(ts, ns)).push(x)
        } else {
            t.filter(spec_at_instant(ts, ns))
        },
    decreases t.len(),
{
    broadcast use vstd::seq_lib::group_seq_properties;

    let p = spec_at_instant(ts, ns);
    let r = spec_insert_desc(t, x);
    if t.len() == 0 {
        assert(t.filter(p) =~= Seq::<Content>::empty()) by {
            t.lemma_filter_len(p);
        }
        assert(seq![x] =~= Seq::<Content>::empty().push(x));
        Seq::<Content>::empty().lemma_filter_push(x, p);
    } else if spec_date_ge(t[0], x) {
        assert(spec_sorted_desc(t.skip(1))) by {
            assert(forall|i: int, j: int|
                0 <= i < j < t.skip(1).len() ==> spec_date_ge(
                    #[trigger] t.skip(1)[i],
                    #[trigger] t.skip(1)[j],
                ));
        }
        lemma_insert_desc_filter(t.skip(1), x, ts, ns);
        let tail = spec_insert_desc(t.skip(1), x);
        Seq::filter_distributes_over_add(seq![t[0]], tail, p);
        Seq::filter_distributes_over_add(seq![t[0]], t.skip(1), p);
        assert(t =~= seq![t[0]] + t.skip(1));
        assert(r == seq![t[0]] + tail);
        if p(x) {
            assert(seq![t[0]].filter(p) + t.skip(1).filter(p).push(x) =~= (seq![t[0]].filter(p)
                + t.skip(1).filter(p)).push(x));
        }
    } else {
        assert(r == seq![x] + t);
        Seq::filter_distributes_over_add(seq![x], t, p);
        if p(x) {
            // no item of `t` shares x's instant: every key in `t` is
            // strictly older than x's
            assert(t.filter(p) =~= Seq::<Content>::empty()) by {
                if t.filter(p).len() > 0 {
                    let e = t.filter(p)[0];
                    t.lemma_filter_pred(p, 0);
                    assert(t.filter(p).contains(e));
                    t.lemma_filter_contains_rev(p, e);
                    let k = choose|k: int| 0 <= k < t.len() && t[k] == e;
                    if k > 0 {
                        assert(spec_date_ge(t[0], t[k]));
                    }
                    // e shares x's instant, so t[0] would be at least as
                    // new as x, against the branch condition
                    assert(spec_date_ge(t[0], x));
                    assert(false);
                }
            }
            assert(seq![x].filter(p) =~= seq![x]) by {
                assert(seq![x] =~= Seq::<Content>::empty().push(x));
                Seq::<Content>::empty().lemma_filter_push(x, p);
                Seq::<Content>::empty().lemma_filter_len(p);
            }
            assert(seq![x] + t.filter(p) =~= t.filter(p).push(x));
        } else {
            assert(seq![x].filter(p) =~= Seq::<Content>::empty()) by {
                assert(seq![x] =~= Seq::<Content>::empty().push(x));
                Seq::<Content>::empty().lemma_filter_push(x, p);
                Seq::<Content>::empty().lemma_filter_len(p);
            }
            assert(seq![x].filter(p) + t.filter(p) =~= t.filter(p));
        }
    }
}

/// The sort is stable: for any fixed instant, the sorted collection
/// lists the items of that instant exactly in their scan order.
pub proof fn lemma_sort_desc_stable(s: Seq<Content>, ts: i64, ns: i32)
    ensures
        spec_sort_desc(s).filter(spec_at_instant(ts, ns)) == s.filter(spec_at_instant(ts, ns)),
    decreases s.len(),
{
    let p = spec_at_instant(ts, ns);
    if s.len() == 0 {
        assert(spec_sort_desc(s) == s);
    } else {
        lemma_sort_desc_stable(s.drop_last(), ts, ns);
        lemma_sort_desc_props(s.drop_last());
        lemma_insert_desc_filter(spec_sort_desc(s.drop_last()), s.last(), ts, ns);
        s.drop_last().lemma_filter_push(s.last(), p);
        assert(s =~= s.drop_last().push(s.last()));
    }
}

} // verus!
