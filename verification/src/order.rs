//! Stable sorting of vectors by a total preorder.

use vstd::prelude::*;
use vstd::seq_lib::*;

verus! {

/// A preorder in which any two values can be compared.
pub open spec fn is_preorder<T>(leq: spec_fn(T, T) -> bool) -> bool {
    &&& forall|a: T, b: T| #[trigger] leq(a, b) || leq(b, a)
    &&& forall|a: T, b: T, c: T| #[trigger] leq(a, b) && #[trigger] leq(b, c) ==> leq(a, c)
}

/// Every item stands at or below those behind it.
pub open spec fn sorted<T>(s: Seq<T>, leq: spec_fn(T, T) -> bool) -> bool {
    forall|i: int, j: int| 0 <= i <= j < s.len() ==> #[trigger] leq(s[i], s[j])
}

/// Whether `leq` ranks two values alike.
pub open spec fn alike<T>(a: T, b: T, leq: spec_fn(T, T) -> bool) -> bool {
    leq(a, b) && leq(b, a)
}

/// The items that rank as `k` does, in their order.
pub open spec fn ties<T>(s: Seq<T>, k: T, leq: spec_fn(T, T) -> bool) -> Seq<T> {
    s.filter(|x: T| alike(x, k, leq))
}

/// `out` holds the items of `s` in ascending order, and items that rank alike
/// in the order that they have in `s`.
pub open spec fn stable_sort_of<T>(
    out: Seq<T>,
    s: Seq<T>,
    leq: spec_fn(T, T) -> bool,
) -> bool {
    &&& sorted(out, leq)
    &&& out.to_multiset() == s.to_multiset()
    &&& forall|k: T| #[trigger] ties(out, k, leq) == ties(s, k, leq)
}

proof fn lemma_ties_push<T>(s: Seq<T>, x: T, k: T, leq: spec_fn(T, T) -> bool)
    ensures
        ties(s.push(x), k, leq) == (if alike(x, k, leq) {
            ties(s, k, leq).push(x)
        } else {
            ties(s, k, leq)
        }),
{
    s.lemma_filter_push(x, |y: T| alike(y, k, leq));
}

proof fn lemma_ties_add<T>(a: Seq<T>, b: Seq<T>, k: T, leq: spec_fn(T, T) -> bool)
    ensures
        ties(a + b, k, leq) == ties(a, k, leq) + ties(b, k, leq),
{
    Seq::filter_distributes_over_add(a, b, |y: T| alike(y, k, leq));
}

proof fn lemma_ties_one<T>(x: T, k: T, leq: spec_fn(T, T) -> bool)
    ensures
        ties(seq![x], k, leq) == (if alike(x, k, leq) {
            seq![x]
        } else {
            Seq::<T>::empty()
        }),
{
    let none = Seq::<T>::empty();
    assert(none.push(x) =~= seq![x]);
    lemma_ties_push(none, x, k, leq);
    assert(ties(none, k, leq) =~= none) by {
        reveal_with_fuel(Seq::filter, 1);
    }
    assert(none.push(x) =~= seq![x]);
}

proof fn lemma_ties_none<T>(s: Seq<T>, k: T, leq: spec_fn(T, T) -> bool)
    requires
        forall|i: int| 0 <= i < s.len() ==> !alike(#[trigger] s[i], k, leq),
    ensures
        ties(s, k, leq) == Seq::<T>::empty(),
    decreases s.len(),
{
    reveal_with_fuel(Seq::filter, 1);
    if s.len() > 0 {
        let t = s.drop_last();
        assert forall|i: int| 0 <= i < t.len() implies !alike(#[trigger] t[i], k, leq) by {
            assert(t[i] == s[i]);
        }
        lemma_ties_none(t, k, leq);
        assert(s =~= t.push(s.last()));
        lemma_ties_push(t, s.last(), k, leq);
    }
}

/// Every item of the sorted sequence is one of the given ones.
pub proof fn lemma_sorted_item<T>(out: Seq<T>, s: Seq<T>, leq: spec_fn(T, T) -> bool, i: int)
    requires
        stable_sort_of(out, s, leq),
        0 <= i < out.len(),
    ensures
        exists|k: int| 0 <= k < s.len() && s[k] == out[i],
{
    broadcast use group_to_multiset_ensures;

    assert(out.contains(out[i]));
    assert(out.to_multiset().count(out[i]) > 0);
    assert(s.contains(out[i]));
}

/// Every given item is in the sorted sequence.
pub proof fn lemma_item_is_sorted_in<T>(out: Seq<T>, s: Seq<T>, leq: spec_fn(T, T) -> bool, x: T)
    requires
        stable_sort_of(out, s, leq),
        s.contains(x),
    ensures
        out.contains(x),
{
    broadcast use group_to_multiset_ensures;

    assert(s.to_multiset().count(x) > 0);
}

/// Sorting keeps the number of items.
pub proof fn lemma_sorted_len<T>(out: Seq<T>, s: Seq<T>, leq: spec_fn(T, T) -> bool)
    requires
        stable_sort_of(out, s, leq),
    ensures
        out.len() == s.len(),
{
    broadcast use group_to_multiset_ensures;

    assert(out.len() == out.to_multiset().len());
}

proof fn lemma_filters_commute<T>(s: Seq<T>, f: spec_fn(T) -> bool, g: spec_fn(T) -> bool)
    ensures
        s.filter(f).filter(g) == s.filter(g).filter(f),
    decreases s.len(),
{
    reveal_with_fuel(Seq::filter, 1);
    if s.len() > 0 {
        let t = s.drop_last();
        let x = s.last();
        lemma_filters_commute(t, f, g);
        assert(s =~= t.push(x));
        t.lemma_filter_push(x, f);
        t.lemma_filter_push(x, g);
        t.filter(f).lemma_filter_push(x, g);
        t.filter(g).lemma_filter_push(x, f);
    }
}

proof fn lemma_filter_counts<T>(s: Seq<T>, f: spec_fn(T) -> bool)
    ensures
        s.filter(f).to_multiset() == s.to_multiset().filter(f),
    decreases s.len(),
{
    broadcast use group_to_multiset_ensures;

    reveal_with_fuel(Seq::filter, 1);
    if s.len() > 0 {
        let t = s.drop_last();
        let x = s.last();
        lemma_filter_counts(t, f);
        assert(s =~= t.push(x));
        t.lemma_filter_push(x, f);
        assert(s.to_multiset() =~= t.to_multiset().insert(x));
        if f(x) {
            assert(t.filter(f).push(x).to_multiset() =~= t.filter(f).to_multiset().insert(x));
        }
    }
    assert(s.filter(f).to_multiset() =~= s.to_multiset().filter(f));
}

proof fn lemma_filter_is_sorted<T>(s: Seq<T>, f: spec_fn(T) -> bool, leq: spec_fn(T, T) -> bool)
    requires
        sorted(s, leq),
    ensures
        sorted(s.filter(f), leq),
    decreases s.len(),
{
    reveal_with_fuel(Seq::filter, 1);
    if s.len() > 0 {
        let t = s.drop_last();
        let x = s.last();
        assert forall|i: int, j: int| 0 <= i <= j < t.len() implies #[trigger] leq(t[i], t[j]) by {
            assert(leq(s[i], s[j]));
        }
        lemma_filter_is_sorted(t, f, leq);
        assert(s =~= t.push(x));
        t.lemma_filter_push(x, f);
        let out = s.filter(f);
        let head = t.filter(f);
        assert forall|i: int, j: int| 0 <= i <= j < out.len() implies #[trigger] leq(
            out[i],
            out[j],
        ) by {
            if j < head.len() {
                assert(leq(head[i], head[j]));
            } else if i < head.len() {
                t.lemma_filter_contains_rev(f, head[i]);
                let k = choose|k: int| 0 <= k < t.len() && t[k] == head[i];
                assert(leq(s[k], s[s.len() - 1]));
            } else {
                assert(leq(s[s.len() - 1], s[s.len() - 1]));
            }
        }
    }
}

/// Leaving items out of a sorted sequence gives what sorting without them gives.
pub proof fn lemma_filter_keeps_sorted<T>(
    out: Seq<T>,
    s: Seq<T>,
    f: spec_fn(T) -> bool,
    leq: spec_fn(T, T) -> bool,
)
    requires
        stable_sort_of(out, s, leq),
    ensures
        stable_sort_of(out.filter(f), s.filter(f), leq),
{
    lemma_filter_is_sorted(out, f, leq);
    lemma_filter_counts(out, f);
    lemma_filter_counts(s, f);
    assert forall|k: T| #[trigger] ties(out.filter(f), k, leq) == ties(s.filter(f), k, leq) by {
        let a = |x: T| alike(x, k, leq);
        lemma_filters_commute(out, f, a);
        lemma_filters_commute(s, f, a);
        assert(ties(out, k, leq) == ties(s, k, leq));
    }
}

/// Two ascending sequences that agree on every group of equal rank are equal,
/// so a stable sort has one result.
pub proof fn law_stable_sort_is_unique<T>(
    a: Seq<T>,
    b: Seq<T>,
    s: Seq<T>,
    leq: spec_fn(T, T) -> bool,
)
    requires
        is_preorder(leq),
        stable_sort_of(a, s, leq),
        stable_sort_of(b, s, leq),
    ensures
        a == b,
{
    assert forall|k: T| #[trigger] ties(a, k, leq) == ties(b, k, leq) by {
        assert(ties(a, k, leq) == ties(s, k, leq));
    }
    lemma_sorted_by_ties(a, b, leq);
}

proof fn lemma_sorted_by_ties<T>(a: Seq<T>, b: Seq<T>, leq: spec_fn(T, T) -> bool)
    requires
        is_preorder(leq),
        sorted(a, leq),
        sorted(b, leq),
        forall|k: T| #[trigger] ties(a, k, leq) == ties(b, k, leq),
    ensures
        a == b,
    decreases a.len(),
{
    if a.len() == 0 {
        if b.len() > 0 {
            let x = b.last();
            assert(leq(x, x));
            assert(b =~= b.drop_last().push(x));
            lemma_ties_push(b.drop_last(), x, x, leq);
            lemma_ties_none(a, x, leq);
            assert(ties(a, x, leq) == ties(b, x, leq));
        }
        assert(a =~= b);
    } else {
        let x = a.last();
        assert(leq(x, x));
        assert(a =~= a.drop_last().push(x));
        lemma_ties_push(a.drop_last(), x, x, leq);
        assert(ties(a, x, leq) == ties(b, x, leq));
        if b.len() == 0 {
            lemma_ties_none(b, x, leq);
        }
        let y = b.last();
        assert(leq(y, y));
        assert(b =~= b.drop_last().push(y));
        lemma_ties_push(b.drop_last(), y, y, leq);
        assert(ties(a, y, leq) == ties(b, y, leq));
        // y ranks as some item of a, which stands at or below x; and x likewise.
        let pa = |z: T| alike(z, y, leq);
        let i = choose|i: int| 0 <= i < a.len() && pa(a[i]);
        assert(ties(a, y, leq).last() == y);
        if !(exists|i: int| 0 <= i < a.len() && pa(a[i])) {
            assert forall|i: int| 0 <= i < a.len() implies !alike(#[trigger] a[i], y, leq) by {
                assert(!pa(a[i]));
            }
            lemma_ties_none(a, y, leq);
        }
        assert(leq(a[i], a[a.len() - 1]));
        assert(leq(y, a[i]) && leq(a[i], x));
        let pb = |z: T| alike(z, x, leq);
        let j = choose|j: int| 0 <= j < b.len() && pb(b[j]);
        if !(exists|j: int| 0 <= j < b.len() && pb(b[j])) {
            assert forall|j: int| 0 <= j < b.len() implies !alike(#[trigger] b[j], x, leq) by {
                assert(!pb(b[j]));
            }
            lemma_ties_none(b, x, leq);
        }
        assert(leq(b[j], b[b.len() - 1]));
        assert(leq(x, b[j]) && leq(b[j], y));
        assert(alike(y, x, leq));
        lemma_ties_push(b.drop_last(), y, x, leq);
        assert(ties(a, x, leq).last() == x);
        assert(ties(b, x, leq).last() == y);
        assert forall|k: T| #[trigger] ties(a.drop_last(), k, leq) == ties(
            b.drop_last(),
            k,
            leq,
        ) by {
            lemma_ties_push(a.drop_last(), x, k, leq);
            lemma_ties_push(b.drop_last(), y, k, leq);
            assert(ties(a, k, leq) == ties(b, k, leq));
            if alike(x, k, leq) {
                assert(ties(a.drop_last(), k, leq) =~= ties(a, k, leq).drop_last());
                assert(ties(b.drop_last(), k, leq) =~= ties(b, k, leq).drop_last());
            }
        }
        assert forall|i: int, j: int| 0 <= i <= j < a.len() - 1 implies #[trigger] leq(
            a.drop_last()[i],
            a.drop_last()[j],
        ) by {
            assert(leq(a[i], a[j]));
        }
        assert forall|i: int, j: int| 0 <= i <= j < b.len() - 1 implies #[trigger] leq(
            b.drop_last()[i],
            b.drop_last()[j],
        ) by {
            assert(leq(b[i], b[j]));
        }
        lemma_sorted_by_ties(a.drop_last(), b.drop_last(), leq);
    }
}

/// What `le` answers is what `leq` says.
pub open spec fn decides<T, F: Fn(&T, &T) -> bool>(le: F, leq: spec_fn(T, T) -> bool) -> bool {
    &&& forall|a: T, b: T| #[trigger] call_requires(le, (&a, &b))
    &&& forall|a: T, b: T, r: bool| #[trigger] call_ensures(le, (&a, &b), r) ==> r == leq(a, b)
}

/// Merges two ascending vectors; where items rank alike, those of `a` come first.
fn merge<T, F: Fn(&T, &T) -> bool>(
    a: Vec<T>,
    b: Vec<T>,
    le: &F,
    Ghost(leq): Ghost<spec_fn(T, T) -> bool>,
) -> (out: Vec<T>)
    requires
        is_preorder(leq),
        decides(*le, leq),
        sorted(a@, leq),
        sorted(b@, leq),
    ensures
        stable_sort_of(out@, a@ + b@, leq),
{
    let ghost a0 = a@;
    let ghost b0 = b@;
    let mut a = a;
    let mut b = b;
    let mut back: Vec<T> = Vec::new();
    let ghost mut tail: Seq<T> = Seq::empty();
    proof {
        assert(a@ + b@ + tail =~= a0 + b0);
    }
    while a.len() > 0 || b.len() > 0
        invariant
            is_preorder(leq),
            decides(*le, leq),
            sorted(a@, leq),
            sorted(b@, leq),
            sorted(tail, leq),
            back@ == tail.reverse(),
            forall|i: int, j: int| 0 <= i < a@.len() && 0 <= j < tail.len() ==> #[trigger] leq(a@[i], tail[j]),
            forall|i: int, j: int| 0 <= i < b@.len() && 0 <= j < tail.len() ==> #[trigger] leq(b@[i], tail[j]),
            (a@ + b@ + tail).to_multiset() == (a0 + b0).to_multiset(),
            forall|k: T| #[trigger] ties(a@ + b@ + tail, k, leq) == ties(a0 + b0, k, leq),
        decreases a@.len() + b@.len(),
    {
        let ghost pa = a@;
        let ghost pb = b@;
        let from_a: bool = if a.len() == 0 {
            false
        } else if b.len() == 0 {
            true
        } else {
            !le(&a[a.len() - 1], &b[b.len() - 1])
        };
        let item: T = if from_a {
            a.pop().unwrap()
        } else {
            b.pop().unwrap()
        };
        proof {
            let x = item;
            let new_tail = seq![x] + tail;
            assert(seq![x] + tail =~= new_tail);
            if from_a {
                assert(pa =~= a@.push(x));
                assert(a@ =~= pa.drop_last());
                assert forall|i: int| 0 <= i < b@.len() implies #[trigger] leq(b@[i], x) && !leq(x, b@[i]) by {
                    assert(leq(pb[i], pb[pb.len() - 1]));
                }
                broadcast use group_to_multiset_ensures;
                assert(a@ + seq![x] =~= pa);
                lemma_multiset_commutative(pa + pb, tail);
                lemma_multiset_commutative(pa, pb);
                lemma_multiset_commutative(a@, seq![x]);
                lemma_multiset_commutative(a@ + b@, new_tail);
                lemma_multiset_commutative(a@, b@);
                lemma_multiset_commutative(seq![x], tail);
                assert((a@ + b@ + new_tail).to_multiset() =~= (pa + pb + tail).to_multiset());
                assert forall|k: T| #[trigger] ties(a@ + b@ + new_tail, k, leq) == ties(
                    a0 + b0,
                    k,
                    leq,
                ) by {
                    assert(ties(pa + pb + tail, k, leq) == ties(a0 + b0, k, leq));
                    lemma_ties_add(pa + pb, tail, k, leq);
                    lemma_ties_add(pa, pb, k, leq);
                    lemma_ties_push(a@, x, k, leq);
                    lemma_ties_add(a@ + b@, new_tail, k, leq);
                    lemma_ties_add(a@, b@, k, leq);
                    lemma_ties_add(seq![x], tail, k, leq);
                    lemma_ties_one(x, k, leq);
                    if alike(x, k, leq) {
                        assert forall|i: int| 0 <= i < b@.len() implies !alike(#[trigger] b@[i], k, leq) by {
                            if alike(b@[i], k, leq) {
                                assert(leq(x, k) && leq(k, b@[i]));
                                assert(leq(x, b@[i]));
                            }
                        }
                        lemma_ties_none(b@, k, leq);
                        assert(ties(a@ + b@ + new_tail, k, leq) =~= ties(pa + pb + tail, k, leq));
                    } else {
                        assert(ties(a@ + b@ + new_tail, k, leq) =~= ties(pa + pb + tail, k, leq));
                    }
                }
            } else {
                assert(pb =~= b@.push(x));
                assert(b@ =~= pb.drop_last());
                assert(a@ + b@ + new_tail =~= pa + pb + tail);
                assert forall|i: int| 0 <= i < a@.len() implies #[trigger] leq(a@[i], x) by {
                    assert(leq(pa[i], pa[pa.len() - 1]));
                }
                assert forall|i: int| 0 <= i < b@.len() implies #[trigger] leq(b@[i], x) by {
                    assert(leq(pb[i], pb[pb.len() - 1]));
                }
                assert forall|k: T| #[trigger] ties(a@ + b@ + new_tail, k, leq) == ties(
                    a0 + b0,
                    k,
                    leq,
                ) by {
                    assert(ties(pa + pb + tail, k, leq) == ties(a0 + b0, k, leq));
                }
            }
            assert forall|i: int| 0 <= i < a@.len() implies #[trigger] leq(a@[i], x) by {
                if from_a {
                    assert(leq(pa[i], pa[pa.len() - 1]));
                }
            }
            assert forall|i: int, j: int| 0 <= i <= j < a@.len() implies #[trigger] leq(a@[i], a@[j]) by {
                assert(leq(pa[i], pa[j]));
            }
            assert forall|i: int, j: int| 0 <= i <= j < b@.len() implies #[trigger] leq(b@[i], b@[j]) by {
                assert(leq(pb[i], pb[j]));
            }
            assert forall|i: int, j: int| 0 <= i < a@.len() && 0 <= j < new_tail.len() implies #[trigger] leq(
                a@[i],
                new_tail[j],
            ) by {
                if j > 0 {
                    assert(leq(pa[i], tail[j - 1]));
                }
            }
            assert forall|i: int, j: int| 0 <= i < b@.len() && 0 <= j < new_tail.len() implies #[trigger] leq(
                b@[i],
                new_tail[j],
            ) by {
                if j > 0 {
                    assert(leq(pb[i], tail[j - 1]));
                }
            }
            assert forall|i: int, j: int| 0 <= i <= j < new_tail.len() implies #[trigger] leq(
                new_tail[i],
                new_tail[j],
            ) by {
                if i > 0 {
                    assert(leq(tail[i - 1], tail[j - 1]));
                } else if j > 0 {
                    if from_a {
                        assert(leq(pa[pa.len() - 1], tail[j - 1]));
                    } else {
                        assert(leq(pb[pb.len() - 1], tail[j - 1]));
                    }
                } else {
                    assert(leq(x, x) || leq(x, x));
                }
            }
            assert(new_tail.reverse() =~= tail.reverse().push(x));
            tail = new_tail;
        }
        back.push(item);
    }
    let mut out: Vec<T> = Vec::new();
    assert(a@ + b@ + tail =~= tail);
    assert(tail.skip(0) =~= tail);
    while back.len() > 0
        invariant
            back@.len() <= tail.len(),
            back@ == tail.skip(tail.len() - back@.len()).reverse(),
            out@ == tail.take(tail.len() - back@.len()),
        decreases back@.len(),
    {
        let ghost before = back@;
        let item: T = back.pop().unwrap();
        assert(item == tail[tail.len() - before.len()]);
        out.push(item);
        assert(out@ =~= tail.take(tail.len() - back@.len()));
        assert(back@ =~= tail.skip(tail.len() - back@.len()).reverse());
    }
    assert(out@ =~= tail);
    assert forall|k: T| #[trigger] ties(out@, k, leq) == ties(a0 + b0, k, leq) by {
        assert(a@ + b@ + tail == out@);
        assert(ties(a@ + b@ + tail, k, leq) == ties(a0 + b0, k, leq));
    }
    out
}

/// The items of `v` in ascending order, those of equal rank as they stood.
pub(crate) fn stable_sort<T, F: Fn(&T, &T) -> bool>(
    v: Vec<T>,
    le: &F,
    Ghost(leq): Ghost<spec_fn(T, T) -> bool>,
) -> (out: Vec<T>)
    requires
        is_preorder(leq),
        decides(*le, leq),
    ensures
        stable_sort_of(out@, v@, leq),
    decreases v@.len(),
{
    let ghost all = v@;
    if v.len() <= 1 {
        assert forall|i: int, j: int| 0 <= i <= j < all.len() implies #[trigger] leq(
            all[i],
            all[j],
        ) by {
            assert(leq(all[i], all[i]) || leq(all[i], all[i]));
        }
        return v;
    }
    let mut left = v;
    let half: usize = left.len() / 2;
    let right = left.split_off(half);
    assert(left@ + right@ =~= all);
    let ghost l0 = left@;
    let ghost r0 = right@;
    let left = stable_sort(left, le, Ghost(leq));
    let right = stable_sort(right, le, Ghost(leq));
    let out = merge(left, right, le, Ghost(leq));
    proof {
        lemma_multiset_commutative(left@, right@);
        lemma_multiset_commutative(l0, r0);
        assert forall|k: T| #[trigger] ties(out@, k, leq) == ties(all, k, leq) by {
            assert(ties(out@, k, leq) == ties(left@ + right@, k, leq));
            lemma_ties_add(left@, right@, k, leq);
            lemma_ties_add(l0, r0, k, leq);
            assert(ties(left@, k, leq) == ties(l0, k, leq));
            assert(ties(right@, k, leq) == ties(r0, k, leq));
        }
    }
    out
}

} // verus!
