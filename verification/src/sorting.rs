//! Stable insertion into sorted sequences, and the stable sort it defines.

use vstd::prelude::*;

verus! {

/// Inserts `x` after every element that `x` does not come strictly before:
/// the insertion step of a stable sort.
pub open spec fn insert_stable<T>(s: Seq<T>, x: T, before: spec_fn(T, T) -> bool) -> Seq<T>
    decreases s.len(),
{
    if s.len() == 0 {
        seq![x]
    } else if before(x, s.last()) {
        insert_stable(s.drop_last(), x, before).push(s.last())
    } else {
        s.push(x)
    }
}

/// The stable sort of a sequence by a strict order `before`: elements that
/// neither comes before the other keep their order.
pub open spec fn stable_sort<T>(s: Seq<T>, before: spec_fn(T, T) -> bool) -> Seq<T>
    decreases s.len(),
{
    if s.len() == 0 {
        s
    } else {
        insert_stable(stable_sort(s.drop_last(), before), s.last(), before)
    }
}

/// Inserting at the position found by scanning back over the elements that
/// `x` comes before is `insert_stable`.
pub proof fn lemma_insert_stable_at<T>(s: Seq<T>, x: T, before: spec_fn(T, T) -> bool, p: int)
    requires
        0 <= p <= s.len(),
        forall|i: int| p <= i < s.len() ==> before(x, #[trigger] s[i]),
        p == 0 || !before(x, s[p - 1]),
    ensures
        insert_stable(s, x, before) == s.insert(p, x),
    decreases s.len(),
{
    if s.len() == 0 {
        assert(s.insert(p, x) =~= seq![x]);
    } else if before(x, s.last()) {
        lemma_insert_stable_at(s.drop_last(), x, before, p);
        assert(s.drop_last().insert(p, x).push(s.last()) =~= s.insert(p, x));
    } else {
        assert(s.insert(p, x) =~= s.push(x));
    }
}

/// A stable sort keeps every element, as often as it occurs.
pub proof fn lemma_stable_sort_permutes<T>(s: Seq<T>, before: spec_fn(T, T) -> bool)
    ensures
        stable_sort(s, before).to_multiset() == s.to_multiset(),
        stable_sort(s, before).len() == s.len(),
    decreases s.len(),
{
    broadcast use vstd::seq_lib::group_to_multiset_ensures;
    if s.len() > 0 {
        lemma_stable_sort_permutes(s.drop_last(), before);
        lemma_insert_stable_permutes(stable_sort(s.drop_last(), before), s.last(), before);
        assert(s =~= s.drop_last().push(s.last()));
    }
}

proof fn lemma_insert_stable_permutes<T>(s: Seq<T>, x: T, before: spec_fn(T, T) -> bool)
    ensures
        insert_stable(s, x, before).to_multiset() == s.to_multiset().insert(x),
        insert_stable(s, x, before).len() == s.len() + 1,
    decreases s.len(),
{
    broadcast use vstd::seq_lib::group_to_multiset_ensures;
    if s.len() == 0 {
        assert(seq![x] =~= Seq::<T>::empty().push(x));
    } else if before(x, s.last()) {
        lemma_insert_stable_permutes(s.drop_last(), x, before);
        assert(s =~= s.drop_last().push(s.last()));
    }
}

/// No element comes strictly before an earlier one.
pub open spec fn sorted_by<T>(s: Seq<T>, before: spec_fn(T, T) -> bool) -> bool {
    forall|i: int, j: int| 0 <= i < j < s.len() ==> !before(s[j], s[i])
}

/// `before` is a strict weak order: asymmetric, and "not before" is
/// transitive.
pub open spec fn strict_weak_order<T>(before: spec_fn(T, T) -> bool) -> bool {
    &&& forall|a: T, b: T| #[trigger] before(a, b) ==> !before(b, a)
    &&& forall|a: T, b: T, c: T| #![trigger before(a, b), before(b, c)] !before(a, b) && !before(b, c) ==> !before(a, c)
}

proof fn lemma_insert_stable_elements<T>(s: Seq<T>, x: T, before: spec_fn(T, T) -> bool)
    ensures
        forall|k: int| 0 <= k < insert_stable(s, x, before).len() ==> #[trigger] insert_stable(s, x, before)[k] == x
            || exists|i: int| 0 <= i < s.len() && insert_stable(s, x, before)[k] == s[i],
        insert_stable(s, x, before).len() == s.len() + 1,
    decreases s.len(),
{
    if s.len() > 0 && before(x, s.last()) {
        lemma_insert_stable_elements(s.drop_last(), x, before);
        let r = insert_stable(s, x, before);
        let r0 = insert_stable(s.drop_last(), x, before);
        assert forall|k: int| 0 <= k < r.len() implies #[trigger] r[k] == x || exists|i: int| 0 <= i < s.len() && r[k] == s[i] by {
            if k < r0.len() {
                assert(r[k] == r0[k]);
                if r0[k] != x {
                    let i = choose|i: int| 0 <= i < s.drop_last().len() && r0[k] == s.drop_last()[i];
                    assert(r[k] == s[i]);
                }
            } else {
                assert(r[k] == s[s.len() - 1]);
            }
        }
    } else if s.len() > 0 {
        let r = insert_stable(s, x, before);
        assert forall|k: int| 0 <= k < r.len() implies #[trigger] r[k] == x || exists|i: int| 0 <= i < s.len() && r[k] == s[i] by {
            if k < s.len() {
                assert(r[k] == s[k]);
            }
        }
    }
}

proof fn lemma_insert_stable_sorted<T>(s: Seq<T>, x: T, before: spec_fn(T, T) -> bool)
    requires
        strict_weak_order(before),
        sorted_by(s, before),
    ensures
        sorted_by(insert_stable(s, x, before), before),
    decreases s.len(),
{
    if s.len() > 0 {
        let last = s.last();
        if before(x, last) {
            let s0 = s.drop_last();
            lemma_insert_stable_sorted(s0, x, before);
            lemma_insert_stable_elements(s0, x, before);
            let r0 = insert_stable(s0, x, before);
            let r = r0.push(last);
            assert forall|i: int, j: int| 0 <= i < j < r.len() implies !before(r[j], r[i]) by {
                if j == r.len() - 1 {
                    assert(r[i] == r0[i]);
                    if r0[i] == x {
                    } else {
                        let m = choose|m: int| 0 <= m < s0.len() && r0[i] == s0[m];
                        assert(s[m] == s0[m]);
                    }
                } else {
                    assert(r[i] == r0[i] && r[j] == r0[j]);
                }
            }
        } else {
            let r = s.push(x);
            assert forall|i: int, j: int| 0 <= i < j < r.len() implies !before(r[j], r[i]) by {
                if j == r.len() - 1 {
                    if i < s.len() - 1 {
                        assert(!before(last, s[i]));
                    }
                }
            }
        }
    }
}

/// A stable sort by a strict weak order leaves no element after one it
/// comes before.
pub proof fn lemma_stable_sort_sorted<T>(s: Seq<T>, before: spec_fn(T, T) -> bool)
    requires
        strict_weak_order(before),
    ensures
        sorted_by(stable_sort(s, before), before),
    decreases s.len(),
{
    if s.len() > 0 {
        lemma_stable_sort_sorted(s.drop_last(), before);
        lemma_insert_stable_sorted(stable_sort(s.drop_last(), before), s.last(), before);
    }
}

} // verus!
