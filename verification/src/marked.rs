//! Keeping the items of a vector that a parallel vector of flags marks.
use vstd::prelude::*;

verus! {

/// The items of `s` whose flag in `keep` (read at the same position) is set,
/// in their order in `s`.
pub open spec fn kept<T>(s: Seq<T>, keep: Seq<bool>) -> Seq<T>
    decreases s.len(),
{
    if s.len() == 0 {
        Seq::empty()
    } else {
        let rest = kept(s.drop_last(), keep);
        if keep[s.len() - 1] {
            rest.push(s.last())
        } else {
            rest
        }
    }
}

/// Keeping by flags that a predicate computed is filtering by that predicate.
pub proof fn lemma_kept_is_filter<T>(s: Seq<T>, keep: Seq<bool>, pred: spec_fn(T) -> bool)
    requires
        keep.len() == s.len(),
        forall|i: int| 0 <= i < s.len() ==> keep[i] == pred(#[trigger] s[i]),
    ensures
        kept(s, keep) == s.filter(pred),
    decreases s.len(),
{
    if s.len() > 0 {
        let t = s.drop_last();
        assert forall|i: int| 0 <= i < t.len() implies keep[i] == pred(#[trigger] t[i]) by {
            assert(t[i] == s[i]);
        }
        lemma_kept_prefix_flags(t, keep, keep.take(t.len() as int));
        lemma_kept_is_filter(t, keep.take(t.len() as int), pred);
        reveal_with_fuel(Seq::filter, 1);
    }
}

/// Only the flags at positions of `s` matter.
pub proof fn lemma_kept_prefix_flags<T>(s: Seq<T>, a: Seq<bool>, b: Seq<bool>)
    requires
        a.len() >= s.len(),
        b.len() >= s.len(),
        forall|i: int| 0 <= i < s.len() ==> a[i] == b[i],
    ensures
        kept(s, a) == kept(s, b),
    decreases s.len(),
{
    if s.len() > 0 {
        lemma_kept_prefix_flags(s.drop_last(), a, b);
    }
}

/// Removes, in place, every item of `v` whose flag in `keep` is unset; the
/// items left keep their order.
pub fn retain_marked<T>(v: &mut Vec<T>, keep: &Vec<bool>)
    requires
        keep@.len() == old(v)@.len(),
    ensures
        final(v)@ == kept(old(v)@, keep@),
{
    let ghost s = v@;
    let n = keep.len();
    let mut i: usize = 0;
    let mut j: usize = 0;
    while j < n
        invariant
            n == keep@.len(),
            n == s.len(),
            j <= n,
            i <= j,
            i == kept(s.take(j as int), keep@).len(),
            v@ == kept(s.take(j as int), keep@) + s.skip(j as int),
        decreases n - j,
    {
        let ghost before = kept(s.take(j as int), keep@);
        assert(s.take(j + 1).drop_last() =~= s.take(j as int));
        assert(s.take(j + 1).last() == s[j as int]);
        assert(v@[i as int] == s[j as int]) by {
            assert((before + s.skip(j as int))[before.len() as int] == s.skip(j as int)[0]);
        }
        if keep[j] {
            assert(v@ =~= before.push(s[j as int]) + s.skip(j + 1));
            i = i + 1;
        } else {
            v.remove(i);
            assert(v@ =~= before + s.skip(j + 1));
        }
        j = j + 1;
    }
    assert(s.take(n as int) =~= s);
    assert(s.skip(n as int) =~= Seq::<T>::empty());
    assert(v@ =~= kept(s, keep@));
}

} // verus!
