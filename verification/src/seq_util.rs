//! Small general facts about sequences: removal by swapping with the last
//! element, and how `filter` behaves under `push` and under such a removal.

use vstd::prelude::*;

verus! {

/// The sequence after removing index `i` by moving the last element into its
/// place and dropping the last slot. When `i` is the last index this is just
/// `drop_last`. This is the value `Vec::swap_remove` leaves behind.
pub open spec fn swap_removed<T>(s: Seq<T>, i: int) -> Seq<T> {
    s.update(i, s.last()).drop_last()
}

/// Filtering an empty sequence gives an empty sequence.
pub proof fn lemma_filter_empty<T>(pred: spec_fn(T) -> bool)
    ensures
        Seq::<T>::empty().filter(pred) == Seq::<T>::empty(),
{
    reveal(Seq::filter);
}

/// Filtering a one-element sequence keeps or drops that one element.
pub proof fn lemma_filter_singleton<T>(x: T, pred: spec_fn(T) -> bool)
    ensures
        seq![x].filter(pred) == if pred(x) {
            seq![x]
        } else {
            Seq::<T>::empty()
        },
{
    reveal(Seq::filter);
    assert(seq![x].drop_last() =~= Seq::<T>::empty());
    assert(seq![x].last() == x);
    lemma_filter_empty(pred);
    if pred(x) {
        assert(seq![x].filter(pred) =~= seq![x]);
    }
}

/// Filtering a sequence extended by one element keeps the old result and
/// appends the new element exactly when it satisfies the predicate.
pub proof fn lemma_filter_push<T>(s: Seq<T>, pred: spec_fn(T) -> bool, x: T)
    ensures
        s.push(x).filter(pred) == if pred(x) {
            s.filter(pred).push(x)
        } else {
            s.filter(pred)
        },
{
    reveal(Seq::filter);
    assert(s.push(x).drop_last() =~= s);
    assert(s.push(x).last() == x);
    if pred(x) {
        assert(s.push(x).filter(pred) =~= s.filter(pred).push(x));
    }
}

/// Every element of a filtered sequence satisfies the predicate and occurs
/// in the original sequence.
pub proof fn lemma_filter_elements<T>(s: Seq<T>, pred: spec_fn(T) -> bool)
    ensures
        forall|k: int|
            0 <= k < s.filter(pred).len() ==> pred(#[trigger] s.filter(pred)[k]) && s.contains(
                s.filter(pred)[k],
            ),
    decreases s.len(),
{
    reveal(Seq::filter);
    if s.len() == 0 {
    } else {
        let t = s.drop_last();
        lemma_filter_elements(t, pred);
        assert forall|k: int|
            0 <= k < s.filter(pred).len() implies pred(#[trigger] s.filter(pred)[k]) && s.contains(
            s.filter(pred)[k],
        ) by {
            if pred(s.last()) && k == s.filter(pred).len() - 1 {
                assert(s.filter(pred)[k] == s.last());
                assert(s[s.len() - 1] == s.last());
            } else {
                assert(s.filter(pred)[k] == t.filter(pred)[k]);
                assert(t.contains(t.filter(pred)[k]));
                let m = choose|m: int| 0 <= m < t.len() && t[m] == t.filter(pred)[k];
                assert(s[m] == t[m]);
            }
        }
    }
}

/// A swap-removal takes exactly the slot `i` out of the filtered length: the
/// count drops by one when the removed element matched the predicate, and is
/// unchanged otherwise.
pub proof fn lemma_filter_swap_removed<T>(s: Seq<T>, pred: spec_fn(T) -> bool, i: int)
    requires
        0 <= i < s.len(),
    ensures
        swap_removed(s, i).filter(pred).len() == s.filter(pred).len() - (if pred(s[i]) {
            1int
        } else {
            0int
        }),
{
    let n = s.len() as int;
    if i == n - 1 {
        assert(swap_removed(s, i) =~= s.drop_last());
        assert(s =~= s.drop_last().push(s.last()));
        lemma_filter_push(s.drop_last(), pred, s.last());
    } else {
        let pre = s.subrange(0, i);
        let mid = s.subrange(i + 1, n - 1);
        let xi = s[i];
        let xl = s.last();
        assert(s =~= pre + seq![xi] + mid + seq![xl]);
        assert(swap_removed(s, i) =~= pre + seq![xl] + mid);
        broadcast use Seq::filter_distributes_over_add;

        lemma_filter_singleton(xi, pred);
        lemma_filter_singleton(xl, pred);
        assert((pre + seq![xi] + mid + seq![xl]).filter(pred).len() == pre.filter(pred).len()
            + seq![xi].filter(pred).len() + mid.filter(pred).len() + seq![xl].filter(pred).len());
        assert((pre + seq![xl] + mid).filter(pred).len() == pre.filter(pred).len()
            + seq![xl].filter(pred).len() + mid.filter(pred).len());
    }
}

} // verus!
