//! The sampling engine shared by every deck: random non-replacing removal
//! of a requested number of items, order-preserving filtering, and the one
//! failure the engine knows, asking for more items than remain.

use crate::source::IndexSource;
use vstd::prelude::*;

verus! {

broadcast use vstd::seq_lib::group_to_multiset_ensures;

/// The engine's single failure: a draw asked for more items than the
/// population held.
#[derive(Debug, Clone, Copy, PartialEq, Eq, Structural)]
pub struct InsufficientCards {
    pub requested: usize,
    pub available: usize,
}

/// A fresh vector holding the same items in the same order.
pub fn copy_all<T: Copy>(items: &Vec<T>) -> (r: Vec<T>)
    ensures
        r@ == items@,
{
    let mut r: Vec<T> = Vec::new();
    let n = items.len();
    for i in 0..n
        invariant
            n == items@.len(),
            r@ == items@.take(i as int),
    {
        r.push(items[i]);
        proof {
            assert(items@.take(i + 1) =~= items@.take(i as int).push(items@[i as int]));
        }
    }
    proof {
        assert(items@.take(n as int) =~= items@);
    }
    r
}

/// Says whether `a` can be read off `b` in order, skipping items of `b`:
/// the greedy match, which takes an agreeing front item at once, decides
/// it.
pub open spec fn is_subsequence_of<T>(a: Seq<T>, b: Seq<T>) -> bool
    decreases b.len(),
{
    if a.len() == 0 {
        true
    } else if b.len() == 0 {
        false
    } else if a[0] == b[0] {
        is_subsequence_of(a.drop_first(), b.drop_first())
    } else {
        is_subsequence_of(a, b.drop_first())
    }
}

pub proof fn lemma_subseq_refl<T>(a: Seq<T>)
    ensures
        is_subsequence_of(a, a),
    decreases a.len(),
{
    if a.len() > 0 {
        lemma_subseq_refl(a.drop_first());
    }
}

proof fn lemma_subseq_drop_first<T>(b: Seq<T>)
    requires
        b.len() > 0,
    ensures
        is_subsequence_of(b.drop_first(), b),
    decreases b.len(),
{
    let a = b.drop_first();
    if a.len() > 0 {
        if a[0] == b[0] {
            lemma_subseq_drop_first(a);
        } else {
            lemma_subseq_refl(a);
        }
    }
}

/// Dropping one item leaves a subsequence.
pub proof fn lemma_remove_is_subsequence<T>(s: Seq<T>, i: int)
    requires
        0 <= i < s.len(),
    ensures
        is_subsequence_of(s.remove(i), s),
    decreases i,
{
    if i == 0 {
        assert(s.remove(0) =~= s.drop_first());
        lemma_subseq_drop_first(s);
    } else {
        lemma_remove_is_subsequence(s.drop_first(), i - 1);
        assert(s.remove(i).drop_first() =~= s.drop_first().remove(i - 1));
        assert(s.remove(i)[0] == s[0]);
    }
}

proof fn lemma_subseq_extend<T>(a: Seq<T>, c: Seq<T>)
    requires
        c.len() > 0,
        is_subsequence_of(a, c.drop_first()),
    ensures
        is_subsequence_of(a, c),
    decreases c.len(), a.len(),
{
    if a.len() > 0 && a[0] == c[0] {
        lemma_subseq_tail(a, c.drop_first());
    }
}

proof fn lemma_subseq_tail<T>(a: Seq<T>, b: Seq<T>)
    requires
        a.len() > 0,
        is_subsequence_of(a, b),
    ensures
        is_subsequence_of(a.drop_first(), b),
    decreases b.len(), a.len(),
{
    if a[0] == b[0] {
        lemma_subseq_extend(a.drop_first(), b);
    } else {
        lemma_subseq_tail(a, b.drop_first());
        lemma_subseq_extend(a.drop_first(), b);
    }
}

/// Being a subsequence carries across a middle sequence.
pub proof fn lemma_subseq_trans<T>(a: Seq<T>, b: Seq<T>, c: Seq<T>)
    requires
        is_subsequence_of(a, b),
        is_subsequence_of(b, c),
    ensures
        is_subsequence_of(a, c),
    decreases c.len(),
{
    if a.len() > 0 {
        if b[0] == c[0] {
            if a[0] == b[0] {
                lemma_subseq_trans(a.drop_first(), b.drop_first(), c.drop_first());
            } else {
                lemma_subseq_trans(a, b.drop_first(), c.drop_first());
                lemma_subseq_extend(a, c);
            }
        } else {
            lemma_subseq_trans(a, b, c.drop_first());
            lemma_subseq_extend(a, c);
        }
    }
}

/// Removes `amount` items, one at a time: each step asks the source for an
/// index among the items still present, takes that item out and appends it
/// to the result. No item is created, lost or duplicated, the remainder
/// keeps its relative order, and a request for nothing changes nothing.
pub fn sample_destructive<T, R: IndexSource>(
    items: &mut Vec<T>,
    amount: usize,
    picker: &mut R,
) -> (drawn: Vec<T>)
    requires
        amount <= old(items)@.len(),
    ensures
        drawn@.len() == amount,
        final(items)@.len() + amount == old(items)@.len(),
        final(items)@.to_multiset().add(drawn@.to_multiset()) == old(items)@.to_multiset(),
        is_subsequence_of(final(items)@, old(items)@),
        amount == 0 ==> final(items)@ == old(items)@,
{
    let ghost orig = items@;
    let mut drawn: Vec<T> = Vec::new();
    proof {
        lemma_subseq_refl(orig);
    }
    for k in 0..amount
        invariant
            amount <= orig.len(),
            drawn@.len() == k,
            items@.len() + k == orig.len(),
            items@.to_multiset().add(drawn@.to_multiset()) == orig.to_multiset(),
            is_subsequence_of(items@, orig),
            k == 0 ==> items@ == orig,
    {
        let ghost before = items@;
        let idx = picker.pick(items.len());
        let item = items.remove(idx);
        drawn.push(item);
        proof {
            assert(before.contains(before[idx as int]));
            assert(items@.to_multiset().add(drawn@.to_multiset()) =~= orig.to_multiset());
            lemma_remove_is_subsequence(before, idx as int);
            lemma_subseq_trans(items@, before, orig);
        }
    }
    drawn
}

/// Draws `amount` items without replacement, touching nothing: the
/// removal runs on a private copy, so the drawn items are `amount`
/// distinct positions of the population, together no more than it holds.
pub fn sample_nondestructive<T: Copy, R: IndexSource>(
    items: &Vec<T>,
    amount: usize,
    picker: &mut R,
) -> (drawn: Vec<T>)
    requires
        amount <= items@.len(),
    ensures
        drawn@.len() == amount,
        drawn@.to_multiset().subset_of(items@.to_multiset()),
{
    let mut pool = copy_all(items);
    let drawn = sample_destructive(&mut pool, amount, picker);
    proof {
        broadcast use vstd::multiset::group_multiset_axioms;

        assert(forall|t: T|
            drawn@.to_multiset().count(t) <= pool@.to_multiset().add(drawn@.to_multiset()).count(
                t,
            ));
    }
    drawn
}

/// The subsequence of `s` whose positions `keep` marks true.
pub open spec fn selected<T>(s: Seq<T>, keep: Seq<bool>) -> Seq<T>
    recommends
        s.len() == keep.len(),
    decreases s.len(),
{
    if s.len() == 0 {
        Seq::empty()
    } else {
        selected(s.drop_last(), keep.drop_last()) + (if keep.len() > 0 && keep.last() {
            seq![s.last()]
        } else {
            Seq::<T>::empty()
        })
    }
}

/// When the marks agree pointwise with a predicate, the selection is the
/// classical filter: a caller whose condition decides `p` exactly may read
/// the filtering contract as `r@ == s.filter(p)`.
pub proof fn lemma_selected_matches_filter<T>(s: Seq<T>, keep: Seq<bool>, p: spec_fn(T) -> bool)
    requires
        keep.len() == s.len(),
        forall|i: int| 0 <= i < s.len() ==> keep[i] == p(s[i]),
    ensures
        selected(s, keep) == s.filter(p),
    decreases s.len(),
{
    reveal(Seq::filter);
    if s.len() > 0 {
        lemma_selected_matches_filter(s.drop_last(), keep.drop_last(), p);
        if p(s.last()) {
            assert(selected(s.drop_last(), keep.drop_last()) + seq![s.last()]
                =~= selected(s.drop_last(), keep.drop_last()).push(s.last()));
        } else {
            assert(selected(s.drop_last(), keep.drop_last()) + Seq::<T>::empty()
                =~= selected(s.drop_last(), keep.drop_last()));
        }
    }
}

/// Keeps, in their original order, the items the condition approves. The
/// result is pinned to the condition's actual verdicts: some sequence of
/// answers the condition's contract allows selects exactly the result.
pub fn filter_items<T: Copy, F: Fn(T) -> bool>(items: &Vec<T>, condition: F) -> (r: Vec<T>)
    requires
        forall|i: int| 0 <= i < items@.len() ==> call_requires(condition, (items@[i],)),
    ensures
        exists|keep: Seq<bool>|
            keep.len() == items@.len() && (forall|i: int|
                0 <= i < items@.len() ==> call_ensures(condition, (items@[i],), keep[i]))
                && r@ == selected(items@, keep),
        forall|j: int| 0 <= j < r@.len() ==> items@.contains(r@[j]),
{
    let mut r: Vec<T> = Vec::new();
    let ghost mut keep: Seq<bool> = Seq::empty();
    let n = items.len();
    for i in 0..n
        invariant
            n == items@.len(),
            keep.len() == i,
            forall|t: int| 0 <= t < i ==> call_ensures(condition, (items@[t],), keep[t]),
            forall|t: int| 0 <= t < items@.len() ==> call_requires(condition, (items@[t],)),
            r@ == selected(items@.take(i as int), keep),
            forall|j: int| 0 <= j < r@.len() ==> items@.contains(r@[j]),
    {
        let ghost prev_keep = keep;
        let verdict = condition(items[i]);
        proof {
            keep = keep.push(verdict);
            assert(items@.take(i + 1).drop_last() =~= items@.take(i as int));
            assert(keep.drop_last() =~= prev_keep);
        }
        if verdict {
            r.push(items[i]);
        }
    }
    proof {
        assert(items@.take(n as int) =~= items@);
    }
    r
}

} // verus!
