//! Laws that relate several container operations to one another.
//!
//! Each law is stated over the mathematical model that the operations'
//! contracts use — the element sequence `self@` and the capacity — so it
//! composes directly with those contracts. The capacity laws live with the
//! growth policy in [`crate::growth`].

use vstd::prelude::*;

verus! {

/// The element sequence built by appending the values `vals` one at a time,
/// each at the end, starting from nothing — the shape `create_empty`
/// followed by a run of `append` calls produces, by their contracts.
pub open spec fn appended<T>(vals: Seq<T>) -> Seq<T>
    decreases vals.len(),
{
    if vals.len() == 0 {
        Seq::empty()
    } else {
        appended(vals.drop_last()).push(vals.last())
    }
}

/// Law: after a run of `N` appends starting from an empty container, the
/// length is `N` and position `i` holds the value of the `i + 1`-th append,
/// for every `i` below `N`.
pub proof fn lemma_appends_in_order<T>(vals: Seq<T>)
    ensures
        appended(vals).len() == vals.len(),
        forall|i: int| 0 <= i < vals.len() ==> appended(vals)[i] == vals[i],
    decreases vals.len(),
{
    if vals.len() > 0 {
        lemma_appends_in_order(vals.drop_last());
        assert forall|i: int| 0 <= i < vals.len() implies appended(vals)[i] == vals[i] by {
            if i < vals.len() - 1 {
                assert(appended(vals)[i] == appended(vals.drop_last())[i]);
                assert(vals.drop_last()[i] == vals[i]);
            } else {
                assert(appended(vals)[i] == vals.last());
            }
        }
    }
}

/// Law: removing at position `i` immediately after inserting at position
/// `i`, with no mutation in between, restores the element sequence exactly.
pub proof fn lemma_insert_remove_round_trip<T>(s: Seq<T>, i: int, v: T)
    requires
        0 <= i <= s.len(),
    ensures
        s.insert(i, v).remove(i) == s,
{
    assert(s.insert(i, v).remove(i) =~= s);
}

/// A sequence every element of which a predicate approves is left whole by
/// filtering with that predicate.
proof fn lemma_filter_all_kept<T>(s: Seq<T>, p: spec_fn(T) -> bool)
    requires
        forall|i: int| 0 <= i < s.len() ==> p(#[trigger] s[i]),
    ensures
        s.filter(p) == s,
    decreases s.len(),
{
    reveal(Seq::filter);
    if s.len() == 0 {
        assert(s.filter(p) =~= s);
    } else {
        assert(forall|i: int| 0 <= i < s.drop_last().len() ==> p(#[trigger] s.drop_last()[i]));
        lemma_filter_all_kept(s.drop_last(), p);
        assert(p(s.last()));
        assert(s.drop_last().push(s.last()) =~= s);
    }
}

/// Law: keeping the elements a predicate approves is idempotent — filtering
/// twice with the same predicate equals filtering once.
pub proof fn lemma_retain_idempotent<T>(s: Seq<T>, p: spec_fn(T) -> bool)
    ensures
        s.filter(p).filter(p) == s.filter(p),
{
    assert forall|i: int| 0 <= i < s.filter(p).len() implies p(s.filter(p)[i]) by {
        s.lemma_filter_pred(p, i);
    }
    lemma_filter_all_kept(s.filter(p), p);
}

/// Law: a deep copy whose element clones are exact — every clone equals the
/// value it was made from — has exactly the source's elements. (That the
/// copy and the source then evolve independently is ownership: each owns
/// its own elements.)
pub proof fn lemma_exact_clone_equal<T: Clone>(source: Seq<T>, copy: Seq<T>)
    requires
        copy.len() == source.len(),
        forall|i: int| 0 <= i < source.len() ==> cloned::<T>(source[i], #[trigger] copy[i]),
        forall|a: T, b: T| #[trigger] cloned::<T>(a, b) ==> b == a,
    ensures
        copy == source,
{
    assert(copy =~= source);
}

} // verus!
