//! Counting and summing over sequences, for the laws that speak of how many items there
//! are and what they come to.

use vstd::prelude::*;

verus! {

/// One more item is counted where it meets the condition.
pub proof fn lemma_filter_step<A>(s: Seq<A>, meets: spec_fn(A) -> bool)
    requires
        s.len() > 0,
    ensures
        s.filter(meets).len() == s.drop_last().filter(meets).len() + if meets(s.last()) {
            1nat
        } else {
            0nat
        },
{
    reveal(Seq::filter);
}

/// Nothing is counted where there is nothing.
pub proof fn lemma_filter_none<A>(s: Seq<A>, meets: spec_fn(A) -> bool)
    requires
        s.len() == 0,
    ensures
        s.filter(meets).len() == 0,
{
    reveal(Seq::filter);
}

/// One more item is added to a sum.
pub proof fn lemma_fold_step<A>(s: Seq<A>, f: spec_fn(int, A) -> int)
    requires
        s.len() > 0,
    ensures
        s.fold_left(0, f) == f(s.drop_last().fold_left(0, f), s.last()),
{
    reveal_with_fuel(Seq::fold_left, 2);
}

} // verus!
