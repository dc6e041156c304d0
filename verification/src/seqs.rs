//! Small sequence lemmas shared by the splitting and extraction
//! proofs.

use vstd::prelude::*;

verus! {

/// Filtering a sequence extended by one element keeps the element
/// exactly when the predicate accepts it.
pub proof fn lemma_filter_push<A>(s: Seq<A>, x: A, pred: spec_fn(A) -> bool)
    ensures
        (s.push(x)).filter(pred) == (if pred(x) {
            s.filter(pred).push(x)
        } else {
            s.filter(pred)
        }),
{
    reveal(Seq::filter);
    assert((s.push(x)).drop_last() =~= s);
    assert((s.push(x)).last() == x);
}

/// A value a sequence contains is still there after a push.
pub proof fn lemma_contains_push<A>(s: Seq<A>, x: A, y: A)
    requires
        s.contains(y),
    ensures
        s.push(x).contains(y),
{
    let k = choose|k: int| 0 <= k < s.len() && s[k] == y;
    assert(s.push(x)[k] == y);
}

} // verus!
