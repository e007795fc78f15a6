//! First-match search over sequences, the shape of every "first device",
//! "first asset" and "first release" lookup in the crate.

use vstd::prelude::*;

verus! {

/// The index of the first element at or after `i` that `p` accepts.
pub open spec fn first_where<T>(s: Seq<T>, p: spec_fn(T) -> bool, i: int) -> Option<int>
    decreases s.len() - i,
{
    if i < 0 || i >= s.len() {
        None
    } else if p(s[i]) {
        Some(i)
    } else {
        first_where(s, p, i + 1)
    }
}

/// `first_where` finds the first accepted element at or after `i`, and finds
/// none exactly when no element from `i` on is accepted.
pub proof fn lemma_first_where<T>(s: Seq<T>, p: spec_fn(T) -> bool, i: int)
    requires
        0 <= i,
    ensures
        first_where(s, p, i) matches Some(k) ==> i <= k < s.len() && p(s[k])
            && forall|j: int| i <= j < k ==> !p(#[trigger] s[j]),
        first_where(s, p, i) is None ==> forall|j: int| i <= j < s.len() ==> !p(#[trigger] s[j]),
    decreases s.len() - i,
{
    if i < s.len() && !p(s[i]) {
        lemma_first_where(s, p, i + 1);
    }
}

} // verus!
