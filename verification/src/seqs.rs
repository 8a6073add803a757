//! First-match search over sequences, shared by the reducer and the projector.

use vstd::prelude::*;

verus! {

/// Index of the first element satisfying `p`, or -1 when none does.
pub open spec fn first_where<T>(s: Seq<T>, p: spec_fn(T) -> bool) -> int
    decreases s.len(),
{
    if s.len() == 0 {
        -1
    } else if p(s[0]) {
        0
    } else if first_where(s.drop_first(), p) == -1 {
        -1
    } else {
        first_where(s.drop_first(), p) + 1
    }
}

/// `first_where` returns `k` exactly when `p` holds at `k` and nowhere before.
pub proof fn lemma_first_where_found<T>(s: Seq<T>, p: spec_fn(T) -> bool, k: int)
    requires
        0 <= k < s.len(),
        p(s[k]),
        forall|j: int| 0 <= j < k ==> !p(s[j]),
    ensures
        first_where(s, p) == k,
    decreases s.len(),
{
    if k > 0 {
        lemma_first_where_found(s.drop_first(), p, k - 1);
    }
}

/// When no element satisfies `p`, `first_where` returns -1.
pub proof fn lemma_first_where_none<T>(s: Seq<T>, p: spec_fn(T) -> bool)
    requires
        forall|j: int| 0 <= j < s.len() ==> !p(s[j]),
    ensures
        first_where(s, p) == -1,
    decreases s.len(),
{
    if s.len() > 0 {
        lemma_first_where_none(s.drop_first(), p);
    }
}

/// What a `first_where` result means, in both directions.
pub proof fn lemma_first_where_props<T>(s: Seq<T>, p: spec_fn(T) -> bool)
    ensures
        first_where(s, p) == -1 ==> forall|j: int| 0 <= j < s.len() ==> !p(s[j]),
        first_where(s, p) != -1 ==> 0 <= first_where(s, p) < s.len() && p(s[first_where(s, p)])
            && forall|j: int| 0 <= j < first_where(s, p) ==> !p(s[j]),
    decreases s.len(),
{
    if s.len() > 0 {
        lemma_first_where_props(s.drop_first(), p);
        if !p(s[0]) {
            let r = first_where(s.drop_first(), p);
            if r == -1 {
                assert forall|j: int| 0 <= j < s.len() implies !p(s[j]) by {
                    if j > 0 {
                        assert(!p(s.drop_first()[j - 1]));
                    }
                }
            } else {
                assert(s.drop_first()[r] == s[r + 1]);
                assert forall|j: int| 0 <= j < r + 1 implies !p(s[j]) by {
                    if j > 0 {
                        assert(!p(s.drop_first()[j - 1]));
                    }
                }
            }
        }
    }
}

} // verus!
