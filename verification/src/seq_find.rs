use vstd::prelude::*;

verus! {

/// Some element of `s` satisfies `pred`.
pub open spec fn exists_match<T>(s: Seq<T>, pred: spec_fn(T) -> bool) -> bool {
    exists|i: int| 0 <= i < s.len() && pred(s[i])
}

/// The index of the first element of `s` satisfying `pred`; equals `s.len()`
/// when no element does.
pub open spec fn first_match_index<T>(s: Seq<T>, pred: spec_fn(T) -> bool) -> int
    decreases s.len(),
{
    if s.len() == 0 {
        0
    } else if pred(s[0]) {
        0
    } else {
        1 + first_match_index(s.drop_first(), pred)
    }
}

/// When a match exists, the first match index is in range, points at a
/// matching element, and everything before it does not match.
pub proof fn lemma_first_match_index<T>(s: Seq<T>, pred: spec_fn(T) -> bool)
    requires
        exists_match(s, pred),
    ensures
        0 <= first_match_index(s, pred) < s.len(),
        pred(s[first_match_index(s, pred)]),
        forall|k: int| 0 <= k < first_match_index(s, pred) ==> !pred(s[k]),
    decreases s.len(),
{
    if s.len() == 0 {
    } else if pred(s[0]) {
    } else {
        let w = choose|i: int| 0 <= i < s.len() && pred(s[i]);
        assert(s.drop_first()[w - 1] == s[w]);
        lemma_first_match_index(s.drop_first(), pred);
        assert forall|k: int| 0 <= k < first_match_index(s, pred) implies !pred(s[k]) by {
            if k > 0 {
                assert(s.drop_first()[k - 1] == s[k]);
            }
        }
    }
}

/// An index that matches, with nothing matching before it, is the first
/// match index.
pub proof fn lemma_first_match_index_unique<T>(s: Seq<T>, pred: spec_fn(T) -> bool, j: int)
    requires
        0 <= j < s.len(),
        pred(s[j]),
        forall|k: int| 0 <= k < j ==> !pred(s[k]),
    ensures
        first_match_index(s, pred) == j,
    decreases s.len(),
{
    if pred(s[0]) {
        assert(j == 0);
    } else {
        assert(s.drop_first()[j - 1] == s[j]);
        assert forall|k: int| 0 <= k < j - 1 implies !pred(s.drop_first()[k]) by {
            assert(s.drop_first()[k] == s[k + 1]);
        }
        lemma_first_match_index_unique(s.drop_first(), pred, j - 1);
    }
}

} // verus!
