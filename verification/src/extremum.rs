//! Where a sequence is smallest or largest. Ties go to the lowest index.

use vstd::prelude::*;

verus! {

/// `i` is the first index at which `s` is smallest.
pub open spec fn is_first_min(s: Seq<int>, i: int) -> bool {
    &&& 0 <= i < s.len()
    &&& forall|j: int| 0 <= j < s.len() ==> s[i] <= #[trigger] s[j]
    &&& forall|j: int| 0 <= j < i ==> s[i] < #[trigger] s[j]
}

/// `i` is the first index at which `s` is largest.
pub open spec fn is_first_max(s: Seq<int>, i: int) -> bool {
    &&& 0 <= i < s.len()
    &&& forall|j: int| 0 <= j < s.len() ==> s[i] >= #[trigger] s[j]
    &&& forall|j: int| 0 <= j < i ==> s[i] > #[trigger] s[j]
}

/// The first index at which `s` is smallest.
pub open spec fn first_min(s: Seq<int>) -> int {
    choose|i: int| is_first_min(s, i)
}

/// The first index at which `s` is largest.
pub open spec fn first_max(s: Seq<int>) -> int {
    choose|i: int| is_first_max(s, i)
}

/// A sequence that is not empty has exactly one first minimum.
pub proof fn lemma_first_min(s: Seq<int>)
    requires
        s.len() > 0,
    ensures
        is_first_min(s, first_min(s)),
        forall|i: int| #[trigger] is_first_min(s, i) ==> i == first_min(s),
    decreases s.len(),
{
    if s.len() == 1 {
        assert(is_first_min(s, 0));
    } else {
        let t = s.drop_last();
        lemma_first_min(t);
        let i = first_min(t);
        assert(s[i] == t[i]);
        assert forall|j: int| 0 <= j < t.len() implies s[i] <= #[trigger] s[j] by {
            assert(s[j] == t[j]);
        }
        assert forall|j: int| 0 <= j < i implies s[i] < #[trigger] s[j] by {
            assert(s[j] == t[j]);
        }
        if s.last() < s[i] {
            assert(is_first_min(s, s.len() - 1));
        } else {
            assert(is_first_min(s, i));
        }
    }
    assert forall|i: int| #[trigger] is_first_min(s, i) implies i == first_min(s) by {
        let k = first_min(s);
        assert(s[i] <= s[k] && s[k] <= s[i]);
    }
}

/// A sequence that is not empty has exactly one first maximum.
pub proof fn lemma_first_max(s: Seq<int>)
    requires
        s.len() > 0,
    ensures
        is_first_max(s, first_max(s)),
        forall|i: int| #[trigger] is_first_max(s, i) ==> i == first_max(s),
{
    let t = Seq::new(s.len(), |i: int| -s[i]);
    lemma_first_min(t);
    let k = first_min(t);
    assert forall|j: int| 0 <= j < s.len() implies s[k] >= #[trigger] s[j] by {
        assert(t[k] <= t[j]);
    }
    assert forall|j: int| 0 <= j < k implies s[k] > #[trigger] s[j] by {
        assert(t[k] < t[j]);
    }
    assert(is_first_max(s, k));
    assert forall|i: int| #[trigger] is_first_max(s, i) implies i == first_max(s) by {
        let m = first_max(s);
        assert(s[i] >= s[m] && s[m] >= s[i]);
    }
}

} // verus!
