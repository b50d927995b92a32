//! The first element of a sequence that passes a test.
//!
//! Node identifiers, predecessors and the members of a JSON object are all resolved the
//! same way: among several candidates, the one that was declared first is taken.

use vstd::prelude::*;

verus! {

/// True when `i` is the position of the first element of `s` that passes the test `p`.
pub open spec fn is_first<A>(s: Seq<A>, p: spec_fn(A) -> bool, i: int) -> bool {
    &&& 0 <= i < s.len()
    &&& p(s[i])
    &&& forall|j: int| 0 <= j < i ==> !p(#[trigger] s[j])
}

/// The first element of `s`, in the order of the sequence, that passes the test `p`.
pub open spec fn first_where<A>(s: Seq<A>, p: spec_fn(A) -> bool) -> Option<A> {
    if exists|i: int| is_first(s, p, i) {
        Some(s[choose|i: int| is_first(s, p, i)])
    } else {
        None
    }
}

/// At most one position is the first that passes a test.
pub proof fn lemma_first_unique<A>(s: Seq<A>, p: spec_fn(A) -> bool, i: int, k: int)
    requires
        is_first(s, p, i),
        is_first(s, p, k),
    ensures
        i == k,
{
    if i < k {
        assert(!p(s[i]));
    } else if k < i {
        assert(!p(s[k]));
    }
}

/// The element at the first position that passes a test is what `first_where` gives.
pub proof fn lemma_first_found<A>(s: Seq<A>, p: spec_fn(A) -> bool, i: int)
    requires
        is_first(s, p, i),
    ensures
        first_where(s, p) == Some(s[i]),
{
    let k = choose|k: int| is_first(s, p, k);
    lemma_first_unique(s, p, i, k);
}

/// Where no element passes a test, `first_where` gives nothing.
pub proof fn lemma_first_absent<A>(s: Seq<A>, p: spec_fn(A) -> bool)
    requires
        forall|i: int| 0 <= i < s.len() ==> !p(#[trigger] s[i]),
    ensures
        first_where(s, p) is None,
{
}

/// Where some element passes a test, one of them is the first.
pub proof fn lemma_first_exists<A>(s: Seq<A>, p: spec_fn(A) -> bool, i: int) -> (k: int)
    requires
        0 <= i < s.len(),
        p(s[i]),
    ensures
        is_first(s, p, k),
        k <= i,
    decreases i,
{
    if exists|j: int| 0 <= j < i && p(#[trigger] s[j]) {
        let j = choose|j: int| 0 <= j < i && p(#[trigger] s[j]);
        lemma_first_exists(s, p, j)
    } else {
        i
    }
}

} // verus!
