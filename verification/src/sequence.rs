//! Searching in sequences.
use vstd::prelude::*;

verus! {

/// The first position whose element satisfies `f`, or the length of the sequence.
pub open spec fn first_index<A>(s: Seq<A>, f: spec_fn(A) -> bool) -> int
    decreases s.len(),
{
    if s.len() == 0 || f(s[0]) {
        0
    } else {
        1 + first_index(s.drop_first(), f)
    }
}

/// No element before the first position satisfies `f`, and the element there does.
pub proof fn lemma_first_index<A>(s: Seq<A>, f: spec_fn(A) -> bool)
    ensures
        0 <= first_index(s, f) <= s.len(),
        forall|i: int| 0 <= i < first_index(s, f) ==> !f(#[trigger] s[i]),
        first_index(s, f) < s.len() ==> f(s[first_index(s, f)]),
    decreases s.len(),
{
    if s.len() > 0 && !f(s[0]) {
        let t = s.drop_first();
        lemma_first_index(t, f);
        assert forall|i: int| 0 <= i < first_index(s, f) implies !f(#[trigger] s[i]) by {
            if i > 0 {
                assert(s[i] == t[i - 1]);
            }
        }
    }
}

/// A position before which no element satisfies `f`, and where the element does, is the first.
pub proof fn lemma_first_index_is<A>(s: Seq<A>, f: spec_fn(A) -> bool, i: int)
    requires
        0 <= i <= s.len(),
        forall|j: int| 0 <= j < i ==> !f(#[trigger] s[j]),
        i < s.len() ==> f(s[i]),
    ensures
        first_index(s, f) == i,
{
    lemma_first_index(s, f);
    let p = first_index(s, f);
    if p < i {
        assert(!f(s[p]));
    }
    if i < p {
        assert(!f(s[i]));
    }
}

/// The last position whose element satisfies `f`, or minus one.
pub open spec fn last_index<A>(s: Seq<A>, f: spec_fn(A) -> bool) -> int
    decreases s.len(),
{
    if s.len() == 0 {
        -1
    } else if f(s.last()) {
        s.len() - 1
    } else {
        last_index(s.drop_last(), f)
    }
}

/// No element behind the last position satisfies `f`, and the element there does.
pub proof fn lemma_last_index<A>(s: Seq<A>, f: spec_fn(A) -> bool)
    ensures
        -1 <= last_index(s, f) < s.len(),
        forall|i: int| last_index(s, f) < i < s.len() ==> !f(#[trigger] s[i]),
        last_index(s, f) >= 0 ==> f(s[last_index(s, f)]),
    decreases s.len(),
{
    if s.len() > 0 && !f(s.last()) {
        let t = s.drop_last();
        lemma_last_index(t, f);
        assert forall|i: int| last_index(s, f) < i < s.len() implies !f(#[trigger] s[i]) by {
            if i < s.len() - 1 {
                assert(s[i] == t[i]);
            }
        }
    }
}

/// A position behind which no element satisfies `f`, and where the element does, is the last.
pub proof fn lemma_last_index_is<A>(s: Seq<A>, f: spec_fn(A) -> bool, i: int)
    requires
        -1 <= i < s.len(),
        forall|j: int| i < j < s.len() ==> !f(#[trigger] s[j]),
        i >= 0 ==> f(s[i]),
    ensures
        last_index(s, f) == i,
{
    lemma_last_index(s, f);
    let p = last_index(s, f);
    if p > i {
        assert(!f(s[p]));
    }
    if i > p {
        assert(!f(s[i]));
    }
}

} // verus!
