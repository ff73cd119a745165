//! First and last positions in a sequence at which a predicate holds.

use vstd::prelude::*;

verus! {

/// The first position of `s` at which `p` holds, or -1.
pub open spec fn first_index<A>(s: Seq<A>, p: spec_fn(A) -> bool) -> int
    decreases s.len(),
{
    if s.len() == 0 {
        -1
    } else {
        let f = first_index(s.drop_last(), p);
        if f >= 0 {
            f
        } else if p(s.last()) {
            s.len() - 1
        } else {
            -1
        }
    }
}

/// The last position of `s` at which `p` holds, or -1.
pub open spec fn last_index<A>(s: Seq<A>, p: spec_fn(A) -> bool) -> int
    decreases s.len(),
{
    if s.len() == 0 {
        -1
    } else if p(s.last()) {
        s.len() - 1
    } else {
        last_index(s.drop_last(), p)
    }
}

/// `k` is the first position where `p` holds (or `s.len()` when there is none).
pub proof fn lemma_first_index<A>(s: Seq<A>, p: spec_fn(A) -> bool, k: int)
    requires
        0 <= k <= s.len(),
        forall|j: int| 0 <= j < k ==> !p(#[trigger] s[j]),
        k < s.len() ==> p(s[k]),
    ensures
        first_index(s, p) == (if k < s.len() { k } else { -1 }),
    decreases s.len(),
{
    if s.len() > 0 {
        let t = s.drop_last();
        if k == s.len() {
            lemma_first_index(t, p, t.len() as int);
            assert(!p(s[s.len() - 1]));
        } else if k < s.len() - 1 {
            assert forall|j: int| 0 <= j < k implies !p(#[trigger] t[j]) by {
                assert(t[j] == s[j]);
            }
            assert(t[k] == s[k]);
            lemma_first_index(t, p, k);
        } else {
            assert forall|j: int| 0 <= j < t.len() implies !p(#[trigger] t[j]) by {
                assert(t[j] == s[j]);
            }
            lemma_first_index(t, p, t.len() as int);
        }
    }
}

/// `k` is the last position where `p` holds (or -1 when there is none).
pub proof fn lemma_last_index<A>(s: Seq<A>, p: spec_fn(A) -> bool, k: int)
    requires
        -1 <= k < s.len(),
        forall|j: int| k < j < s.len() ==> !p(#[trigger] s[j]),
        k >= 0 ==> p(s[k]),
    ensures
        last_index(s, p) == k,
    decreases s.len(),
{
    if s.len() > 0 {
        let t = s.drop_last();
        if k == s.len() - 1 {
        } else {
            assert(!p(s[s.len() - 1]));
            assert forall|j: int| k < j < t.len() implies !p(#[trigger] t[j]) by {
                assert(t[j] == s[j]);
            }
            if k >= 0 {
                assert(t[k] == s[k]);
            }
            lemma_last_index(t, p, k);
        }
    }
}

/// The position `first_index` reports satisfies `p`, and none before it does.
pub proof fn lemma_first_index_found<A>(s: Seq<A>, p: spec_fn(A) -> bool)
    ensures
        -1 <= first_index(s, p) < s.len(),
        first_index(s, p) >= 0 ==> p(s[first_index(s, p)]),
        forall|j: int|
            0 <= j < s.len() && (first_index(s, p) < 0 || j < first_index(s, p)) ==> !p(
                #[trigger] s[j],
            ),
    decreases s.len(),
{
    if s.len() > 0 {
        let t = s.drop_last();
        lemma_first_index_found(t, p);
        assert forall|j: int|
            0 <= j < s.len() && (first_index(s, p) < 0 || j < first_index(s, p)) implies !p(
                #[trigger] s[j],
            ) by {
            if j < t.len() {
                assert(t[j] == s[j]);
            }
        }
        if first_index(t, p) >= 0 {
            assert(t[first_index(t, p)] == s[first_index(t, p)]);
        }
    }
}


/// The position `last_index` reports satisfies `p`, and none after it does.
pub proof fn lemma_last_index_found<A>(s: Seq<A>, p: spec_fn(A) -> bool)
    ensures
        -1 <= last_index(s, p) < s.len(),
        last_index(s, p) >= 0 ==> p(s[last_index(s, p)]),
        forall|j: int| last_index(s, p) < j < s.len() ==> !p(#[trigger] s[j]),
    decreases s.len(),
{
    if s.len() > 0 {
        let t = s.drop_last();
        lemma_last_index_found(t, p);
        if !p(s.last()) {
            assert forall|j: int| last_index(s, p) < j < s.len() implies !p(#[trigger] s[j]) by {
                if j < t.len() {
                    assert(t[j] == s[j]);
                }
            }
            if last_index(t, p) >= 0 {
                assert(t[last_index(t, p)] == s[last_index(t, p)]);
            }
        }
    }
}

} // verus!
