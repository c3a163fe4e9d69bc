//! First-match search and match counting over sequences, shared by the
//! store and cache models.

use vstd::prelude::*;

verus! {

/// The index of the first element satisfying `p`, or -1.
pub open spec fn first_match<A>(s: Seq<A>, p: spec_fn(A) -> bool) -> int
    decreases s.len(),
{
    if s.len() == 0 {
        -1
    } else if p(s[0]) {
        0
    } else {
        let t = first_match(s.drop_first(), p);
        if t < 0 {
            -1
        } else {
            t + 1
        }
    }
}

/// What `first_match` finds: a match with a match-free prefix, or nothing
/// when no element matches.
pub proof fn lemma_first_match<A>(s: Seq<A>, p: spec_fn(A) -> bool)
    ensures
        -1 <= first_match(s, p) < s.len() || (s.len() == 0 && first_match(s, p) == -1),
        first_match(s, p) == -1 ==> forall|k: int| 0 <= k < s.len() ==> !p(#[trigger] s[k]),
        first_match(s, p) >= 0 ==> {
            &&& first_match(s, p) < s.len()
            &&& p(s[first_match(s, p)])
            &&& forall|k: int| 0 <= k < first_match(s, p) ==> !p(#[trigger] s[k])
        },
    decreases s.len(),
{
    if s.len() > 0 && !p(s[0]) {
        lemma_first_match(s.drop_first(), p);
        let d = s.drop_first();
        let t = first_match(d, p);
        assert(forall|k: int| 0 <= k < d.len() ==> #[trigger] d[k] == s[k + 1]);
        if t < 0 {
            assert(first_match(s, p) == -1);
            assert forall|k: int| 0 <= k < s.len() implies !p(#[trigger] s[k]) by {
                if k > 0 {
                    assert(d[k - 1] == s[k]);
                    assert(!p(d[k - 1]));
                }
            }
        } else {
            assert(first_match(s, p) == t + 1);
            assert(d[t] == s[t + 1]);
            assert forall|k: int| 0 <= k < t + 1 implies !p(#[trigger] s[k]) by {
                if k > 0 {
                    assert(d[k - 1] == s[k]);
                    assert(!p(d[k - 1]));
                }
            }
        }
    }
}

/// How many elements satisfy `p`.
pub open spec fn count_matching<A>(s: Seq<A>, p: spec_fn(A) -> bool) -> nat
    decreases s.len(),
{
    if s.len() == 0 {
        0
    } else {
        count_matching(s.drop_last(), p) + (if p(s.last()) {
            1nat
        } else {
            0nat
        })
    }
}

/// A match-free sequence counts zero, and conversely.
pub proof fn lemma_count_matching_zero<A>(s: Seq<A>, p: spec_fn(A) -> bool)
    ensures
        (count_matching(s, p) == 0) <==> (forall|k: int| 0 <= k < s.len() ==> !p(#[trigger] s[k])),
    decreases s.len(),
{
    if s.len() > 0 {
        lemma_count_matching_zero(s.drop_last(), p);
        let d = s.drop_last();
        assert(forall|k: int| 0 <= k < d.len() ==> #[trigger] d[k] == s[k]);
        assert(s.last() == s[s.len() - 1]);
        if count_matching(s, p) == 0 {
            assert(count_matching(d, p) == 0);
            assert(!p(s.last()));
            assert forall|k: int| 0 <= k < s.len() implies !p(#[trigger] s[k]) by {
                if k < s.len() - 1 {
                    assert(d[k] == s[k]);
                    assert(!p(d[k]));
                }
            }
        }
        if forall|k: int| 0 <= k < s.len() ==> !p(#[trigger] s[k]) {
            assert forall|k: int| 0 <= k < d.len() implies !p(#[trigger] d[k]) by {
                assert(d[k] == s[k]);
                assert(!p(s[k]));
            }
            assert(count_matching(d, p) == 0);
            assert(!p(s[s.len() - 1]));
        }
    }
}

/// Counting is bounded by the length.
pub proof fn lemma_count_matching_le_len<A>(s: Seq<A>, p: spec_fn(A) -> bool)
    ensures
        count_matching(s, p) <= s.len(),
    decreases s.len(),
{
    if s.len() > 0 {
        lemma_count_matching_le_len(s.drop_last(), p);
    }
}

/// A sequence with exactly one matching position counts exactly one match.
pub proof fn lemma_count_matching_one<A>(s: Seq<A>, p: spec_fn(A) -> bool, k: int)
    requires
        0 <= k < s.len(),
        p(s[k]),
        forall|j: int| 0 <= j < s.len() && j != k ==> !p(#[trigger] s[j]),
    ensures
        count_matching(s, p) == 1,
    decreases s.len(),
{
    let d = s.drop_last();
    assert(forall|j: int| 0 <= j < d.len() ==> #[trigger] d[j] == s[j]);
    if k == s.len() - 1 {
        assert(p(s.last()));
        lemma_count_matching_zero(d, p);
        assert(count_matching(d, p) == 0);
    } else {
        assert(!p(s.last()));
        lemma_count_matching_one(d, p, k);
    }
}

/// Every element of the filtered sequence comes from the original.
pub proof fn lemma_filter_elem<A>(s: Seq<A>, p: spec_fn(A) -> bool)
    ensures
        forall|i: int|
            0 <= i < s.filter(p).len() ==> s.contains(#[trigger] s.filter(p)[i]),
    decreases s.len(),
{
    reveal(Seq::filter);
    if s.len() > 0 {
        lemma_filter_elem(s.drop_last(), p);
        let d = s.drop_last();
        let f = s.filter(p);
        assert forall|i: int| 0 <= i < f.len() implies s.contains(#[trigger] f[i]) by {
            if p(s.last()) && i == f.len() - 1 {
                assert(f[i] == s.last());
                assert(s[s.len() - 1] == s.last());
            } else {
                assert(f[i] == d.filter(p)[i]);
                assert(d.contains(d.filter(p)[i]));
                let j = choose|j: int| 0 <= j < d.len() && d[j] == d.filter(p)[i];
                assert(s[j] == d[j]);
            }
        }
    }
}

/// A sequence with no matching element filters to nothing.
pub proof fn lemma_filter_none<A>(s: Seq<A>, p: spec_fn(A) -> bool)
    requires
        forall|k: int| 0 <= k < s.len() ==> !p(#[trigger] s[k]),
    ensures
        s.filter(p).len() == 0,
    decreases s.len(),
{
    reveal(Seq::filter);
    if s.len() > 0 {
        let d = s.drop_last();
        assert(forall|k: int| 0 <= k < d.len() ==> #[trigger] d[k] == s[k]);
        assert(!p(s[s.len() - 1]));
        lemma_filter_none(d, p);
    }
}

} // verus!
