//! Sums of a per-agent weight over a snapshot, and their laws: a sum grows
//! one term at a time, is bounded by its largest term, and does not depend
//! on the order of the snapshot.

use vstd::prelude::*;
use crate::store::AgentModel;

verus! {

/// Sum of `f` over every agent of the snapshot.
pub open spec fn sum_by(s: Seq<AgentModel>, f: spec_fn(AgentModel) -> int) -> int
    decreases s.len(),
{
    if s.len() == 0 {
        0
    } else {
        sum_by(s.drop_last(), f) + f(s.last())
    }
}

/// Extending a prefix by one agent adds that agent's term.
pub proof fn lemma_sum_by_take_step(s: Seq<AgentModel>, f: spec_fn(AgentModel) -> int, k: int)
    requires
        0 <= k < s.len(),
    ensures
        sum_by(s.take(k + 1), f) == sum_by(s.take(k), f) + f(s[k]),
{
    assert(s.take(k + 1).drop_last() =~= s.take(k));
    assert(s.take(k + 1).last() == s[k]);
}

/// A sum of `n` terms each within `[-c, c]` lies within `[-n*c, n*c]`.
pub proof fn lemma_sum_by_bound(s: Seq<AgentModel>, f: spec_fn(AgentModel) -> int, c: int)
    requires
        forall|i: int| 0 <= i < s.len() ==> -c <= #[trigger] f(s[i]) <= c,
    ensures
        -(s.len() as int) * c <= sum_by(s, f) <= (s.len() as int) * c,
    decreases s.len(),
{
    if s.len() == 0 {
    } else {
        assert(forall|i: int|
            0 <= i < s.drop_last().len() ==> -c <= #[trigger] f(s.drop_last()[i]) <= c) by {
            assert(forall|i: int| 0 <= i < s.drop_last().len() ==> s.drop_last()[i] == s[i]);
        }
        lemma_sum_by_bound(s.drop_last(), f, c);
        let n = s.len() as int;
        assert(-c <= f(s[n - 1]) <= c);
        assert(f(s.last()) == f(s[n - 1]));
        assert(n * c == (n - 1) * c + c) by (nonlinear_arith);
        assert(-n * c == -(n - 1) * c - c) by (nonlinear_arith);
    }
}

/// Removing one agent removes exactly its term.
pub proof fn lemma_sum_by_remove(s: Seq<AgentModel>, f: spec_fn(AgentModel) -> int, k: int)
    requires
        0 <= k < s.len(),
    ensures
        sum_by(s.remove(k), f) == sum_by(s, f) - f(s[k]),
    decreases s.len(),
{
    if k == s.len() - 1 {
        assert(s.remove(k) =~= s.drop_last());
    } else {
        assert(s.remove(k).drop_last() =~= s.drop_last().remove(k));
        assert(s.remove(k).last() == s.last());
        lemma_sum_by_remove(s.drop_last(), f, k);
        assert(s.drop_last()[k] == s[k]);
    }
}

/// Two snapshots holding the same agents in any order have the same sum.
pub proof fn lemma_sum_by_permutation(
    s1: Seq<AgentModel>,
    s2: Seq<AgentModel>,
    f: spec_fn(AgentModel) -> int,
)
    requires
        s1.to_multiset() == s2.to_multiset(),
    ensures
        sum_by(s1, f) == sum_by(s2, f),
    decreases s1.len(),
{
    broadcast use vstd::seq_lib::group_to_multiset_ensures;

    assert(s1.to_multiset().len() == s1.len());
    assert(s2.to_multiset().len() == s2.len());
    if s1.len() == 0 {
        assert(s2.len() == 0);
    } else {
        let a = s1.last();
        assert(s1.contains(a));
        assert(s1.to_multiset().count(a) > 0);
        assert(s2.to_multiset().count(a) > 0);
        assert(s2.contains(a));
        let k = choose|k: int| 0 <= k < s2.len() && s2[k] == a;
        assert(s1.drop_last() =~= s1.remove(s1.len() - 1));
        assert(s1.remove(s1.len() - 1).to_multiset() == s1.to_multiset().remove(a));
        assert(s2.remove(k).to_multiset() == s2.to_multiset().remove(a));
        lemma_sum_by_permutation(s1.drop_last(), s2.remove(k), f);
        lemma_sum_by_remove(s2, f, k);
    }
}

} // verus!
