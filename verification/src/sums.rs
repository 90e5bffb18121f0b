//! Sums over the entries of a finite map of rewards.

use crate::types::RewardInfo;
use vstd::prelude::*;

verus! {

/// The sum of `f` over the entries of `m`; each key counts once.
pub open spec fn sum_of<K>(m: Map<K, RewardInfo>, f: spec_fn(RewardInfo) -> nat) -> nat
    decreases m.dom().len(),
    when m.dom().finite()
{
    if m.dom().len() == 0 {
        0
    } else {
        let k = m.dom().choose();
        f(m[k]) + sum_of(m.remove(k), f)
    }
}

/// What is outstanding of an entry.
pub open spec fn outstanding_of() -> spec_fn(RewardInfo) -> nat {
    |info: RewardInfo| info.outstanding()
}

/// What has been paid of an entry.
pub open spec fn claimed_of() -> spec_fn(RewardInfo) -> nat {
    |info: RewardInfo| info.claimed_reward as nat
}

/// The sum over no entries is zero.
pub proof fn lemma_sum_empty<K>(f: spec_fn(RewardInfo) -> nat)
    ensures
        sum_of(Map::<K, RewardInfo>::empty(), f) == 0,
{
    assert(Map::<K, RewardInfo>::empty().dom() =~= Set::<K>::empty());
}

/// Any one entry can be taken out of the sum.
pub proof fn lemma_sum_remove<K>(m: Map<K, RewardInfo>, f: spec_fn(RewardInfo) -> nat, k: K)
    requires
        m.dom().finite(),
        m.contains_key(k),
    ensures
        sum_of(m, f) == f(m[k]) + sum_of(m.remove(k), f),
    decreases m.dom().len(),
{
    broadcast use vstd::set::group_set_axioms;

    assert(m.dom().len() != 0);
    let c = m.dom().choose();
    assert(m.contains_key(c));
    if c != k {
        let rest = m.remove(c);
        assert(rest.dom() =~= m.dom().remove(c));
        assert(rest.contains_key(k));
        lemma_sum_remove(rest, f, k);
        let other = m.remove(k);
        assert(other.dom() =~= m.dom().remove(k));
        assert(other.contains_key(c));
        assert(rest.remove(k) =~= other.remove(c));
        lemma_sum_remove(other, f, c);
    }
}

/// Setting an entry replaces its share of the sum.
pub proof fn lemma_sum_insert<K>(
    m: Map<K, RewardInfo>,
    f: spec_fn(RewardInfo) -> nat,
    k: K,
    info: RewardInfo,
)
    requires
        m.dom().finite(),
    ensures
        sum_of(m.insert(k, info), f) == f(info) + sum_of(m.remove(k), f),
        !m.contains_key(k) ==> sum_of(m.insert(k, info), f) == f(info) + sum_of(m, f),
        m.contains_key(k) ==> sum_of(m.insert(k, info), f) + f(m[k]) == f(info) + sum_of(m, f),
{
    broadcast use vstd::set::group_set_axioms;

    let next = m.insert(k, info);
    assert(next.dom() =~= m.dom().insert(k));
    lemma_sum_remove(next, f, k);
    assert(next.remove(k) =~= m.remove(k));
    if m.contains_key(k) {
        lemma_sum_remove(m, f, k);
    } else {
        assert(m.remove(k) =~= m);
    }
}

/// No entry exceeds the sum.
pub proof fn lemma_sum_bounds_entry<K>(m: Map<K, RewardInfo>, f: spec_fn(RewardInfo) -> nat, k: K)
    requires
        m.dom().finite(),
        m.contains_key(k),
    ensures
        f(m[k]) <= sum_of(m, f),
{
    lemma_sum_remove(m, f, k);
}

/// No two entries together exceed the sum.
pub proof fn lemma_sum_bounds_pair<K>(
    m: Map<K, RewardInfo>,
    f: spec_fn(RewardInfo) -> nat,
    a: K,
    b: K,
)
    requires
        m.dom().finite(),
        m.contains_key(a),
        m.contains_key(b),
        a != b,
    ensures
        f(m[a]) + f(m[b]) <= sum_of(m, f),
{
    broadcast use vstd::set::group_set_axioms;

    lemma_sum_remove(m, f, a);
    let rest = m.remove(a);
    assert(rest.dom() =~= m.dom().remove(a));
    lemma_sum_remove(rest, f, b);
}

} // verus!
