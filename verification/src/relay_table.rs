//! Tables keyed by relay chain account: the rewards that wait, and the accounts
//! that have been given a native account.
//!
//! Both keep their entries in a vector in which no account occurs twice.

use crate::types::{RelayChainAccountId, RewardInfo};
use vstd::prelude::*;

verus! {

/// Whether two relay chain accounts are the same.
pub fn same_account(a: &RelayChainAccountId, b: &RelayChainAccountId) -> (same: bool)
    ensures
        same == (*a == *b),
{
    broadcast use vstd::array::axiom_array_ext_equal;

    let mut i: usize = 0;
    while i < 32
        invariant
            i <= 32,
            forall|j: int| 0 <= j < i ==> a[j] == b[j],
        decreases 32 - i,
    {
        if a[i] != b[i] {
            assert(!(*a =~= *b));
            return false;
        }
        i += 1;
    }
    assert(*a =~= *b);
    true
}

/// The keys of the entries, in their order.
pub open spec fn keys_of(entries: Seq<(RelayChainAccountId, RewardInfo)>) -> Seq<
    RelayChainAccountId,
> {
    Seq::new(entries.len(), |i: int| entries[i].0)
}

/// Whether `i` is a place in `keys` that holds `key`.
pub open spec fn holds_at(keys: Seq<RelayChainAccountId>, key: RelayChainAccountId, i: int) -> bool {
    0 <= i < keys.len() && keys[i] == key
}

/// Whether no key occurs twice.
pub open spec fn distinct(keys: Seq<RelayChainAccountId>) -> bool {
    forall|i: int, j: int|
        0 <= i < keys.len() && 0 <= j < keys.len() && i != j ==> keys[i] != keys[j]
}

/// The place of `key` among `keys`, if it has one.
fn position(keys: &Vec<RelayChainAccountId>, key: &RelayChainAccountId) -> (found: Option<usize>)
    ensures
        match found {
            Some(i) => holds_at(keys@, *key, i as int),
            None => forall|i: int| !holds_at(keys@, *key, i),
        },
{
    let mut i: usize = 0;
    while i < keys.len()
        invariant
            i <= keys.len(),
            forall|j: int| 0 <= j < i ==> keys[j] != *key,
        decreases keys.len() - i,
    {
        if same_account(&keys[i], key) {
            return Some(i);
        }
        i += 1;
    }
    None
}

/// A set of relay chain accounts.
#[derive(Clone, Debug)]
pub struct RelaySet {
    keys: Vec<RelayChainAccountId>,
}

impl View for RelaySet {
    type V = Set<RelayChainAccountId>;

    closed spec fn view(&self) -> Set<RelayChainAccountId> {
        self.keys@.to_set()
    }
}

impl RelaySet {
    /// Whether the set is in order within: no account is kept twice.
    pub closed spec fn wf(self) -> bool {
        distinct(self.keys@)
    }

    /// A well-formed set has finitely many accounts.
    pub proof fn lemma_finite(self)
        ensures
            self@.finite(),
    {
        vstd::seq_lib::seq_to_set_is_finite(self.keys@);
    }

    /// The empty set.
    pub fn new() -> (set: RelaySet)
        ensures
            set.wf(),
            set@ == Set::<RelayChainAccountId>::empty(),
    {
        let set = RelaySet { keys: Vec::new() };
        assert(set@ =~= Set::<RelayChainAccountId>::empty());
        set
    }

    /// Whether the account is in the set.
    pub fn contains(&self, key: &RelayChainAccountId) -> (found: bool)
        requires
            self.wf(),
        ensures
            found == self@.contains(*key),
    {
        match position(&self.keys, key) {
            Some(i) => {
                assert(self.keys@[i as int] == *key);
                true
            },
            None => {
                assert forall|i: int| 0 <= i < self.keys@.len() implies self.keys@[i] != *key by {
                    assert(!holds_at(self.keys@, *key, i));
                }
                false
            },
        }
    }

    /// Puts the account into the set.
    pub fn insert(&mut self, key: RelayChainAccountId)
        requires
            old(self).wf(),
        ensures
            final(self).wf(),
            final(self)@ == old(self)@.insert(key),
    {
        match position(&self.keys, &key) {
            Some(i) => {
                assert(self.keys@[i as int] == key);
                assert(self@ =~= self@.insert(key));
            },
            None => {
                let ghost before = self.keys@;
                self.keys.push(key);
                proof {
                    assert forall|i: int, j: int|
                        0 <= i < self.keys@.len() && 0 <= j < self.keys@.len() && i
                            != j implies self.keys@[i] != self.keys@[j] by {
                        assert(!holds_at(before, key, i));
                        assert(!holds_at(before, key, j));
                    }
                    assert forall|k: RelayChainAccountId|
                        self.keys@.to_set().contains(k) <==> before.to_set().insert(key).contains(
                            k,
                        ) by {
                        if before.to_set().contains(k) {
                            let i = choose|i: int| 0 <= i < before.len() && before[i] == k;
                            assert(self.keys@[i] == k);
                        }
                        if k == key {
                            assert(self.keys@[before.len() as int] == k);
                        }
                    }
                    assert(self.keys@.to_set() =~= before.to_set().insert(key));
                }
            },
        }
    }
}

/// The value that `entries` hold under `key`.
pub open spec fn value_under(
    entries: Seq<(RelayChainAccountId, RewardInfo)>,
    key: RelayChainAccountId,
) -> RewardInfo {
    entries[choose|i: int| holds_at(keys_of(entries), key, i)].1
}

/// The map that `entries` stand for.
pub open spec fn map_of(entries: Seq<(RelayChainAccountId, RewardInfo)>) -> Map<
    RelayChainAccountId,
    RewardInfo,
> {
    Map::new(
        |key: RelayChainAccountId| exists|i: int| holds_at(keys_of(entries), key, i),
        |key: RelayChainAccountId| value_under(entries, key),
    )
}

/// Where no key occurs twice, the entry at a place is what the map holds under
/// its key.
pub proof fn lemma_map_of_entry(entries: Seq<(RelayChainAccountId, RewardInfo)>, i: int)
    requires
        distinct(keys_of(entries)),
        0 <= i < entries.len(),
    ensures
        map_of(entries).contains_key(entries[i].0),
        map_of(entries)[entries[i].0] == entries[i].1,
{
    let key = entries[i].0;
    assert(holds_at(keys_of(entries), key, i));
    let c = choose|c: int| holds_at(keys_of(entries), key, c);
    assert(keys_of(entries)[c] == keys_of(entries)[i]);
}

/// The keys of the map are finitely many.
pub proof fn lemma_map_of_finite(entries: Seq<(RelayChainAccountId, RewardInfo)>)
    ensures
        map_of(entries).dom().finite(),
{
    let keys = keys_of(entries);
    vstd::seq_lib::seq_to_set_is_finite(keys);
    assert forall|key: RelayChainAccountId|
        map_of(entries).dom().contains(key) <==> keys.to_set().contains(key) by {
        if map_of(entries).dom().contains(key) {
            let i = choose|i: int| holds_at(keys, key, i);
            assert(keys[i] == key);
        }
        if keys.to_set().contains(key) {
            let i = choose|i: int| 0 <= i < keys.len() && keys[i] == key;
            assert(holds_at(keys, key, i));
        }
    }
    assert(map_of(entries).dom() =~= keys.to_set());
}

/// A map from relay chain accounts to rewards.
#[derive(Clone, Debug)]
pub struct RelayMap {
    entries: Vec<(RelayChainAccountId, RewardInfo)>,
}

impl View for RelayMap {
    type V = Map<RelayChainAccountId, RewardInfo>;

    closed spec fn view(&self) -> Map<RelayChainAccountId, RewardInfo> {
        map_of(self.entries@)
    }
}

impl RelayMap {
    /// Whether the map is in order within: no account is kept twice.
    pub closed spec fn wf(self) -> bool {
        distinct(keys_of(self.entries@))
    }

    /// The keys of the map are finitely many.
    pub proof fn lemma_finite(self)
        ensures
            self@.dom().finite(),
    {
        lemma_map_of_finite(self.entries@);
    }

    /// The empty map.
    pub fn new() -> (map: RelayMap)
        ensures
            map.wf(),
            map@ == Map::<RelayChainAccountId, RewardInfo>::empty(),
    {
        let map = RelayMap { entries: Vec::new() };
        assert(map@ =~= Map::<RelayChainAccountId, RewardInfo>::empty());
        map
    }

    /// The place of `key`, if the map holds it.
    fn find(&self, key: &RelayChainAccountId) -> (found: Option<usize>)
        requires
            self.wf(),
        ensures
            match found {
                Some(i) => i < self.entries@.len() && self.entries@[i as int].0 == *key
                    && self@.contains_key(*key) && self@[*key] == self.entries@[i as int].1,
                None => !self@.contains_key(*key) && forall|i: int|
                    !holds_at(keys_of(self.entries@), *key, i),
            },
    {
        let mut i: usize = 0;
        while i < self.entries.len()
            invariant
                self.wf(),
                i <= self.entries.len(),
                forall|j: int| 0 <= j < i ==> self.entries@[j].0 != *key,
            decreases self.entries.len() - i,
        {
            if same_account(&self.entries[i].0, key) {
                proof {
                    lemma_map_of_entry(self.entries@, i as int);
                }
                return Some(i);
            }
            i += 1;
        }
        assert forall|i: int| !holds_at(keys_of(self.entries@), *key, i) by {
            if 0 <= i < self.entries@.len() {
                assert(keys_of(self.entries@)[i] == self.entries@[i].0);
            }
        }
        None
    }

    /// Whether the map holds a reward for the account.
    pub fn contains_key(&self, key: &RelayChainAccountId) -> (found: bool)
        requires
            self.wf(),
        ensures
            found == self@.contains_key(*key),
    {
        self.find(key).is_some()
    }

    /// The reward that the map holds for the account, if it holds one.
    pub fn get(&self, key: &RelayChainAccountId) -> (found: Option<RewardInfo>)
        requires
            self.wf(),
        ensures
            found == (if self@.contains_key(*key) {
                Some(self@[*key])
            } else {
                None
            }),
    {
        match self.find(key) {
            Some(i) => Some(self.entries[i].1),
            None => None,
        }
    }

    /// Puts the reward into the map under the account, in place of what the map
    /// held for it.
    pub fn insert(&mut self, key: RelayChainAccountId, info: RewardInfo)
        requires
            old(self).wf(),
        ensures
            final(self).wf(),
            final(self)@ == old(self)@.insert(key, info),
    {
        let ghost before = self.entries@;
        match self.find(&key) {
            Some(i) => {
                self.entries[i] = (key, info);
                proof {
                    let after = self.entries@;
                    assert(after == before.update(i as int, (key, info)));
                    assert(keys_of(after) =~= keys_of(before));
                    assert forall|k: RelayChainAccountId|
                        map_of(before).insert(key, info).contains_key(k) implies #[trigger] map_of(
                            after,
                        )[k] == map_of(before).insert(key, info)[k] by {
                        let c = choose|c: int| holds_at(keys_of(after), k, c);
                        if k == key {
                            assert(holds_at(keys_of(after), k, i as int));
                            assert(keys_of(after)[c] == keys_of(after)[i as int]);
                        } else {
                            assert(c != i);
                        }
                    }
                    assert(map_of(after) =~= map_of(before).insert(key, info));
                }
            },
            None => {
                self.entries.push((key, info));
                proof {
                    let after = self.entries@;
                    let n = before.len() as int;
                    assert forall|i: int, j: int|
                        0 <= i < keys_of(after).len() && 0 <= j < keys_of(after).len() && i
                            != j implies keys_of(after)[i] != keys_of(after)[j] by {
                        assert(!holds_at(keys_of(before), key, i));
                        assert(!holds_at(keys_of(before), key, j));
                        if i < n && j < n {
                            assert(keys_of(before)[i] != keys_of(before)[j]);
                        }
                    }
                    assert forall|k: RelayChainAccountId|
                        map_of(after).contains_key(k) <==> map_of(before).insert(
                            key,
                            info,
                        ).contains_key(k) by {
                        if map_of(after).contains_key(k) && k != key {
                            let c = choose|c: int| holds_at(keys_of(after), k, c);
                            assert(holds_at(keys_of(before), k, c));
                        }
                        if map_of(before).contains_key(k) {
                            let c = choose|c: int| holds_at(keys_of(before), k, c);
                            assert(holds_at(keys_of(after), k, c));
                        }
                        if k == key {
                            assert(holds_at(keys_of(after), k, n));
                        }
                    }
                    assert forall|k: RelayChainAccountId|
                        map_of(after).contains_key(k) implies #[trigger] map_of(after)[k]
                        == map_of(before).insert(key, info)[k] by {
                        let c = choose|c: int| holds_at(keys_of(after), k, c);
                        if k == key {
                            assert(holds_at(keys_of(after), k, n));
                            assert(keys_of(after)[c] == keys_of(after)[n]);
                        } else {
                            assert(holds_at(keys_of(before), k, c));
                            let d = choose|d: int| holds_at(keys_of(before), k, d);
                            assert(keys_of(before)[c] == keys_of(before)[d]);
                        }
                    }
                    assert(map_of(after) =~= map_of(before).insert(key, info));
                }
            },
        }
    }

    /// Takes the account's reward out of the map and hands it back, if the map
    /// holds one.
    pub fn remove(&mut self, key: &RelayChainAccountId) -> (taken: Option<RewardInfo>)
        requires
            old(self).wf(),
        ensures
            final(self).wf(),
            final(self)@ == old(self)@.remove(*key),
            taken == (if old(self)@.contains_key(*key) {
                Some(old(self)@[*key])
            } else {
                None
            }),
    {
        let ghost before = self.entries@;
        match self.find(key) {
            Some(i) => {
                let entry = self.entries.remove(i);
                proof {
                    let after = self.entries@;
                    let at = i as int;
                    assert(after == before.remove(at));
                    assert forall|a: int, b: int|
                        0 <= a < keys_of(after).len() && 0 <= b < keys_of(after).len() && a
                            != b implies keys_of(after)[a] != keys_of(after)[b] by {
                        let a0 = if a < at { a } else { a + 1 };
                        let b0 = if b < at { b } else { b + 1 };
                        assert(keys_of(before)[a0] != keys_of(before)[b0]);
                    }
                    assert forall|k: RelayChainAccountId|
                        map_of(after).contains_key(k) <==> map_of(before).remove(*key).contains_key(
                            k,
                        ) by {
                        if map_of(after).contains_key(k) {
                            let c = choose|c: int| holds_at(keys_of(after), k, c);
                            let c0 = if c < at { c } else { c + 1 };
                            assert(holds_at(keys_of(before), k, c0));
                            assert(keys_of(before)[c0] != keys_of(before)[at]);
                        }
                        if map_of(before).remove(*key).contains_key(k) {
                            let c = choose|c: int| holds_at(keys_of(before), k, c);
                            assert(c != at);
                            let c1 = if c < at { c } else { c - 1 };
                            assert(holds_at(keys_of(after), k, c1));
                        }
                    }
                    assert forall|k: RelayChainAccountId|
                        map_of(after).contains_key(k) implies #[trigger] map_of(after)[k]
                        == map_of(before).remove(*key)[k] by {
                        let c = choose|c: int| holds_at(keys_of(after), k, c);
                        let c0 = if c < at { c } else { c + 1 };
                        assert(holds_at(keys_of(before), k, c0));
                        let d = choose|d: int| holds_at(keys_of(before), k, d);
                        assert(keys_of(before)[c0] == keys_of(before)[d]);
                    }
                    assert(map_of(after) =~= map_of(before).remove(*key));
                }
                Some(entry.1)
            },
            None => {
                assert(self@ =~= self@.remove(*key));
                None
            },
        }
    }
}

} // verus!
