//! What a benchmark of the ledger is set up with: contributors made from
//! seeds, and a long list of them entered batch by batch.

use crate::ledger::{Contribution, Ledger};
use crate::pallet::Pallet;
use crate::types::{AccountId, Balance, DispatchError, Event, Origin, RelayChainAccountId};
use vstd::prelude::*;

verus! {

/// The seed that the seeds of the contributors count down from.
pub const SEED: u32 = 999_999_999;

/// The reward of a contributor of a benchmark.
pub const CONTRIBUTION: Balance = 100;

/// The seed of the contributor `i` of a list that starts `seed_offset` below
/// [`SEED`].
pub open spec fn spec_contributor_seed(seed_offset: u32, i: u32) -> int {
    SEED - seed_offset - i
}

/// The relay chain account of a seed: the four bytes of the seed, the highest
/// first, and zeros after them.
pub open spec fn seed_account(seed: u32) -> Seq<u8> {
    Seq::new(
        32,
        |j: int|
            if j == 0 {
                (seed / 0x100_0000) as u8
            } else if j == 1 {
                (seed / 0x1_0000 % 0x100) as u8
            } else if j == 2 {
                (seed / 0x100 % 0x100) as u8
            } else if j == 3 {
                (seed % 0x100) as u8
            } else {
                0u8
            },
    )
}

/// The seed of the contributor `i` of a list that starts `seed_offset` below
/// [`SEED`].
pub fn contributor_seed(seed_offset: u32, i: u32) -> (seed: u32)
    requires
        seed_offset + i <= SEED,
    ensures
        seed == spec_contributor_seed(seed_offset, i),
{
    SEED - seed_offset - i
}

/// The relay chain account of a seed.
pub fn relay_account_of(seed: u32) -> (account: RelayChainAccountId)
    ensures
        account@ == seed_account(seed),
{
    let mut account: RelayChainAccountId = [0u8;32];
    account[0] = (seed / 0x100_0000) as u8;
    account[1] = (seed / 0x1_0000 % 0x100) as u8;
    account[2] = (seed / 0x100 % 0x100) as u8;
    account[3] = (seed % 0x100) as u8;
    assert(account@ =~= seed_account(seed));
    account
}

/// The contributors of a benchmark, one for each of `users`: the contributor `i`
/// has the relay chain account of its seed, the native account `users[i]`, and
/// the reward [`CONTRIBUTION`].
pub fn create_contributors(seed_offset: u32, users: &Vec<AccountId>) -> (contributors: Vec<
    Contribution,
>)
    requires
        seed_offset + users.len() <= SEED,
    ensures
        contributors@.len() == users@.len(),
        forall|i: int|
            0 <= i < users@.len() ==> {
                &&& (#[trigger] contributors@[i]).0@ == seed_account(
                    spec_contributor_seed(seed_offset, i as u32) as u32,
                )
                &&& contributors@[i].1 == Some(users@[i])
                &&& contributors@[i].2 == CONTRIBUTION
            },
{
    let mut contributors: Vec<Contribution> = Vec::new();
    let mut i: usize = 0;
    while i < users.len()
        invariant
            i <= users.len(),
            seed_offset + users.len() <= SEED,
            contributors@.len() == i,
            forall|j: int|
                0 <= j < i ==> {
                    &&& (#[trigger] contributors@[j]).0@ == seed_account(
                        spec_contributor_seed(seed_offset, j as u32) as u32,
                    )
                    &&& contributors@[j].1 == Some(users@[j])
                    &&& contributors@[j].2 == CONTRIBUTION
                },
        decreases users.len() - i,
    {
        let seed = contributor_seed(seed_offset, i as u32);
        contributors.push((relay_account_of(seed), Some(users[i]), CONTRIBUTION));
        i += 1;
    }
    contributors
}

impl Ledger {
    /// The ledger after a list of contributions was entered batch by batch, each
    /// batch as large as one call may be and the last one with what is left; the
    /// events of the batches that were entered, in their order; and what the
    /// caller is told.
    ///
    /// The first batch that is refused ends the list: the batches before it stay
    /// entered.
    pub open spec fn insert_contributors(self, contributors: Seq<Contribution>) -> (
        Ledger,
        Seq<Event>,
        Result<(), DispatchError>,
    )
        decreases contributors.len(),
    {
        let batch = self.config.max_init_contributors as int;
        if contributors.len() == 0 || batch <= 0 {
            (self, Seq::empty(), Ok(()))
        } else {
            let n = if contributors.len() <= batch {
                contributors.len() as int
            } else {
                batch
            };
            let (next, told) = self.initialize_reward_vec(Origin::Root, contributors.take(n));
            match told {
                Err(error) => (next, Seq::empty(), Err(error)),
                Ok(events) => {
                    let (last, more, outcome) = next.insert_contributors(contributors.skip(n));
                    (last, events + more, outcome)
                },
            }
        }
    }
}

/// Enters a list of contributions batch by batch, each batch as large as one
/// call may be and the last one with what is left, and adds the events of the
/// batches that were entered to `events`.
///
/// The first batch that is refused ends the list: the batches before it stay
/// entered.
pub fn insert_contributors(
    pallet: &mut Pallet,
    contributors: Vec<Contribution>,
    events: &mut Vec<Event>,
) -> (outcome: Result<(), DispatchError>)
    requires
        old(pallet).wf(),
        old(pallet)@.config.max_init_contributors > 0,
    ensures
        final(pallet).wf(),
        final(pallet)@ == old(pallet)@.insert_contributors(contributors@).0,
        final(events)@ == old(events)@ + old(pallet)@.insert_contributors(contributors@).1,
        outcome == old(pallet)@.insert_contributors(contributors@).2,
{
    let batch = pallet.config().max_init_contributors as usize;
    let mut start: usize = 0;
    assert(contributors@.skip(0) =~= contributors@);
    assert(events@ + Seq::<Event>::empty() =~= events@);
    while start < contributors.len()
        invariant
            start <= contributors.len(),
            pallet.wf(),
            batch == pallet@.config.max_init_contributors,
            batch > 0,
            old(pallet)@.insert_contributors(contributors@).0 == pallet@.insert_contributors(
                contributors@.skip(start as int),
            ).0,
            old(events)@ + old(pallet)@.insert_contributors(contributors@).1 == events@
                + pallet@.insert_contributors(contributors@.skip(start as int)).1,
            old(pallet)@.insert_contributors(contributors@).2 == pallet@.insert_contributors(
                contributors@.skip(start as int),
            ).2,
        decreases contributors.len() - start,
    {
        let left = contributors.len() - start;
        let n = if left <= batch { left } else { batch };
        let mut chunk: Vec<Contribution> = Vec::new();
        let mut i: usize = 0;
        while i < n
            invariant
                i <= n,
                start + n <= contributors.len(),
                chunk@ == contributors@.skip(start as int).take(i as int),
            decreases n - i,
        {
            chunk.push(contributors[start + i]);
            assert(chunk@ =~= contributors@.skip(start as int).take(i + 1));
            i += 1;
        }
        let ghost before = pallet@;
        let ghost kept = events@;
        let ghost rest = contributors@.skip(start as int);
        proof {
            before.lemma_initialize_wf(Origin::Root, chunk@);
            before.lemma_initialize_keeps_config(Origin::Root, chunk@);
            assert(rest.skip(n as int) =~= contributors@.skip(start + n));
        }
        match pallet.initialize_reward_vec(Origin::Root, chunk) {
            Ok(mut entered) => {
                proof {
                    let more = pallet@.insert_contributors(rest.skip(n as int)).1;
                    assert(kept + (entered@ + more) =~= (kept + entered@) + more);
                }
                events.append(&mut entered);
            },
            Err(error) => {
                assert(kept + Seq::<Event>::empty() =~= kept);
                return Err(error);
            },
        }
        start = start + n;
    }
    assert(events@ + Seq::<Event>::empty() =~= events@);
    Ok(())
}

} // verus!
