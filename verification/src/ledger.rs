//! The reward ledger as a mathematical value, and what each call makes of it.
//!
//! [`Ledger`] is what [`crate::Pallet`] stands for. Every call is a function from
//! a ledger and the call's arguments to the ledger that results and to what the
//! caller is told; a call that fails leaves the ledger as it was.

use crate::perbill::{per_billion_of, BILLION};
use crate::sums::{claimed_of, outstanding_of, sum_of};
use crate::types::{
    AccountId, Balance, BlockNumber, Config, DispatchError, Error, Event, GenesisConfig, Origin,
    RelayChainAccountId, RelayChainBlockNumber, RewardInfo,
};
use crate::vesting::{after_claim, spec_payable_now};
use vstd::prelude::*;

verus! {

/// One entry of a batch: the relay chain account that contributed, the native
/// account to pay if one is known, and the reward.
pub type Contribution = (RelayChainAccountId, Option<AccountId>, Balance);

/// The rewards of a batch, added up.
pub open spec fn sum_rewards(rewards: Seq<Contribution>) -> nat
    decreases rewards.len(),
{
    if rewards.len() == 0 {
        0
    } else {
        sum_rewards(rewards.drop_last()) + rewards.last().2 as nat
    }
}

/// What an event tells the host to pay: the amount of a payment, and nothing for
/// any other event.
pub open spec fn payment_of(event: Event) -> nat {
    match event {
        Event::InitialPaymentMade(_, amount) => amount as nat,
        Event::RewardsPaid(_, amount) => amount as nat,
        _ => 0,
    }
}

/// What the events tell the host to pay, added up.
pub open spec fn paid_out(events: Seq<Event>) -> nat
    decreases events.len(),
{
    if events.len() == 0 {
        0
    } else {
        paid_out(events.drop_last()) + payment_of(events.last())
    }
}

/// The two rewards held as one: totals and payments are added up.
pub open spec fn merged(held: RewardInfo, added: RewardInfo) -> RewardInfo {
    RewardInfo {
        total_reward: (held.total_reward + added.total_reward) as Balance,
        claimed_reward: (held.claimed_reward + added.claimed_reward) as Balance,
    }
}

/// The payable rewards after `added` was credited to `who`: added to what `who`
/// holds, never put in its place.
pub open spec fn credited(
    payable: Map<AccountId, RewardInfo>,
    who: AccountId,
    added: RewardInfo,
) -> Map<AccountId, RewardInfo> {
    if payable.contains_key(who) {
        payable.insert(who, merged(payable[who], added))
    } else {
        payable.insert(who, added)
    }
}

/// A count one higher, unless it is at its largest.
pub open spec fn counted_up(count: u32) -> u32 {
    if count < u32::MAX {
        (count + 1) as u32
    } else {
        count
    }
}

/// The state of the reward ledger.
pub struct Ledger {
    /// The constants of the deployment.
    pub config: Config,
    /// The rewards that can be claimed, by native account.
    pub accounts_payable: Map<AccountId, RewardInfo>,
    /// The relay chain accounts that have been given a native account.
    pub claimed_relay_chain_ids: Set<RelayChainAccountId>,
    /// The rewards that wait for a native account, by relay chain account.
    pub unassociated_contributions: Map<RelayChainAccountId, RewardInfo>,
    /// Whether the ledger is closed for initialization.
    pub initialized: bool,
    /// The relay chain block at which vesting starts.
    pub init_relay_block: RelayChainBlockNumber,
    /// The relay chain block at which vesting ends.
    pub end_relay_block: RelayChainBlockNumber,
    /// What is outstanding of all rewards, kept up with every change.
    pub init_reward_amount: Balance,
    /// The number of contributions entered.
    pub total_contributors: u32,
    /// The pooled funds that are left.
    pub pot: Balance,
    /// The pooled funds that the ledger started with.
    pub funded: Balance,
}

impl Ledger {
    /// What is outstanding of all rewards, payable or waiting, added up entry by
    /// entry.
    pub open spec fn outstanding(self) -> nat {
        sum_of(self.accounts_payable, outstanding_of()) + sum_of(
            self.unassociated_contributions,
            outstanding_of(),
        )
    }

    /// What has been paid of all rewards, added up entry by entry.
    pub open spec fn paid(self) -> nat {
        sum_of(self.accounts_payable, claimed_of())
    }

    /// The pooled funds that have been spent.
    pub open spec fn spent(self) -> nat {
        if self.funded >= self.pot {
            (self.funded - self.pot) as nat
        } else {
            0
        }
    }

    /// The number of relay chain accounts in the ledger, with or without a
    /// native account.
    pub open spec fn known_accounts(self) -> nat {
        self.claimed_relay_chain_ids.len() + self.unassociated_contributions.dom().len()
    }

    /// Whether the relay chain account is in the ledger, with or without a
    /// native account.
    pub open spec fn knows(self, relay_account: RelayChainAccountId) -> bool {
        self.claimed_relay_chain_ids.contains(relay_account)
            || self.unassociated_contributions.contains_key(relay_account)
    }

    /// What holds of the ledger at all times.
    ///
    /// The tables are finite. No payable reward has more paid than its total, a
    /// reward that waits has nothing paid, and its relay chain account has no
    /// native account yet. The number of contributors is the number of relay
    /// chain accounts in the ledger, as far as the count goes. What the ledger
    /// keeps as outstanding is what is outstanding of the rewards, entry by
    /// entry, and the pooled funds cover it; what has been paid of the rewards is
    /// what has left the pooled funds. In a ledger that was closed by a call,
    /// what is outstanding equals the pooled funds.
    pub open spec fn wf(self) -> bool {
        &&& self.config.initialization_payment.parts() <= BILLION
        &&& self.accounts_payable.dom().finite()
        &&& self.unassociated_contributions.dom().finite()
        &&& self.claimed_relay_chain_ids.finite()
        &&& forall|who: AccountId| #[trigger]
            self.accounts_payable.contains_key(who) ==> self.accounts_payable[who].claimed_reward
                <= self.accounts_payable[who].total_reward
        &&& forall|relay_account: RelayChainAccountId| #[trigger]
            self.unassociated_contributions.contains_key(relay_account)
                ==> self.unassociated_contributions[relay_account].claimed_reward == 0
                && !self.claimed_relay_chain_ids.contains(relay_account)
        &&& self.total_contributors == if self.known_accounts() <= u32::MAX {
            self.known_accounts()
        } else {
            u32::MAX as nat
        }
        &&& self.init_reward_amount == self.outstanding()
        &&& self.init_reward_amount <= self.pot
        &&& self.pot <= self.funded
        &&& self.paid() == self.spent()
        &&& self.initialized && !self.config.initialized ==> self.init_reward_amount == self.pot
    }

    /// The ledger at the start: no entries, and the funds untouched.
    pub open spec fn genesis(config: Config, genesis: GenesisConfig) -> Ledger {
        Ledger {
            config,
            accounts_payable: Map::empty(),
            claimed_relay_chain_ids: Set::empty(),
            unassociated_contributions: Map::empty(),
            initialized: config.initialized,
            init_relay_block: 0,
            end_relay_block: 0,
            init_reward_amount: 0,
            total_contributors: 0,
            pot: genesis.funded_amount,
            funded: genesis.funded_amount,
        }
    }

    /// The ledger after the block `n` of this chain: the first block fixes the
    /// start of the vesting window at the relay chain block it builds on.
    pub open spec fn on_finalize(self, n: BlockNumber, relay_parent: RelayChainBlockNumber) -> Ledger {
        if n == 1 {
            Ledger { init_relay_block: relay_parent, ..self }
        } else {
            self
        }
    }

    /// The ledger after one entry of a batch, and the events of it.
    ///
    /// An entry whose relay chain account is in the ledger already, or whose
    /// reward is under the minimum, is passed over with an event. Another entry
    /// with a native account has the first payment made and is credited to the
    /// account; one without waits under its relay chain account.
    pub open spec fn enter(self, entry: Contribution) -> (Ledger, Seq<Event>) {
        let (relay_account, native_account, reward) = entry;
        if self.knows(relay_account) {
            (
                self,
                seq![
                    Event::InitializedAlreadyInitializedAccount(
                        relay_account,
                        native_account,
                        reward,
                    ),
                ],
            )
        } else if reward < self.config.minimum_reward {
            (
                self,
                seq![
                    Event::InitializedAccountWithNotEnoughContribution(
                        relay_account,
                        native_account,
                        reward,
                    ),
                ],
            )
        } else {
            match native_account {
                Some(who) => {
                    let first = per_billion_of(
                        self.config.initialization_payment.parts(),
                        reward as nat,
                    ) as Balance;
                    let info = RewardInfo { total_reward: reward, claimed_reward: first };
                    (
                        Ledger {
                            accounts_payable: credited(self.accounts_payable, who, info),
                            claimed_relay_chain_ids: self.claimed_relay_chain_ids.insert(
                                relay_account,
                            ),
                            init_reward_amount: (self.init_reward_amount + reward
                                - first) as Balance,
                            total_contributors: counted_up(self.total_contributors),
                            pot: (self.pot - first) as Balance,
                            ..self
                        },
                        seq![Event::InitialPaymentMade(who, first)],
                    )
                },
                None => {
                    let info = RewardInfo { total_reward: reward, claimed_reward: 0 };
                    (
                        Ledger {
                            unassociated_contributions: self.unassociated_contributions.insert(
                                relay_account,
                                info,
                            ),
                            init_reward_amount: (self.init_reward_amount + reward) as Balance,
                            total_contributors: counted_up(self.total_contributors),
                            ..self
                        },
                        Seq::empty(),
                    )
                },
            }
        }
    }

    /// The ledger after the entries of a batch, one after another in the order
    /// of the batch, and the events of them in that order.
    pub open spec fn enter_all(self, rewards: Seq<Contribution>) -> (Ledger, Seq<Event>)
        decreases rewards.len(),
    {
        if rewards.len() == 0 {
            (self, Seq::empty())
        } else {
            let (ledger, events) = self.enter_all(rewards.drop_last());
            let (next, more) = ledger.enter(rewards.last());
            (next, events + more)
        }
    }

    /// Why a batch is refused, if it is.
    ///
    /// Only the administrative origin may enter a batch, and only while the
    /// ledger is open. The batch holds no more entries than the configuration
    /// allows, and its rewards, with what is outstanding already, do not exceed
    /// the pooled funds.
    pub open spec fn initialize_refusal(
        self,
        origin: Origin,
        rewards: Seq<Contribution>,
    ) -> Option<DispatchError> {
        if origin != Origin::Root {
            Some(DispatchError::BadOrigin)
        } else if self.initialized {
            Some(DispatchError::Module(Error::RewardVecAlreadyInitialized))
        } else if rewards.len() > self.config.max_init_contributors {
            Some(DispatchError::Module(Error::TooManyContributors))
        } else if self.init_reward_amount + sum_rewards(rewards) > self.pot {
            Some(DispatchError::Module(Error::BatchBeyondFundPot))
        } else {
            None
        }
    }

    /// The ledger after a batch was handed in, and what the caller is told.
    pub open spec fn initialize_reward_vec(
        self,
        origin: Origin,
        rewards: Seq<Contribution>,
    ) -> (Ledger, Result<Seq<Event>, DispatchError>) {
        match self.initialize_refusal(origin, rewards) {
            Some(error) => (self, Err(error)),
            None => {
                let (ledger, events) = self.enter_all(rewards);
                (ledger, Ok(events))
            },
        }
    }

    /// Why the ledger cannot be closed, if it cannot.
    ///
    /// Only the administrative origin may close it, and only once. The vesting
    /// window ends after it starts, and what is outstanding equals the pooled
    /// funds.
    pub open spec fn complete_refusal(
        self,
        origin: Origin,
        lease_ending_block: RelayChainBlockNumber,
    ) -> Option<DispatchError> {
        if origin != Origin::Root {
            Some(DispatchError::BadOrigin)
        } else if self.initialized {
            Some(DispatchError::Module(Error::RewardVecAlreadyInitialized))
        } else if lease_ending_block <= self.init_relay_block {
            Some(DispatchError::Module(Error::VestingPeriodNonValid))
        } else if self.init_reward_amount != self.pot {
            Some(DispatchError::Module(Error::RewardsDoNotMatchFund))
        } else {
            None
        }
    }

    /// The ledger after the call that closes initialization, and what the caller
    /// is told.
    pub open spec fn complete_initialiation(
        self,
        origin: Origin,
        lease_ending_block: RelayChainBlockNumber,
    ) -> (Ledger, Result<(), DispatchError>) {
        match self.complete_refusal(origin, lease_ending_block) {
            Some(error) => (self, Err(error)),
            None => (
                Ledger { end_relay_block: lease_ending_block, initialized: true, ..self },
                Ok(()),
            ),
        }
    }

    /// Why a claim is refused, if it is.
    ///
    /// The caller signs the call, the ledger is closed, the caller holds a
    /// payable reward, and not all of it has been paid.
    pub open spec fn claim_refusal(self, origin: Origin) -> Option<DispatchError> {
        match origin {
            Origin::Signed(payee) => {
                if !self.initialized {
                    Some(DispatchError::Module(Error::RewardVecNotFullyInitializedYet))
                } else if !self.accounts_payable.contains_key(payee) {
                    Some(DispatchError::Module(Error::NoAssociatedClaim))
                } else if self.accounts_payable[payee].claimed_reward
                    >= self.accounts_payable[payee].total_reward {
                    Some(DispatchError::Module(Error::RewardsAlreadyClaimed))
                } else {
                    None
                }
            },
            _ => Some(DispatchError::BadOrigin),
        }
    }

    /// The ledger after a claim at the relay chain block `now`, and what the
    /// caller is told: what has vested and was not paid yet is paid.
    pub open spec fn claim(self, origin: Origin, now: RelayChainBlockNumber) -> (
        Ledger,
        Result<Seq<Event>, DispatchError>,
    ) {
        match self.claim_refusal(origin) {
            Some(error) => (self, Err(error)),
            None => {
                let payee = origin->Signed_0;
                let info = self.accounts_payable[payee];
                let amount = spec_payable_now(
                    info,
                    now,
                    self.init_relay_block,
                    self.end_relay_block,
                    self.config.initialization_payment,
                ) as Balance;
                let paid = after_claim(
                    info,
                    now,
                    self.init_relay_block,
                    self.end_relay_block,
                    self.config.initialization_payment,
                );
                (
                    Ledger {
                        accounts_payable: self.accounts_payable.insert(payee, paid),
                        init_reward_amount: (self.init_reward_amount - amount) as Balance,
                        pot: (self.pot - amount) as Balance,
                        ..self
                    },
                    Ok(seq![Event::RewardsPaid(payee, amount)]),
                )
            },
        }
    }

    /// Why a native account is not attached to a contribution, if it is not.
    ///
    /// Anybody may hand in the proof, with a signed call. The proof is valid,
    /// the relay chain account has no native account yet, and a reward waits
    /// for it.
    pub open spec fn associate_refusal(
        self,
        origin: Origin,
        relay_account: RelayChainAccountId,
        proof_valid: bool,
    ) -> Option<DispatchError> {
        if !(origin is Signed) {
            Some(DispatchError::BadOrigin)
        } else if !proof_valid {
            Some(DispatchError::Module(Error::InvalidClaimSignature))
        } else if self.claimed_relay_chain_ids.contains(relay_account) {
            Some(DispatchError::Module(Error::AlreadyAssociated))
        } else if !self.unassociated_contributions.contains_key(relay_account) {
            Some(DispatchError::Module(Error::NoAssociatedClaim))
        } else {
            None
        }
    }

    /// The ledger after a native account was attached to the contribution of a
    /// relay chain account, and what the caller is told.
    ///
    /// The first payment is made, and the reward is credited to the native
    /// account and no longer waits.
    pub open spec fn associate_native_identity(
        self,
        origin: Origin,
        reward_account: AccountId,
        relay_account: RelayChainAccountId,
        proof_valid: bool,
    ) -> (Ledger, Result<Seq<Event>, DispatchError>) {
        match self.associate_refusal(origin, relay_account, proof_valid) {
            Some(error) => (self, Err(error)),
            None => {
                let total = self.unassociated_contributions[relay_account].total_reward;
                let first = per_billion_of(
                    self.config.initialization_payment.parts(),
                    total as nat,
                ) as Balance;
                let info = RewardInfo { total_reward: total, claimed_reward: first };
                (
                    Ledger {
                        accounts_payable: credited(self.accounts_payable, reward_account, info),
                        unassociated_contributions: self.unassociated_contributions.remove(
                            relay_account,
                        ),
                        claimed_relay_chain_ids: self.claimed_relay_chain_ids.insert(
                            relay_account,
                        ),
                        init_reward_amount: (self.init_reward_amount - first) as Balance,
                        pot: (self.pot - first) as Balance,
                        ..self
                    },
                    Ok(
                        seq![
                            Event::InitialPaymentMade(reward_account, first),
                            Event::NativeIdentityAssociated(relay_account, reward_account, total),
                        ],
                    ),
                )
            },
        }
    }

    /// Why a reward is not moved to another account, if it is not: the caller
    /// signs the call and holds a payable reward.
    pub open spec fn update_refusal(self, origin: Origin) -> Option<DispatchError> {
        match origin {
            Origin::Signed(signer) => {
                if !self.accounts_payable.contains_key(signer) {
                    Some(DispatchError::Module(Error::NoAssociatedClaim))
                } else {
                    None
                }
            },
            _ => Some(DispatchError::BadOrigin),
        }
    }

    /// The ledger after the caller moved the reward to another account, and what
    /// the caller is told.
    ///
    /// The reward is credited to the new account and no longer held by the
    /// caller. A caller who names the account that holds the reward keeps it as
    /// it is.
    pub open spec fn update_reward_address(self, origin: Origin, new_reward_account: AccountId) -> (
        Ledger,
        Result<Seq<Event>, DispatchError>,
    ) {
        match self.update_refusal(origin) {
            Some(error) => (self, Err(error)),
            None => {
                let signer = origin->Signed_0;
                let events = seq![Event::RewardAddressUpdated(signer, new_reward_account)];
                if signer == new_reward_account {
                    (self, Ok(events))
                } else {
                    (
                        Ledger {
                            accounts_payable: credited(
                                self.accounts_payable.remove(signer),
                                new_reward_account,
                                self.accounts_payable[signer],
                            ),
                            ..self
                        },
                        Ok(events),
                    )
                }
            },
        }
    }
}

} // verus!
