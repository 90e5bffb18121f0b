//! What holds of the ledger whatever is done with it.

use crate::ledger::{paid_out, payment_of, sum_rewards, Contribution, Ledger};
use crate::perbill::{lemma_per_billion_of_bounded, per_billion_of};
use crate::types::{
    AccountId, Balance, DispatchError, Error, Event, Origin, RelayChainAccountId,
    RelayChainBlockNumber,
};
use crate::vesting::{
    elapsed, lemma_payable_within_outstanding, lemma_unlocked_after_window, vesting_part,
};
use vstd::prelude::*;

verus! {

/// What two runs of events tell the host to pay is what the one tells and what
/// the other tells.
pub proof fn lemma_paid_out_concat(first: Seq<Event>, second: Seq<Event>)
    ensures
        paid_out(first + second) == paid_out(first) + paid_out(second),
    decreases second.len(),
{
    if second.len() == 0 {
        assert(first + second =~= first);
    } else {
        lemma_paid_out_concat(first, second.drop_last());
        assert((first + second).drop_last() =~= first + second.drop_last());
    }
}

/// What one event tells the host to pay, and what two do.
pub proof fn lemma_paid_out_few(first: Event, second: Event)
    ensures
        paid_out(Seq::empty()) == 0,
        paid_out(seq![first]) == payment_of(first),
        paid_out(seq![first, second]) == payment_of(first) + payment_of(second),
{
    assert(seq![first].drop_last() =~= Seq::empty());
    assert(seq![first, second].drop_last() =~= seq![first]);
}

/// Whether the error is one of the reasons that no call gives.
pub open spec fn unused_reason(error: DispatchError) -> bool {
    ||| error == DispatchError::Module(Error::FirstClaimAlreadyDone)
    ||| error == DispatchError::Module(Error::RewardNotHighEnough)
    ||| error == DispatchError::Module(Error::InvalidFreeClaimSignature)
}

/// Whether what the caller is told is none of the reasons that no call gives.
pub open spec fn never_given(told: Result<Seq<Event>, DispatchError>) -> bool {
    told is Err ==> !unused_reason(told->Err_0)
}

impl Ledger {
    /// What leaves the pooled funds when an entry of a batch is entered is what
    /// the events of it tell the host to pay.
    pub proof fn lemma_enter_pays(self, entry: Contribution)
        requires
            self.wf(),
            self.init_reward_amount + entry.2 <= self.pot,
        ensures
            self.pot == self.enter(entry).0.pot + paid_out(self.enter(entry).1),
    {
        let events = self.enter(entry).1;
        lemma_per_billion_of_bounded(self.config.initialization_payment.parts(), entry.2 as nat);
        if events.len() == 1 {
            lemma_paid_out_few(events[0], events[0]);
            assert(events =~= seq![events[0]]);
        }
    }

    /// What leaves the pooled funds when the entries of a batch are entered is
    /// what the events of them tell the host to pay.
    pub proof fn lemma_enter_all_pays(self, rewards: Seq<Contribution>)
        requires
            self.wf(),
            !self.initialized,
            self.init_reward_amount + sum_rewards(rewards) <= self.pot,
        ensures
            self.pot == self.enter_all(rewards).0.pot + paid_out(self.enter_all(rewards).1),
        decreases rewards.len(),
    {
        if rewards.len() > 0 {
            let before = self.enter_all(rewards.drop_last());
            self.lemma_enter_all_pays(rewards.drop_last());
            self.lemma_enter_all_wf(rewards.drop_last());
            before.0.lemma_enter_pays(rewards.last());
            lemma_paid_out_concat(before.1, before.0.enter(rewards.last()).1);
        }
    }

    /// What leaves the pooled funds with a batch is what the events of the batch
    /// tell the host to pay, and a batch that is refused leaves the ledger as it
    /// was.
    pub proof fn lemma_initialize_pays(self, origin: Origin, rewards: Seq<Contribution>)
        requires
            self.wf(),
        ensures
            ({
                let (next, told) = self.initialize_reward_vec(origin, rewards);
                match told {
                    Ok(events) => self.pot == next.pot + paid_out(events),
                    Err(_) => next == self,
                }
            }),
    {
        if self.initialize_refusal(origin, rewards) is None {
            self.lemma_enter_all_pays(rewards);
        }
    }

    /// What leaves the pooled funds with a claim is what the claim tells the
    /// host to pay, and a claim that is refused leaves the ledger as it was.
    pub proof fn lemma_claim_pays(self, origin: Origin, now: RelayChainBlockNumber)
        requires
            self.wf(),
        ensures
            ({
                let (next, told) = self.claim(origin, now);
                match told {
                    Ok(events) => self.pot == next.pot + paid_out(events),
                    Err(_) => next == self,
                }
            }),
    {
        if self.claim_refusal(origin) is None {
            self.lemma_claim_wf(origin, now);
            let events = self.claim(origin, now).1->Ok_0;
            lemma_paid_out_few(events[0], events[0]);
            assert(events =~= seq![events[0]]);
        }
    }

    /// What leaves the pooled funds when a native account is attached is the
    /// first payment that the call tells the host to make, and a call that is
    /// refused leaves the ledger as it was.
    pub proof fn lemma_associate_pays(
        self,
        origin: Origin,
        reward_account: AccountId,
        relay_account: RelayChainAccountId,
        proof_valid: bool,
    )
        requires
            self.wf(),
        ensures
            ({
                let (next, told) = self.associate_native_identity(
                    origin,
                    reward_account,
                    relay_account,
                    proof_valid,
                );
                match told {
                    Ok(events) => self.pot == next.pot + paid_out(events),
                    Err(_) => next == self,
                }
            }),
    {
        if self.associate_refusal(origin, relay_account, proof_valid) is None {
            self.lemma_associate_wf(origin, reward_account, relay_account, proof_valid);
            let events = self.associate_native_identity(
                origin,
                reward_account,
                relay_account,
                proof_valid,
            ).1->Ok_0;
            lemma_paid_out_few(events[0], events[1]);
            assert(events =~= seq![events[0], events[1]]);
        }
    }

    /// Moving a reward pays nothing and leaves the pooled funds as they were,
    /// and a call that is refused leaves the ledger as it was.
    pub proof fn lemma_update_pays(self, origin: Origin, new_reward_account: AccountId)
        ensures
            ({
                let (next, told) = self.update_reward_address(origin, new_reward_account);
                match told {
                    Ok(events) => paid_out(events) == 0 && next.pot == self.pot,
                    Err(_) => next == self,
                }
            }),
    {
        if self.update_refusal(origin) is None {
            let events = self.update_reward_address(origin, new_reward_account).1->Ok_0;
            lemma_paid_out_few(events[0], events[0]);
            assert(events =~= seq![events[0]]);
        }
    }

    /// The pooled funds are conserved: what is outstanding of the rewards and
    /// what has been spent never exceed the funds that the ledger started with,
    /// and in a ledger that was closed by a call they add up to them exactly.
    pub proof fn lemma_funds_conserved(self)
        requires
            self.wf(),
        ensures
            self.outstanding() + self.spent() <= self.funded,
            self.paid() == self.spent(),
            self.initialized && !self.config.initialized ==> self.outstanding() + self.spent()
                == self.funded,
    {
    }

    /// No reward has more paid than its total, whether it is payable or waits.
    pub proof fn lemma_claimed_within_total(
        self,
        who: AccountId,
        relay_account: RelayChainAccountId,
    )
        requires
            self.wf(),
        ensures
            self.accounts_payable.contains_key(who) ==> self.accounts_payable[who].claimed_reward
                <= self.accounts_payable[who].total_reward,
            self.unassociated_contributions.contains_key(relay_account)
                ==> self.unassociated_contributions[relay_account].claimed_reward
                <= self.unassociated_contributions[relay_account].total_reward,
    {
    }

    /// A closed ledger refuses every batch and stays as it was; the
    /// administrative origin is told that the ledger has been initialized, and
    /// any other origin that it may not make the call.
    pub proof fn lemma_closed_ledger_refuses_batches(
        self,
        origin: Origin,
        rewards: Seq<Contribution>,
    )
        requires
            self.initialized,
        ensures
            self.initialize_reward_vec(origin, rewards).0 == self,
            self.initialize_reward_vec(origin, rewards).1 is Err,
            origin == Origin::Root ==> self.initialize_reward_vec(origin, rewards).1 == Err::<
                Seq<Event>,
                DispatchError,
            >(DispatchError::Module(Error::RewardVecAlreadyInitialized)),
            origin != Origin::Root ==> self.initialize_reward_vec(origin, rewards).1 == Err::<
                Seq<Event>,
                DispatchError,
            >(DispatchError::BadOrigin),
    {
    }

    /// Two claims of one account, the second at a relay chain block that is not
    /// before that of the first, never lower what has been paid of its reward,
    /// whether they succeed or fail.
    pub proof fn lemma_repeated_claims(
        self,
        who: AccountId,
        first: RelayChainBlockNumber,
        second: RelayChainBlockNumber,
    )
        requires
            self.wf(),
            first <= second,
            self.accounts_payable.contains_key(who),
        ensures
            ({
                let once = self.claim(Origin::Signed(who), first).0;
                let twice = once.claim(Origin::Signed(who), second).0;
                &&& once.accounts_payable.contains_key(who)
                &&& twice.accounts_payable.contains_key(who)
                &&& self.accounts_payable[who].claimed_reward
                    <= once.accounts_payable[who].claimed_reward
                    <= twice.accounts_payable[who].claimed_reward
                    <= self.accounts_payable[who].total_reward
                &&& twice.accounts_payable[who].total_reward
                    == self.accounts_payable[who].total_reward
            }),
    {
        let origin = Origin::Signed(who);
        let once = self.claim(origin, first).0;
        self.lemma_claim_wf(origin, first);
        once.lemma_claim_wf(origin, second);
        lemma_payable_within_outstanding(
            self.accounts_payable[who],
            first,
            self.init_relay_block,
            self.end_relay_block,
            self.config.initialization_payment,
        );
        lemma_payable_within_outstanding(
            once.accounts_payable[who],
            second,
            once.init_relay_block,
            once.end_relay_block,
            once.config.initialization_payment,
        );
    }

    /// Once the vesting window has passed, a claim pays all that is outstanding
    /// of the caller's reward, provided the part of the reward that vests, times
    /// the blocks that have passed, fits a balance.
    pub proof fn lemma_claim_after_window(self, who: AccountId, now: RelayChainBlockNumber)
        requires
            self.wf(),
            self.claim_refusal(Origin::Signed(who)) is None,
            now >= self.end_relay_block,
            vesting_part(self.accounts_payable[who], self.config.initialization_payment) * elapsed(
                now,
                self.init_relay_block,
            ) <= Balance::MAX,
        ensures
            ({
                let (next, told) = self.claim(Origin::Signed(who), now);
                let info = self.accounts_payable[who];
                &&& next.accounts_payable[who].claimed_reward == info.total_reward
                &&& told == Ok::<Seq<Event>, DispatchError>(
                    seq![
                        Event::RewardsPaid(
                            who,
                            (info.total_reward - info.claimed_reward) as Balance,
                        ),
                    ],
                )
                &&& next.claim_refusal(Origin::Signed(who)) == Some(
                    DispatchError::Module(Error::RewardsAlreadyClaimed),
                )
            }),
    {
        lemma_unlocked_after_window(
            self.accounts_payable[who],
            now,
            self.init_relay_block,
            self.end_relay_block,
            self.config.initialization_payment,
        );
    }

    /// An entry of a batch whose relay chain account is in the ledger already
    /// changes nothing, and a batch goes on after it.
    pub proof fn lemma_known_account_passed_over(self, entry: Contribution)
        requires
            self.knows(entry.0),
        ensures
            self.enter(entry).0 == self,
            self.enter(entry).1 == seq![
                Event::InitializedAlreadyInitializedAccount(entry.0, entry.1, entry.2),
            ],
    {
    }

    /// A native account that holds a reward and is attached to another
    /// contribution holds both: the totals are added up, and so are the payments,
    /// the first payment of the new reward among them.
    pub proof fn lemma_association_adds(
        self,
        origin: Origin,
        reward_account: AccountId,
        relay_account: RelayChainAccountId,
    )
        requires
            self.wf(),
            self.associate_refusal(origin, relay_account, true) is None,
            self.accounts_payable.contains_key(reward_account),
        ensures
            ({
                let held = self.accounts_payable[reward_account];
                let waiting = self.unassociated_contributions[relay_account];
                let first = per_billion_of(
                    self.config.initialization_payment.parts(),
                    waiting.total_reward as nat,
                );
                let next = self.associate_native_identity(
                    origin,
                    reward_account,
                    relay_account,
                    true,
                ).0;
                &&& next.accounts_payable.contains_key(reward_account)
                &&& next.accounts_payable[reward_account].total_reward == held.total_reward
                    + waiting.total_reward
                &&& next.accounts_payable[reward_account].claimed_reward == held.claimed_reward
                    + first
            }),
    {
        let waiting = self.unassociated_contributions[relay_account];
        lemma_per_billion_of_bounded(
            self.config.initialization_payment.parts(),
            waiting.total_reward as nat,
        );
        self.lemma_totals_fit();
    }

    /// Moving a reward to an account that holds one already adds the two up, and
    /// leaves what is outstanding of all rewards as it was.
    pub proof fn lemma_update_adds(self, signer: AccountId, new_reward_account: AccountId)
        requires
            self.wf(),
            self.accounts_payable.contains_key(signer),
            self.accounts_payable.contains_key(new_reward_account),
            signer != new_reward_account,
        ensures
            ({
                let next = self.update_reward_address(
                    Origin::Signed(signer),
                    new_reward_account,
                ).0;
                &&& !next.accounts_payable.contains_key(signer)
                &&& next.accounts_payable.contains_key(new_reward_account)
                &&& next.accounts_payable[new_reward_account].total_reward
                    == self.accounts_payable[signer].total_reward
                    + self.accounts_payable[new_reward_account].total_reward
                &&& next.accounts_payable[new_reward_account].claimed_reward
                    == self.accounts_payable[signer].claimed_reward
                    + self.accounts_payable[new_reward_account].claimed_reward
                &&& next.outstanding() == self.outstanding()
            }),
    {
        self.lemma_totals_fit();
        self.lemma_update_wf(Origin::Signed(signer), new_reward_account);
    }

    /// The number of contributors is the number of relay chain accounts in the
    /// ledger, with or without a native account, as far as the count goes.
    pub proof fn lemma_contributors_counted(self)
        requires
            self.wf(),
        ensures
            self.known_accounts() <= u32::MAX ==> self.total_contributors == self.known_accounts(),
            self.known_accounts() > u32::MAX ==> self.total_contributors == u32::MAX,
    {
    }

    /// No call changes the configuration, the funds that the ledger started
    /// with, or the start of the vesting window: only the end of the first block
    /// moves the start.
    pub proof fn lemma_calls_keep_the_start(
        self,
        origin: Origin,
        rewards: Seq<Contribution>,
        now: RelayChainBlockNumber,
        reward_account: AccountId,
        relay_account: RelayChainAccountId,
        proof_valid: bool,
    )
        requires
            self.wf(),
        ensures
            self.kept_start(self.initialize_reward_vec(origin, rewards).0),
            self.kept_start(self.complete_initialiation(origin, now).0),
            self.kept_start(self.claim(origin, now).0),
            self.kept_start(
                self.associate_native_identity(
                    origin,
                    reward_account,
                    relay_account,
                    proof_valid,
                ).0,
            ),
            self.kept_start(self.update_reward_address(origin, reward_account).0),
    {
        if self.initialize_refusal(origin, rewards) is None {
            self.lemma_enter_all_wf(rewards);
        }
    }

    /// A closed ledger stays closed, and the end of its vesting window stays
    /// where it is, whatever the call.
    pub proof fn lemma_closing_is_final(
        self,
        origin: Origin,
        rewards: Seq<Contribution>,
        now: RelayChainBlockNumber,
        reward_account: AccountId,
        relay_account: RelayChainAccountId,
        proof_valid: bool,
    )
        requires
            self.initialized,
        ensures
            self.kept_closed(self.initialize_reward_vec(origin, rewards).0),
            self.kept_closed(self.complete_initialiation(origin, now).0),
            self.kept_closed(self.claim(origin, now).0),
            self.kept_closed(
                self.associate_native_identity(
                    origin,
                    reward_account,
                    relay_account,
                    proof_valid,
                ).0,
            ),
            self.kept_closed(self.update_reward_address(origin, reward_account).0),
            self.kept_closed(self.on_finalize(1, now)),
    {
    }

    /// Three of the reasons are kept for the hosts that know them by number and
    /// are never given by a call.
    pub proof fn lemma_reasons_never_given(
        self,
        origin: Origin,
        rewards: Seq<Contribution>,
        now: RelayChainBlockNumber,
        reward_account: AccountId,
        relay_account: RelayChainAccountId,
        proof_valid: bool,
    )
        ensures
            never_given(self.initialize_reward_vec(origin, rewards).1),
            never_given(self.claim(origin, now).1),
            never_given(
                self.associate_native_identity(
                    origin,
                    reward_account,
                    relay_account,
                    proof_valid,
                ).1,
            ),
            never_given(self.update_reward_address(origin, reward_account).1),
            self.complete_initialiation(origin, now).1 is Err ==> !unused_reason(
                self.complete_initialiation(origin, now).1->Err_0,
            ),
    {
    }

    /// Whether `next` has the configuration, the starting funds and the start of
    /// the vesting window of this ledger.
    pub open spec fn kept_start(self, next: Ledger) -> bool {
        &&& next.config == self.config
        &&& next.funded == self.funded
        &&& next.init_relay_block == self.init_relay_block
    }

    /// Whether `next` is closed, with the end of the vesting window of this
    /// ledger.
    pub open spec fn kept_closed(self, next: Ledger) -> bool {
        next.initialized && next.end_relay_block == self.end_relay_block
    }
}

} // verus!
