//! Every call keeps a well-formed ledger well-formed.

use crate::ledger::{credited, merged, sum_rewards, Contribution, Ledger};
use crate::perbill::{lemma_per_billion_of_bounded, per_billion_of, BILLION};
use crate::sums::{
    claimed_of, lemma_sum_bounds_entry, lemma_sum_bounds_pair, lemma_sum_empty, lemma_sum_insert,
    lemma_sum_remove, outstanding_of, sum_of,
};
use crate::types::{
    AccountId, Balance, BlockNumber, Config, GenesisConfig, Origin, RelayChainAccountId,
    RelayChainBlockNumber, RewardInfo,
};
use crate::vesting::{after_claim, lemma_payable_within_outstanding, spec_payable_now};
use vstd::prelude::*;

verus! {

/// Crediting a reward adds what is outstanding of it, and what was paid of it,
/// to the sums over the payable rewards, and keeps every payment within its
/// total.
pub proof fn lemma_credited(payable: Map<AccountId, RewardInfo>, who: AccountId, added: RewardInfo)
    requires
        payable.dom().finite(),
        added.claimed_reward <= added.total_reward,
        forall|k: AccountId| #[trigger]
            payable.contains_key(k) ==> payable[k].claimed_reward <= payable[k].total_reward,
        payable.contains_key(who) ==> payable[who].total_reward + added.total_reward
            <= Balance::MAX,
    ensures
        credited(payable, who, added).dom() == payable.dom().insert(who),
        credited(payable, who, added).dom().finite(),
        forall|k: AccountId| #[trigger]
            credited(payable, who, added).contains_key(k) ==> credited(
                payable,
                who,
                added,
            )[k].claimed_reward <= credited(payable, who, added)[k].total_reward,
        forall|k: AccountId|
            k != who && payable.contains_key(k) ==> #[trigger] credited(payable, who, added)[k]
                == payable[k],
        sum_of(credited(payable, who, added), outstanding_of()) == sum_of(
            payable,
            outstanding_of(),
        ) + added.outstanding(),
        sum_of(credited(payable, who, added), claimed_of()) == sum_of(payable, claimed_of())
            + added.claimed_reward,
{
    let next = credited(payable, who, added);
    assert(next.dom() =~= payable.dom().insert(who));
    if payable.contains_key(who) {
        lemma_sum_insert(payable, outstanding_of(), who, merged(payable[who], added));
        lemma_sum_insert(payable, claimed_of(), who, merged(payable[who], added));
    } else {
        lemma_sum_insert(payable, outstanding_of(), who, added);
        lemma_sum_insert(payable, claimed_of(), who, added);
    }
}

impl Ledger {
    /// The ledger at the start is well-formed.
    pub proof fn lemma_genesis_wf(config: Config, genesis: GenesisConfig)
        requires
            config.initialization_payment.parts() <= BILLION,
        ensures
            Ledger::genesis(config, genesis).wf(),
    {
        lemma_sum_empty::<AccountId>(outstanding_of());
        lemma_sum_empty::<AccountId>(claimed_of());
        lemma_sum_empty::<RelayChainAccountId>(outstanding_of());
    }

    /// The end of a block keeps the ledger well-formed.
    pub proof fn lemma_on_finalize_wf(self, n: BlockNumber, relay_parent: RelayChainBlockNumber)
        requires
            self.wf(),
        ensures
            self.on_finalize(n, relay_parent).wf(),
    {
    }

    /// The total of a payable reward and the total of a reward that waits fit a
    /// balance together, and so do the totals of two payable rewards.
    pub proof fn lemma_totals_fit(self)
        requires
            self.wf(),
        ensures
            forall|who: AccountId, relay_account: RelayChainAccountId|
                #![trigger self.accounts_payable[who], self.unassociated_contributions[relay_account]]
                self.accounts_payable.contains_key(who)
                    && self.unassociated_contributions.contains_key(relay_account)
                    ==> self.accounts_payable[who].total_reward
                    + self.unassociated_contributions[relay_account].total_reward <= self.funded,
            forall|a: AccountId, b: AccountId|
                #![trigger self.accounts_payable[a], self.accounts_payable[b]]
                self.accounts_payable.contains_key(a) && self.accounts_payable.contains_key(b)
                    && a != b ==> self.accounts_payable[a].total_reward
                    + self.accounts_payable[b].total_reward <= self.funded,
            forall|who: AccountId| #[trigger]
                self.accounts_payable.contains_key(who) ==> self.accounts_payable[who].total_reward
                    + self.pot - self.init_reward_amount <= self.funded,
    {
        assert forall|who: AccountId, relay_account: RelayChainAccountId|
            self.accounts_payable.contains_key(who)
                && self.unassociated_contributions.contains_key(
                relay_account,
            ) implies self.accounts_payable[who].total_reward
            + self.unassociated_contributions[relay_account].total_reward <= self.funded by {
            lemma_sum_bounds_entry(self.accounts_payable, outstanding_of(), who);
            lemma_sum_bounds_entry(self.accounts_payable, claimed_of(), who);
            lemma_sum_bounds_entry(self.unassociated_contributions, outstanding_of(), relay_account);
        }
        assert forall|a: AccountId, b: AccountId|
            self.accounts_payable.contains_key(a) && self.accounts_payable.contains_key(b) && a
                != b implies self.accounts_payable[a].total_reward
            + self.accounts_payable[b].total_reward <= self.funded by {
            lemma_sum_bounds_pair(self.accounts_payable, outstanding_of(), a, b);
            lemma_sum_bounds_pair(self.accounts_payable, claimed_of(), a, b);
        }
        assert forall|who: AccountId| #[trigger]
            self.accounts_payable.contains_key(who) implies self.accounts_payable[who].total_reward
            + self.pot - self.init_reward_amount <= self.funded by {
            lemma_sum_bounds_entry(self.accounts_payable, outstanding_of(), who);
            lemma_sum_bounds_entry(self.accounts_payable, claimed_of(), who);
        }
    }

    /// One entry of a batch keeps an open ledger well-formed and open, provided
    /// the pooled funds cover its reward besides what is outstanding; it lowers
    /// what the funds hold beyond the outstanding rewards by its reward at most.
    pub proof fn lemma_enter_wf(self, entry: Contribution)
        requires
            self.wf(),
            !self.initialized,
            self.init_reward_amount + entry.2 <= self.pot,
        ensures
            self.enter(entry).0.wf(),
            !self.enter(entry).0.initialized,
            self.enter(entry).0.config == self.config,
            self.enter(entry).0.funded == self.funded,
            self.enter(entry).0.init_relay_block == self.init_relay_block,
            self.enter(entry).0.end_relay_block == self.end_relay_block,
            self.enter(entry).0.pot - self.enter(entry).0.init_reward_amount >= self.pot
                - self.init_reward_amount - entry.2,
    {
        let (relay_account, native_account, reward) = entry;
        let next = self.enter(entry).0;
        if self.knows(relay_account) || reward < self.config.minimum_reward {
        } else {
            match native_account {
                Some(who) => {
                    lemma_per_billion_of_bounded(
                        self.config.initialization_payment.parts(),
                        reward as nat,
                    );
                    let first = per_billion_of(
                        self.config.initialization_payment.parts(),
                        reward as nat,
                    ) as Balance;
                    let info = RewardInfo { total_reward: reward, claimed_reward: first };
                    self.lemma_totals_fit();
                    lemma_credited(self.accounts_payable, who, info);
                    assert(next.unassociated_contributions == self.unassociated_contributions);
                },
                None => {
                    let info = RewardInfo { total_reward: reward, claimed_reward: 0 };
                    lemma_sum_insert(
                        self.unassociated_contributions,
                        outstanding_of(),
                        relay_account,
                        info,
                    );
                    assert(next.unassociated_contributions.dom()
                        =~= self.unassociated_contributions.dom().insert(relay_account));
                },
            }
        }
    }

    /// The entries of a batch keep an open ledger well-formed and open, provided
    /// the pooled funds cover their rewards besides what is outstanding.
    pub proof fn lemma_enter_all_wf(self, rewards: Seq<Contribution>)
        requires
            self.wf(),
            !self.initialized,
            self.init_reward_amount + sum_rewards(rewards) <= self.pot,
        ensures
            self.enter_all(rewards).0.wf(),
            !self.enter_all(rewards).0.initialized,
            self.enter_all(rewards).0.config == self.config,
            self.enter_all(rewards).0.funded == self.funded,
            self.enter_all(rewards).0.init_relay_block == self.init_relay_block,
            self.enter_all(rewards).0.end_relay_block == self.end_relay_block,
            self.enter_all(rewards).0.pot - self.enter_all(rewards).0.init_reward_amount
                >= self.pot - self.init_reward_amount - sum_rewards(rewards),
        decreases rewards.len(),
    {
        if rewards.len() > 0 {
            self.lemma_enter_all_wf(rewards.drop_last());
            self.enter_all(rewards.drop_last()).0.lemma_enter_wf(rewards.last());
        }
    }

    /// A batch keeps the ledger well-formed, whether it is taken or refused.
    pub proof fn lemma_initialize_wf(self, origin: Origin, rewards: Seq<Contribution>)
        requires
            self.wf(),
        ensures
            self.initialize_reward_vec(origin, rewards).0.wf(),
    {
        if self.initialize_refusal(origin, rewards) is None {
            self.lemma_enter_all_wf(rewards);
        }
    }

    /// A batch changes nothing of the configuration, whether it is taken or
    /// refused.
    pub proof fn lemma_initialize_keeps_config(self, origin: Origin, rewards: Seq<Contribution>)
        requires
            self.wf(),
        ensures
            self.initialize_reward_vec(origin, rewards).0.config == self.config,
    {
        if self.initialize_refusal(origin, rewards) is None {
            self.lemma_enter_all_wf(rewards);
        }
    }

    /// Closing the ledger keeps it well-formed.
    pub proof fn lemma_complete_wf(self, origin: Origin, lease_ending_block: RelayChainBlockNumber)
        requires
            self.wf(),
        ensures
            self.complete_initialiation(origin, lease_ending_block).0.wf(),
    {
    }

    /// A claim keeps the ledger well-formed, and pays no more than the pooled
    /// funds hold.
    pub proof fn lemma_claim_wf(self, origin: Origin, now: RelayChainBlockNumber)
        requires
            self.wf(),
        ensures
            self.claim(origin, now).0.wf(),
            self.claim_refusal(origin) is None ==> spec_payable_now(
                self.accounts_payable[origin->Signed_0],
                now,
                self.init_relay_block,
                self.end_relay_block,
                self.config.initialization_payment,
            ) <= self.init_reward_amount,
    {
        if self.claim_refusal(origin) is None {
            let payee = origin->Signed_0;
            let info = self.accounts_payable[payee];
            let paid = after_claim(
                info,
                now,
                self.init_relay_block,
                self.end_relay_block,
                self.config.initialization_payment,
            );
            lemma_payable_within_outstanding(
                info,
                now,
                self.init_relay_block,
                self.end_relay_block,
                self.config.initialization_payment,
            );
            lemma_sum_bounds_entry(self.accounts_payable, outstanding_of(), payee);
            lemma_sum_insert(self.accounts_payable, outstanding_of(), payee, paid);
            lemma_sum_insert(self.accounts_payable, claimed_of(), payee, paid);
            let next = self.claim(origin, now).0;
            assert(next.accounts_payable.dom() =~= self.accounts_payable.dom().insert(payee));
        }
    }

    /// Attaching a native account keeps the ledger well-formed, and the first
    /// payment is no more than the pooled funds hold.
    pub proof fn lemma_associate_wf(
        self,
        origin: Origin,
        reward_account: AccountId,
        relay_account: RelayChainAccountId,
        proof_valid: bool,
    )
        requires
            self.wf(),
        ensures
            self.associate_native_identity(origin, reward_account, relay_account, proof_valid).0.wf(),
            self.associate_refusal(origin, relay_account, proof_valid) is None ==> per_billion_of(
                self.config.initialization_payment.parts(),
                self.unassociated_contributions[relay_account].total_reward as nat,
            ) <= self.init_reward_amount,
    {
        if self.associate_refusal(origin, relay_account, proof_valid) is None {
            let waiting = self.unassociated_contributions[relay_account];
            let total = waiting.total_reward;
            lemma_per_billion_of_bounded(self.config.initialization_payment.parts(), total as nat);
            let first = per_billion_of(self.config.initialization_payment.parts(), total as nat)
                as Balance;
            let info = RewardInfo { total_reward: total, claimed_reward: first };
            self.lemma_totals_fit();
            lemma_sum_remove(self.unassociated_contributions, outstanding_of(), relay_account);
            lemma_credited(self.accounts_payable, reward_account, info);
            let next = self.associate_native_identity(
                origin,
                reward_account,
                relay_account,
                proof_valid,
            ).0;
            assert(next.unassociated_contributions.dom()
                =~= self.unassociated_contributions.dom().remove(relay_account));
        }
    }

    /// Moving a reward to another account keeps the ledger well-formed.
    pub proof fn lemma_update_wf(self, origin: Origin, new_reward_account: AccountId)
        requires
            self.wf(),
        ensures
            self.update_reward_address(origin, new_reward_account).0.wf(),
    {
        if self.update_refusal(origin) is None {
            let signer = origin->Signed_0;
            if signer != new_reward_account {
                let rest = self.accounts_payable.remove(signer);
                let info = self.accounts_payable[signer];
                self.lemma_totals_fit();
                lemma_sum_remove(self.accounts_payable, outstanding_of(), signer);
                lemma_sum_remove(self.accounts_payable, claimed_of(), signer);
                assert(rest.dom() =~= self.accounts_payable.dom().remove(signer));
                lemma_credited(rest, new_reward_account, info);
            }
        }
    }

    /// The entries up to the place `i` are entered by entering those before it
    /// and then the one at it.
    pub proof fn lemma_enter_all_step(self, rewards: Seq<Contribution>, i: int)
        requires
            0 <= i < rewards.len(),
        ensures
            self.enter_all(rewards.take(i + 1)).0 == self.enter_all(rewards.take(i)).0.enter(
                rewards[i],
            ).0,
            self.enter_all(rewards.take(i + 1)).1 == self.enter_all(rewards.take(i)).1
                + self.enter_all(rewards.take(i)).0.enter(rewards[i]).1,
    {
        assert(rewards.take(i + 1).drop_last() =~= rewards.take(i));
    }
}

/// The rewards of the first `i + 1` entries are those of the first `i` and the
/// reward of the entry after them, and no more than the rewards of the batch.
pub proof fn lemma_sum_rewards_step(rewards: Seq<Contribution>, i: int)
    requires
        0 <= i < rewards.len(),
    ensures
        sum_rewards(rewards.take(i + 1)) == sum_rewards(rewards.take(i)) + rewards[i].2,
        sum_rewards(rewards.take(i + 1)) <= sum_rewards(rewards),
    decreases rewards.len(),
{
    assert(rewards.take(i + 1).drop_last() =~= rewards.take(i));
    if i + 1 == rewards.len() {
        assert(rewards.take(i + 1) =~= rewards);
    } else {
        lemma_sum_rewards_step(rewards.drop_last(), i);
        assert(rewards.drop_last().take(i + 1) =~= rewards.take(i + 1));
    }
}

} // verus!
