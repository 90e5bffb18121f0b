//! The reward ledger that runs: [`Pallet`] holds the state, and each call does
//! to it what [`Ledger`] says.

use crate::invariants::lemma_sum_rewards_step;
use crate::ledger::{credited, paid_out, sum_rewards, Contribution, Ledger};
use crate::relay_table::{RelayMap, RelaySet};
use crate::signature::{encode_account, verify_proof};
use crate::types::{
    AccountId, Balance, BlockNumber, Config, DispatchError, Error, Event, GenesisConfig, Origin,
    RelayChainAccountId, RelayChainBeacon, RelayChainBlockNumber, RewardInfo,
};
use crate::vesting::payable_now;
use std::collections::HashMap;
use vstd::prelude::*;

verus! {

broadcast use vstd::std_specs::hash::group_hash_axioms;

/// The identifier under which the ledger keeps its funds with the host.
pub const PALLET_ID: [u8; 8] = [0x43, 0x72, 0x6f, 0x77, 0x64, 0x6c, 0x6f, 0x61];

/// What a call tells its caller, with the events as a sequence.
pub open spec fn told(outcome: Result<Vec<Event>, DispatchError>) -> Result<
    Seq<Event>,
    DispatchError,
> {
    match outcome {
        Ok(events) => Ok(events@),
        Err(error) => Err(error),
    }
}

/// Whether a call that went from the ledger `before` to the ledger `after` did
/// what it told: what left the pooled funds is what its events tell the host to
/// pay, and a call that failed left the ledger as it was.
pub open spec fn accounted(
    before: Ledger,
    after: Ledger,
    outcome: Result<Vec<Event>, DispatchError>,
) -> bool {
    match outcome {
        Ok(events) => before.pot == after.pot + paid_out(events@),
        Err(_) => after == before,
    }
}

/// A payment that the host makes for the ledger, from the account `source` to
/// the account `dest`.
#[derive(Clone, Copy, Debug, PartialEq, Eq, Structural)]
pub struct Transfer {
    pub source: AccountId,
    pub dest: AccountId,
    pub value: Balance,
}

/// The account that holds the funds of the ledger with the host.
pub const CROWDLOAN_ACCOUNT: AccountId = 0x776f_7243_6c64_6f6d;

/// The payment that an event tells the host to make: for a payment, from the
/// account of the ledger to the account paid; for any other event, none.
pub open spec fn spec_transfer_of(event: Event) -> Option<Transfer> {
    match event {
        Event::InitialPaymentMade(who, amount) => Some(
            Transfer { source: CROWDLOAN_ACCOUNT, dest: who, value: amount },
        ),
        Event::RewardsPaid(who, amount) => Some(
            Transfer { source: CROWDLOAN_ACCOUNT, dest: who, value: amount },
        ),
        _ => None,
    }
}

/// Credits the reward to the account: added to what the account holds, never
/// put in its place.
fn credit(payable: &mut HashMap<AccountId, RewardInfo>, who: AccountId, added: RewardInfo)
    requires
        old(payable)@.contains_key(who) ==> old(payable)@[who].total_reward + added.total_reward
            <= Balance::MAX && old(payable)@[who].claimed_reward + added.claimed_reward
            <= Balance::MAX,
    ensures
        final(payable)@ == credited(old(payable)@, who, added),
{
    let merged = match payable.get(&who) {
        Some(held) => RewardInfo {
            total_reward: held.total_reward + added.total_reward,
            claimed_reward: held.claimed_reward + added.claimed_reward,
        },
        None => added,
    };
    payable.insert(who, merged);
}

/// The rewards of a batch, added up, unless they exceed the largest balance.
fn total_rewards(rewards: &Vec<Contribution>) -> (total: Option<Balance>)
    ensures
        match total {
            Some(total) => total == sum_rewards(rewards@),
            None => sum_rewards(rewards@) > Balance::MAX,
        },
{
    let mut total: Balance = 0;
    let mut i: usize = 0;
    assert(rewards@.take(0) =~= Seq::empty());
    while i < rewards.len()
        invariant
            i <= rewards.len(),
            total == sum_rewards(rewards@.take(i as int)),
        decreases rewards.len() - i,
    {
        proof {
            lemma_sum_rewards_step(rewards@, i as int);
        }
        total = match total.checked_add(rewards[i].2) {
            Some(total) => total,
            None => {
                return None;
            },
        };
        i += 1;
    }
    assert(rewards@.take(rewards.len() as int) =~= rewards@);
    Some(total)
}

/// The reward ledger.
#[derive(Clone)]
pub struct Pallet {
    config: Config,
    accounts_payable: HashMap<AccountId, RewardInfo>,
    claimed_relay_chain_ids: RelaySet,
    unassociated_contributions: RelayMap,
    initialized: bool,
    init_relay_block: RelayChainBlockNumber,
    end_relay_block: RelayChainBlockNumber,
    init_reward_amount: Balance,
    total_contributors: u32,
    pot: Balance,
    funded: Balance,
}

impl View for Pallet {
    type V = Ledger;

    closed spec fn view(&self) -> Ledger {
        Ledger {
            config: self.config,
            accounts_payable: self.accounts_payable@,
            claimed_relay_chain_ids: self.claimed_relay_chain_ids@,
            unassociated_contributions: self.unassociated_contributions@,
            initialized: self.initialized,
            init_relay_block: self.init_relay_block,
            end_relay_block: self.end_relay_block,
            init_reward_amount: self.init_reward_amount,
            total_contributors: self.total_contributors,
            pot: self.pot,
            funded: self.funded,
        }
    }
}

impl GenesisConfig {
    /// The ledger at the start, with the funds of this genesis.
    pub fn build(&self, config: Config) -> (pallet: Pallet)
        ensures
            pallet.wf(),
            pallet@ == Ledger::genesis(config, *self),
    {
        proof {
            use_type_invariant(&config.initialization_payment);
        }
        let pallet = Pallet {
            config,
            accounts_payable: HashMap::new(),
            claimed_relay_chain_ids: RelaySet::new(),
            unassociated_contributions: RelayMap::new(),
            initialized: config.initialized,
            init_relay_block: 0,
            end_relay_block: 0,
            init_reward_amount: 0,
            total_contributors: 0,
            pot: self.funded_amount,
            funded: self.funded_amount,
        };
        proof {
            Ledger::lemma_genesis_wf(config, *self);
        }
        pallet
    }
}

impl Pallet {
    /// Whether the tables of the ledger are in order within.
    pub closed spec fn tables_wf(self) -> bool {
        self.claimed_relay_chain_ids.wf() && self.unassociated_contributions.wf()
    }

    /// What holds of the ledger between calls.
    pub open spec fn wf(self) -> bool {
        self.tables_wf() && self@.wf()
    }

    /// `frame_support::PalletId` and
    /// `sp_runtime::traits::AccountIdConversion::into_account_truncating`, which
    /// make an account of the bytes `modl` and the identifier after them, cut to
    /// the size of the account: here the little-endian number of `modlCrow`.
    #[verifier::external_body]
    pub fn account_id() -> (id: AccountId)
        ensures
            id == CROWDLOAN_ACCOUNT,
    {
        sp_runtime::traits::AccountIdConversion::into_account_truncating(
            &frame_support::PalletId(PALLET_ID),
        )
    }

    /// The payment that an event tells the host to make, if it tells of one.
    pub fn transfer_of(event: &Event) -> (transfer: Option<Transfer>)
        ensures
            transfer == spec_transfer_of(*event),
    {
        match event {
            Event::InitialPaymentMade(who, amount) => Some(
                Transfer { source: Pallet::account_id(), dest: *who, value: *amount },
            ),
            Event::RewardsPaid(who, amount) => Some(
                Transfer { source: Pallet::account_id(), dest: *who, value: *amount },
            ),
            _ => None,
        }
    }

    /// The pooled funds that are left.
    pub fn pot(&self) -> (pot: Balance)
        ensures
            pot == self@.pot,
    {
        self.pot
    }

    /// The pooled funds that the ledger started with.
    pub fn funded(&self) -> (funded: Balance)
        ensures
            funded == self@.funded,
    {
        self.funded
    }

    /// The payable reward of the account, if it has one.
    pub fn accounts_payable(&self, who: &AccountId) -> (found: Option<RewardInfo>)
        ensures
            found == (if self@.accounts_payable.contains_key(*who) {
                Some(self@.accounts_payable[*who])
            } else {
                None
            }),
    {
        match self.accounts_payable.get(who) {
            Some(info) => Some(*info),
            None => None,
        }
    }

    /// Whether the relay chain account has been given a native account.
    pub fn claimed_relay_chain_ids(&self, relay_account: &RelayChainAccountId) -> (found: Option<()>)
        requires
            self.wf(),
        ensures
            found is Some == self@.claimed_relay_chain_ids.contains(*relay_account),
    {
        if self.claimed_relay_chain_ids.contains(relay_account) {
            Some(())
        } else {
            None
        }
    }

    /// The reward that waits for the relay chain account, if one does.
    pub fn unassociated_contributions(&self, relay_account: &RelayChainAccountId) -> (found: Option<
        RewardInfo,
    >)
        requires
            self.wf(),
        ensures
            found == (if self@.unassociated_contributions.contains_key(*relay_account) {
                Some(self@.unassociated_contributions[*relay_account])
            } else {
                None
            }),
    {
        self.unassociated_contributions.get(relay_account)
    }

    /// The constants of the deployment.
    pub fn config(&self) -> (config: Config)
        ensures
            config == self@.config,
    {
        self.config
    }

    /// Whether the ledger is closed for initialization.
    pub fn initialized(&self) -> (initialized: bool)
        ensures
            initialized == self@.initialized,
    {
        self.initialized
    }

    /// The relay chain block at which vesting starts.
    pub fn init_relay_block(&self) -> (block: RelayChainBlockNumber)
        ensures
            block == self@.init_relay_block,
    {
        self.init_relay_block
    }

    /// The relay chain block at which vesting ends.
    pub fn end_relay_block(&self) -> (block: RelayChainBlockNumber)
        ensures
            block == self@.end_relay_block,
    {
        self.end_relay_block
    }

    /// What is outstanding of all rewards.
    pub fn init_reward_amount(&self) -> (amount: Balance)
        ensures
            amount == self@.init_reward_amount,
    {
        self.init_reward_amount
    }

    /// The number of contributions entered.
    pub fn total_contributors(&self) -> (count: u32)
        ensures
            count == self@.total_contributors,
    {
        self.total_contributors
    }

    /// The end of the block `n` of this chain: the first block fixes the start of
    /// the vesting window at the relay chain block that the beacon shows.
    pub fn on_finalize(&mut self, n: BlockNumber, beacon: &RelayChainBeacon)
        requires
            old(self).wf(),
        ensures
            final(self).wf(),
            final(self)@ == old(self)@.on_finalize(n, beacon.relay_parent_number),
    {
        if n == 1 {
            self.init_relay_block = beacon.relay_parent_number;
        }
    }

    /// Closes the ledger for initialization and fixes the end of the vesting
    /// window.
    ///
    /// Only the administrative origin may do so, and only once; the window ends
    /// after it starts, and what is outstanding of the rewards equals the pooled
    /// funds. Otherwise the call fails and the ledger stays as it was.
    pub fn complete_initialiation(
        &mut self,
        origin: Origin,
        lease_ending_block: RelayChainBlockNumber,
    ) -> (outcome: Result<(), DispatchError>)
        requires
            old(self).wf(),
        ensures
            final(self).wf(),
            final(self)@ == old(self)@.complete_initialiation(origin, lease_ending_block).0,
            outcome == old(self)@.complete_initialiation(origin, lease_ending_block).1,
            outcome is Err ==> final(self)@ == old(self)@,
            final(self)@.pot == old(self)@.pot,
    {
        match origin {
            Origin::Root => {},
            _ => {
                return Err(DispatchError::BadOrigin);
            },
        }
        if self.initialized {
            return Err(DispatchError::Module(Error::RewardVecAlreadyInitialized));
        }
        if lease_ending_block <= self.init_relay_block {
            return Err(DispatchError::Module(Error::VestingPeriodNonValid));
        }
        if self.init_reward_amount != self.pot {
            return Err(DispatchError::Module(Error::RewardsDoNotMatchFund));
        }
        self.end_relay_block = lease_ending_block;
        self.initialized = true;
        Ok(())
    }

    /// Pays the caller what has vested of the reward and was not paid yet, at the
    /// relay chain block that the beacon shows.
    ///
    /// The caller signs the call, the ledger is closed for initialization, the
    /// caller holds a payable reward, and not all of it has been paid. Otherwise
    /// the call fails and the ledger stays as it was. What was paid of a reward
    /// never gets lower, and never exceeds the total.
    pub fn claim(&mut self, origin: Origin, beacon: &RelayChainBeacon) -> (outcome: Result<
        Vec<Event>,
        DispatchError,
    >)
        requires
            old(self).wf(),
        ensures
            final(self).wf(),
            final(self)@ == old(self)@.claim(origin, beacon.relay_parent_number).0,
            told(outcome) == old(self)@.claim(origin, beacon.relay_parent_number).1,
            accounted(old(self)@, final(self)@, outcome),
            ({
                let before = old(self)@.accounts_payable;
                let after = final(self)@.accounts_payable;
                forall|who: AccountId| #[trigger]
                    before.contains_key(who) ==> after.contains_key(who)
                        && before[who].claimed_reward <= after[who].claimed_reward
                        <= after[who].total_reward
            }),
    {
        let now = beacon.relay_parent_number;
        let payee = match origin {
            Origin::Signed(who) => who,
            _ => {
                return Err(DispatchError::BadOrigin);
            },
        };
        if !self.initialized {
            return Err(DispatchError::Module(Error::RewardVecNotFullyInitializedYet));
        }
        let info = match self.accounts_payable.get(&payee) {
            Some(info) => *info,
            None => {
                return Err(DispatchError::Module(Error::NoAssociatedClaim));
            },
        };
        if info.claimed_reward >= info.total_reward {
            return Err(DispatchError::Module(Error::RewardsAlreadyClaimed));
        }
        let amount = payable_now(
            &info,
            now,
            self.init_relay_block,
            self.end_relay_block,
            self.config.initialization_payment,
        );
        proof {
            self@.lemma_claim_wf(origin, now);
            self@.lemma_claim_pays(origin, now);
        }
        let paid = RewardInfo {
            total_reward: info.total_reward,
            claimed_reward: info.claimed_reward + amount,
        };
        self.accounts_payable.insert(payee, paid);
        self.init_reward_amount = self.init_reward_amount - amount;
        self.pot = self.pot - amount;
        let mut events = Vec::new();
        events.push(Event::RewardsPaid(payee, amount));
        assert(events@ =~= seq![Event::RewardsPaid(payee, amount)]);
        Ok(events)
    }

    /// Moves the caller's reward to another account.
    ///
    /// The caller signs the call and holds a payable reward; otherwise the call
    /// fails and the ledger stays as it was. Where the new account holds a reward
    /// already, the two are held as one, totals and payments added up. A caller
    /// who names the account that holds the reward keeps it as it is.
    pub fn update_reward_address(&mut self, origin: Origin, new_reward_account: AccountId) -> (outcome:
        Result<Vec<Event>, DispatchError>)
        requires
            old(self).wf(),
        ensures
            final(self).wf(),
            final(self)@ == old(self)@.update_reward_address(origin, new_reward_account).0,
            told(outcome) == old(self)@.update_reward_address(origin, new_reward_account).1,
            accounted(old(self)@, final(self)@, outcome),
    {
        let signer = match origin {
            Origin::Signed(who) => who,
            _ => {
                return Err(DispatchError::BadOrigin);
            },
        };
        let info = match self.accounts_payable.get(&signer) {
            Some(info) => *info,
            None => {
                return Err(DispatchError::Module(Error::NoAssociatedClaim));
            },
        };
        proof {
            self@.lemma_update_wf(origin, new_reward_account);
            self@.lemma_totals_fit();
            self@.lemma_update_pays(origin, new_reward_account);
        }
        if signer != new_reward_account {
            self.accounts_payable.remove(&signer);
            credit(&mut self.accounts_payable, new_reward_account, info);
        }
        let mut events = Vec::new();
        events.push(Event::RewardAddressUpdated(signer, new_reward_account));
        assert(events@ =~= seq![Event::RewardAddressUpdated(signer, new_reward_account)]);
        Ok(events)
    }

    /// Attaches a native account to the contribution of a relay chain account,
    /// given whether the proof of it is valid.
    ///
    /// Anybody may hand in the proof, with a signed call. The proof is valid, the
    /// relay chain account has no native account yet, and a reward waits for it.
    /// Otherwise the call fails and the ledger stays as it was. The first payment
    /// is made, and the reward is credited to the native account: added to what
    /// the account holds, never put in its place.
    pub fn associate_checked(
        &mut self,
        origin: Origin,
        reward_account: AccountId,
        relay_account: RelayChainAccountId,
        proof_valid: bool,
    ) -> (outcome: Result<Vec<Event>, DispatchError>)
        requires
            old(self).wf(),
        ensures
            final(self).wf(),
            final(self)@ == old(self)@.associate_native_identity(
                origin,
                reward_account,
                relay_account,
                proof_valid,
            ).0,
            told(outcome) == old(self)@.associate_native_identity(
                origin,
                reward_account,
                relay_account,
                proof_valid,
            ).1,
            accounted(old(self)@, final(self)@, outcome),
    {
        match origin {
            Origin::Signed(_) => {},
            _ => {
                return Err(DispatchError::BadOrigin);
            },
        }
        if !proof_valid {
            return Err(DispatchError::Module(Error::InvalidClaimSignature));
        }
        if self.claimed_relay_chain_ids.contains(&relay_account) {
            return Err(DispatchError::Module(Error::AlreadyAssociated));
        }
        let waiting = match self.unassociated_contributions.get(&relay_account) {
            Some(info) => info,
            None => {
                return Err(DispatchError::Module(Error::NoAssociatedClaim));
            },
        };
        let first_payment = self.config.initialization_payment.of(waiting.total_reward);
        proof {
            self@.lemma_associate_wf(origin, reward_account, relay_account, proof_valid);
            self@.lemma_totals_fit();
            self@.lemma_associate_pays(origin, reward_account, relay_account, proof_valid);
        }
        let info = RewardInfo { total_reward: waiting.total_reward, claimed_reward: first_payment };
        self.pot = self.pot - first_payment;
        self.init_reward_amount = self.init_reward_amount - first_payment;
        credit(&mut self.accounts_payable, reward_account, info);
        self.unassociated_contributions.remove(&relay_account);
        self.claimed_relay_chain_ids.insert(relay_account);
        let mut events = Vec::new();
        events.push(Event::InitialPaymentMade(reward_account, first_payment));
        events.push(
            Event::NativeIdentityAssociated(relay_account, reward_account, waiting.total_reward),
        );
        assert(events@ =~= seq![
            Event::InitialPaymentMade(reward_account, first_payment),
            Event::NativeIdentityAssociated(relay_account, reward_account, waiting.total_reward),
        ]);
        Ok(events)
    }

    /// Attaches a native account to the contribution of a relay chain account.
    ///
    /// The proof is a signature of the relay chain account over the encoding of
    /// the native account. It is checked, and the call goes on as
    /// [`Pallet::associate_checked`] does with the answer.
    pub fn associate_native_identity(
        &mut self,
        origin: Origin,
        reward_account: AccountId,
        relay_account: RelayChainAccountId,
        proof: sp_runtime::MultiSignature,
    ) -> (outcome: Result<Vec<Event>, DispatchError>)
        requires
            old(self).wf(),
        ensures
            final(self).wf(),
            ({
                let accepted = old(self)@.associate_native_identity(
                    origin,
                    reward_account,
                    relay_account,
                    true,
                );
                let rejected = old(self)@.associate_native_identity(
                    origin,
                    reward_account,
                    relay_account,
                    false,
                );
                ||| final(self)@ == accepted.0 && told(outcome) == accepted.1
                ||| final(self)@ == rejected.0 && told(outcome) == rejected.1
            }),
            outcome is Ok ==> told(outcome) == old(self)@.associate_native_identity(
                origin,
                reward_account,
                relay_account,
                true,
            ).1 && final(self)@ == old(self)@.associate_native_identity(
                origin,
                reward_account,
                relay_account,
                true,
            ).0,
            !(origin is Signed) ==> outcome == Err::<Vec<Event>, DispatchError>(
                DispatchError::BadOrigin,
            ),
            accounted(old(self)@, final(self)@, outcome),
    {
        let payload = encode_account(reward_account);
        let proof_valid = verify_proof(&proof, &payload, &relay_account);
        self.associate_checked(origin, reward_account, relay_account, proof_valid)
    }

    /// Enters one entry of a batch, and adds the events of it to `events`.
    fn enter(&mut self, entry: Contribution, events: &mut Vec<Event>)
        requires
            old(self).wf(),
            !old(self)@.initialized,
            old(self)@.init_reward_amount + entry.2 <= old(self)@.pot,
        ensures
            final(self).wf(),
            final(self)@ == old(self)@.enter(entry).0,
            final(events)@ == old(events)@ + old(self)@.enter(entry).1,
    {
        let (relay_account, native_account, reward) = entry;
        proof {
            self@.lemma_enter_wf(entry);
            self@.lemma_totals_fit();
        }
        if self.claimed_relay_chain_ids.contains(&relay_account)
            || self.unassociated_contributions.contains_key(&relay_account) {
            events.push(
                Event::InitializedAlreadyInitializedAccount(relay_account, native_account, reward),
            );
            return ;
        }
        if reward < self.config.minimum_reward {
            events.push(
                Event::InitializedAccountWithNotEnoughContribution(
                    relay_account,
                    native_account,
                    reward,
                ),
            );
            return ;
        }
        let contributors = if self.total_contributors < u32::MAX {
            self.total_contributors + 1
        } else {
            self.total_contributors
        };
        match native_account {
            Some(who) => {
                let first_payment = self.config.initialization_payment.of(reward);
                let info = RewardInfo { total_reward: reward, claimed_reward: first_payment };
                self.pot = self.pot - first_payment;
                self.init_reward_amount = self.init_reward_amount + (reward - first_payment);
                self.total_contributors = contributors;
                credit(&mut self.accounts_payable, who, info);
                self.claimed_relay_chain_ids.insert(relay_account);
                events.push(Event::InitialPaymentMade(who, first_payment));
            },
            None => {
                let info = RewardInfo { total_reward: reward, claimed_reward: 0 };
                self.init_reward_amount = self.init_reward_amount + reward;
                self.total_contributors = contributors;
                self.unassociated_contributions.insert(relay_account, info);
                assert(events@ =~= old(events)@ + Seq::<Event>::empty());
            },
        }
    }

    /// Enters a batch of contributions into the ledger, one after another in the
    /// order of the batch.
    ///
    /// Only the administrative origin may do so, and only while the ledger is
    /// open for initialization; the batch holds no more entries than the
    /// configuration allows, and its rewards, with what is outstanding already,
    /// do not exceed the pooled funds. Otherwise the call fails and the ledger
    /// stays as it was: once the ledger is closed every batch fails, and the
    /// administrative origin is told that the ledger has been initialized.
    ///
    /// An entry whose relay chain account is in the ledger already, or whose
    /// reward is under the minimum, is passed over with an event and changes
    /// nothing. Another entry with a native account has the first payment made
    /// and is credited to the account; one without waits under its relay chain
    /// account.
    pub fn initialize_reward_vec(&mut self, origin: Origin, rewards: Vec<Contribution>) -> (outcome:
        Result<Vec<Event>, DispatchError>)
        requires
            old(self).wf(),
        ensures
            final(self).wf(),
            final(self)@ == old(self)@.initialize_reward_vec(origin, rewards@).0,
            told(outcome) == old(self)@.initialize_reward_vec(origin, rewards@).1,
            accounted(old(self)@, final(self)@, outcome),
            old(self)@.initialized ==> outcome is Err && final(self)@ == old(self)@,
            old(self)@.initialized && origin == Origin::Root ==> outcome == Err::<
                Vec<Event>,
                DispatchError,
            >(DispatchError::Module(Error::RewardVecAlreadyInitialized)),
    {
        match origin {
            Origin::Root => {},
            _ => {
                return Err(DispatchError::BadOrigin);
            },
        }
        if self.initialized {
            return Err(DispatchError::Module(Error::RewardVecAlreadyInitialized));
        }
        if rewards.len() > self.config.max_init_contributors as usize {
            return Err(DispatchError::Module(Error::TooManyContributors));
        }
        let incoming = match total_rewards(&rewards) {
            Some(incoming) => incoming,
            None => {
                return Err(DispatchError::Module(Error::BatchBeyondFundPot));
            },
        };
        match self.init_reward_amount.checked_add(incoming) {
            Some(covered) => {
                if covered > self.pot {
                    return Err(DispatchError::Module(Error::BatchBeyondFundPot));
                }
            },
            None => {
                return Err(DispatchError::Module(Error::BatchBeyondFundPot));
            },
        }
        proof {
            self@.lemma_initialize_pays(origin, rewards@);
        }
        let mut events: Vec<Event> = Vec::new();
        let mut i: usize = 0;
        assert(rewards@.take(0) =~= Seq::empty());
        while i < rewards.len()
            invariant
                i <= rewards.len(),
                self.wf(),
                !self@.initialized,
                self@ == old(self)@.enter_all(rewards@.take(i as int)).0,
                events@ == old(self)@.enter_all(rewards@.take(i as int)).1,
                self@.pot - self@.init_reward_amount >= old(self)@.pot
                    - old(self)@.init_reward_amount - sum_rewards(rewards@.take(i as int)),
                old(self)@.init_reward_amount + sum_rewards(rewards@) <= old(self)@.pot,
            decreases rewards.len() - i,
        {
            proof {
                lemma_sum_rewards_step(rewards@, i as int);
                old(self)@.lemma_enter_all_step(rewards@, i as int);
                self@.lemma_enter_wf(rewards@[i as int]);
            }
            self.enter(rewards[i], &mut events);
            i += 1;
        }
        assert(rewards@.take(rewards.len() as int) =~= rewards@);
        Ok(events)
    }
}

} // verus!
