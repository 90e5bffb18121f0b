//! The plain data of the reward ledger.

use crate::perbill::Perbill;
use vstd::prelude::*;

verus! {

/// An account of this chain: the destination of reward payments.
pub type AccountId = u64;

/// An account of the relay chain: the key a contribution was made with.
pub type RelayChainAccountId = [u8; 32];

/// An amount of the reward currency.
pub type Balance = u128;

/// A block number of this chain.
pub type BlockNumber = u64;

/// A block number of the relay chain, by which vesting is measured.
pub type RelayChainBlockNumber = u32;

/// What a contributor is owed in all, and how much of it has been paid.
#[derive(Clone, Copy, Debug, PartialEq, Eq, Structural)]
pub struct RewardInfo {
    pub total_reward: Balance,
    pub claimed_reward: Balance,
}

impl RewardInfo {
    /// The part of the reward that has not been paid yet.
    pub open spec fn outstanding(self) -> nat {
        if self.total_reward >= self.claimed_reward {
            (self.total_reward - self.claimed_reward) as nat
        } else {
            0
        }
    }
}

impl Default for RewardInfo {
    fn default() -> (info: RewardInfo)
        ensures
            info.total_reward == 0,
            info.claimed_reward == 0,
    {
        RewardInfo { total_reward: 0, claimed_reward: 0 }
    }
}

/// Who makes a call.
#[derive(Clone, Copy, Debug, PartialEq, Eq, Structural)]
pub enum Origin {
    /// The administrative origin.
    Root,
    /// An account that signed the call.
    Signed(AccountId),
    /// Nobody in particular.
    Unsigned,
}

impl Origin {
    /// The administrative origin.
    pub fn root() -> (origin: Origin)
        ensures
            origin == Origin::Root,
    {
        Origin::Root
    }

    /// The origin of a call signed by `who`.
    pub fn signed(who: AccountId) -> (origin: Origin)
        ensures
            origin == Origin::Signed(who),
    {
        Origin::Signed(who)
    }
}

/// Why the ledger refused a call.
#[derive(Clone, Copy, Debug, PartialEq, Eq, Structural)]
pub enum Error {
    /// The relay chain identity has been given a native account already.
    AlreadyAssociated,
    /// The batch holds more rewards than the pooled funds can still cover.
    BatchBeyondFundPot,
    /// The first claim has been made already.
    FirstClaimAlreadyDone,
    /// The contribution is too small to earn a reward.
    RewardNotHighEnough,
    /// The signature does not prove that the relay chain identity wants the
    /// native account.
    InvalidClaimSignature,
    /// The signature for the first free claim is wrong.
    InvalidFreeClaimSignature,
    /// No reward is recorded for this account: it did not contribute, or it has
    /// not attached a native account to its contribution yet.
    NoAssociatedClaim,
    /// The whole reward has been paid.
    RewardsAlreadyClaimed,
    /// The ledger has been closed for initialization.
    RewardVecAlreadyInitialized,
    /// The ledger has not been closed for initialization yet.
    RewardVecNotFullyInitializedYet,
    /// The rewards entered do not add up to the pooled funds.
    RewardsDoNotMatchFund,
    /// The batch holds more contributors than one call may enter.
    TooManyContributors,
    /// The vesting window would end before it starts.
    VestingPeriodNonValid,
}

impl Error {
    /// The position of the variant in the declaration, starting at 0.
    pub open spec fn spec_index(self) -> u8 {
        match self {
            Error::AlreadyAssociated => 0,
            Error::BatchBeyondFundPot => 1,
            Error::FirstClaimAlreadyDone => 2,
            Error::RewardNotHighEnough => 3,
            Error::InvalidClaimSignature => 4,
            Error::InvalidFreeClaimSignature => 5,
            Error::NoAssociatedClaim => 6,
            Error::RewardsAlreadyClaimed => 7,
            Error::RewardVecAlreadyInitialized => 8,
            Error::RewardVecNotFullyInitializedYet => 9,
            Error::RewardsDoNotMatchFund => 10,
            Error::TooManyContributors => 11,
            Error::VestingPeriodNonValid => 12,
        }
    }

    /// The number under which a host reports this error.
    #[verifier::when_used_as_spec(spec_index)]
    pub fn index(self) -> (i: u8)
        ensures
            i == self.spec_index(),
    {
        match self {
            Error::AlreadyAssociated => 0,
            Error::BatchBeyondFundPot => 1,
            Error::FirstClaimAlreadyDone => 2,
            Error::RewardNotHighEnough => 3,
            Error::InvalidClaimSignature => 4,
            Error::InvalidFreeClaimSignature => 5,
            Error::NoAssociatedClaim => 6,
            Error::RewardsAlreadyClaimed => 7,
            Error::RewardVecAlreadyInitialized => 8,
            Error::RewardVecNotFullyInitializedYet => 9,
            Error::RewardsDoNotMatchFund => 10,
            Error::TooManyContributors => 11,
            Error::VestingPeriodNonValid => 12,
        }
    }
}

/// Why a call failed: the caller may not make it, or the ledger refused it.
#[derive(Clone, Copy, Debug, PartialEq, Eq, Structural)]
pub enum DispatchError {
    /// The origin is not the one that the call asks for.
    BadOrigin,
    /// The ledger's own reason.
    Module(Error),
}

impl From<Error> for DispatchError {
    fn from(error: Error) -> (r: DispatchError) {
        DispatchError::Module(error)
    }
}

impl vstd::std_specs::convert::FromSpecImpl<Error> for DispatchError {
    open spec fn obeys_from_spec() -> bool {
        true
    }

    open spec fn from_spec(error: Error) -> DispatchError {
        DispatchError::Module(error)
    }
}

/// What the ledger did.
#[derive(Clone, Copy, Debug, PartialEq, Eq)]
pub enum Event {
    /// The initial payment was made to the account.
    InitialPaymentMade(AccountId, Balance),
    /// A contributor proved a contribution and attached a native account to it.
    /// Holds the relay chain account, the native account and the total reward.
    NativeIdentityAssociated(RelayChainAccountId, AccountId, Balance),
    /// A contributor was paid what had vested. Holds the account and the amount.
    RewardsPaid(AccountId, Balance),
    /// A contributor moved the reward from the first account to the second.
    RewardAddressUpdated(AccountId, AccountId),
    /// An entry of a batch was passed over: its relay chain account was in the
    /// ledger already.
    InitializedAlreadyInitializedAccount(RelayChainAccountId, Option<AccountId>, Balance),
    /// An entry of a batch was passed over: its reward is under the minimum.
    InitializedAccountWithNotEnoughContribution(
        RelayChainAccountId,
        Option<AccountId>,
        Balance,
    ),
}

/// The constants that a deployment chooses.
#[derive(Clone, Copy, Debug)]
pub struct Config {
    /// Whether the ledger starts out closed for initialization.
    pub initialized: bool,
    /// The fraction of a reward that is paid at once.
    pub initialization_payment: Perbill,
    /// The largest number of contributors that one call may enter.
    pub max_init_contributors: u32,
    /// The smallest reward that is entered.
    pub minimum_reward: Balance,
}

/// The state that the ledger starts from.
#[derive(Clone, Copy, Debug, PartialEq, Eq, Structural)]
pub struct GenesisConfig {
    /// The funds that the ledger pays rewards from.
    pub funded_amount: Balance,
}

impl Default for GenesisConfig {
    fn default() -> (genesis: GenesisConfig)
        ensures
            genesis.funded_amount == 1,
    {
        GenesisConfig { funded_amount: 1 }
    }
}

/// A reading of the relay chain's height, taken by the host for one call.
#[derive(Clone, Copy, Debug, PartialEq, Eq, Structural)]
pub struct RelayChainBeacon {
    /// The number of the relay chain block that the current block builds on.
    pub relay_parent_number: RelayChainBlockNumber,
}

} // verus!
