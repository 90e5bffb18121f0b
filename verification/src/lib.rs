//! Reward accounting for a crowdloan: who is owed how much of the reward
//! currency, what has been paid, and what has vested.
//!
//! Contributors to a crowdloan on the relay chain are entered into a ledger in
//! batches. Each receives a fixed fraction of the reward as soon as a native
//! account is known for them, and the rest linearly over a window of relay chain
//! blocks. A contributor who is only known by a relay chain key can attach a
//! native account later by signing it with that key.
//!
//! The ledger is an ordinary value, [`Pallet`]. It holds the pooled funds that it
//! pays from, and every operation hands back the events that describe what was
//! paid to whom. Initialization is closed by an explicit call,
//! [`Pallet::complete_initialiation`]; some deployments of this design closed it
//! with the last batch instead.

pub mod benchmarking;
pub mod invariants;
pub mod laws;
pub mod ledger;
pub mod pallet;
pub mod perbill;
pub mod relay_table;
pub mod signature;
pub mod sums;
pub mod types;
pub mod vesting;

pub use ledger::{Contribution, Ledger};
pub use pallet::{Pallet, Transfer};
pub use perbill::Perbill;
pub use vesting::payable_now;
pub use types::{
    AccountId, Balance, BlockNumber, Config, DispatchError, Error, Event, GenesisConfig, Origin,
    RelayChainAccountId, RelayChainBeacon, RelayChainBlockNumber, RewardInfo,
};
