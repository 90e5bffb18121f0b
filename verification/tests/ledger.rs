//! The calls of the ledger, one rule at a time.

use crowdloan_rewards::benchmarking::{
    contributor_seed, create_contributors, insert_contributors, relay_account_of, CONTRIBUTION,
    SEED,
};
use crowdloan_rewards::relay_table::{same_account, RelayMap, RelaySet};
use crowdloan_rewards::{
    Config, Contribution, DispatchError, Error, Event, GenesisConfig, Origin, Pallet, Perbill,
    RelayChainBeacon, RewardInfo, Transfer,
};
use parity_scale_codec::Encode;
use sp_core::{ecdsa, ed25519, sr25519, Pair};
use sp_runtime::traits::IdentifyAccount;
use sp_runtime::{MultiSignature, MultiSigner};

fn config() -> Config {
    Config {
        initialized: false,
        initialization_payment: Perbill::from_percent(20),
        max_init_contributors: 8,
        minimum_reward: 0,
    }
}

fn ledger(funded_amount: u128) -> Pallet {
    GenesisConfig { funded_amount }.build(config())
}

fn at(relay_parent_number: u32) -> RelayChainBeacon {
    RelayChainBeacon { relay_parent_number }
}

fn module<T>(error: Error) -> Result<T, DispatchError> {
    Err(DispatchError::Module(error))
}

/// A closed ledger with a window from 0 to 8: account 1 holds 500 and account 2
/// holds 500, and 500 wait for the relay chain account `[9; 32]`.
fn closed() -> Pallet {
    let mut pallet = ledger(1500);
    let rewards =
        vec![([1u8; 32], Some(1), 500), ([2u8; 32], Some(2), 500), ([9u8; 32], None, 500)];
    pallet.initialize_reward_vec(Origin::root(), rewards).unwrap();
    pallet.complete_initialiation(Origin::root(), 8).unwrap();
    pallet
}

/// What is outstanding of the rewards of the accounts and relay chain accounts
/// named, added up entry by entry.
fn outstanding(pallet: &Pallet, accounts: &[u64], relay_accounts: &[[u8; 32]]) -> u128 {
    let payable: u128 = accounts
        .iter()
        .filter_map(|who| pallet.accounts_payable(who))
        .map(|info| info.total_reward - info.claimed_reward)
        .sum();
    let waiting: u128 = relay_accounts
        .iter()
        .filter_map(|relay| pallet.unassociated_contributions(relay))
        .map(|info| info.total_reward - info.claimed_reward)
        .sum();
    payable + waiting
}

#[test]
fn the_ledger_starts_empty_with_its_funds() {
    let pallet = ledger(2500);
    assert_eq!(pallet.pot(), 2500);
    assert_eq!(pallet.funded(), 2500);
    assert_eq!(pallet.init_reward_amount(), 0);
    assert_eq!(pallet.total_contributors(), 0);
    assert_eq!(pallet.initialized(), false);
    assert_eq!(pallet.init_relay_block(), 0);
    assert_eq!(pallet.end_relay_block(), 0);
    assert_eq!(pallet.config().max_init_contributors, 8);
    assert_eq!(pallet.config().minimum_reward, 0);
    assert_eq!(pallet.config().initialization_payment, Perbill::from_percent(20));
    assert_eq!(pallet.accounts_payable(&1), None);
    assert_eq!(pallet.claimed_relay_chain_ids(&[1u8; 32]), None);
    assert_eq!(pallet.unassociated_contributions(&[1u8; 32]), None);
    assert_eq!(GenesisConfig::default().funded_amount, 1);
    assert_eq!(GenesisConfig::default().build(config()).pot(), 1);
    assert_eq!(RewardInfo::default(), RewardInfo { total_reward: 0, claimed_reward: 0 });
}

#[test]
fn the_funds_are_kept_under_the_account_of_the_ledger() {
    // the bytes `modlCrow` as a little-endian number
    assert_eq!(Pallet::account_id(), u64::from_le_bytes(*b"modlCrow"));
    assert_eq!(Pallet::account_id(), 0x776f_7243_6c64_6f6d);
}

#[test]
fn the_first_block_fixes_the_start_of_the_window() {
    let mut pallet = ledger(2500);
    pallet.on_finalize(0, &at(7));
    assert_eq!(pallet.init_relay_block(), 0);
    pallet.on_finalize(2, &at(7));
    assert_eq!(pallet.init_relay_block(), 0);
    pallet.on_finalize(1, &at(7));
    assert_eq!(pallet.init_relay_block(), 7);
    pallet.on_finalize(3, &at(11));
    assert_eq!(pallet.init_relay_block(), 7);
}

#[test]
fn only_root_enters_batches() {
    let mut pallet = ledger(2500);
    let rewards: Vec<Contribution> = vec![([1u8; 32], Some(1), 500)];
    assert_eq!(
        pallet.initialize_reward_vec(Origin::signed(1), rewards.clone()),
        Err(DispatchError::BadOrigin)
    );
    assert_eq!(
        pallet.initialize_reward_vec(Origin::Unsigned, rewards.clone()),
        Err(DispatchError::BadOrigin)
    );
    assert_eq!(pallet.total_contributors(), 0);
    assert_eq!(pallet.pot(), 2500);
    assert_eq!(
        pallet.initialize_reward_vec(Origin::root(), rewards),
        Ok(vec![Event::InitialPaymentMade(1, 100)])
    );
}

#[test]
fn an_entry_pays_the_first_payment_and_counts_what_is_left() {
    let mut pallet = ledger(2500);
    let events = pallet
        .initialize_reward_vec(
            Origin::root(),
            vec![([1u8; 32], Some(1), 1247), ([2u8; 32], None, 500)],
        )
        .unwrap();
    assert_eq!(events, vec![Event::InitialPaymentMade(1, 249)]);
    assert_eq!(
        pallet.accounts_payable(&1),
        Some(RewardInfo { total_reward: 1247, claimed_reward: 249 })
    );
    assert_eq!(
        pallet.unassociated_contributions(&[2u8; 32]),
        Some(RewardInfo { total_reward: 500, claimed_reward: 0 })
    );
    assert_eq!(pallet.claimed_relay_chain_ids(&[1u8; 32]), Some(()));
    assert_eq!(pallet.claimed_relay_chain_ids(&[2u8; 32]), None);
    assert_eq!(pallet.pot(), 2500 - 249);
    assert_eq!(pallet.init_reward_amount(), 1247 - 249 + 500);
    assert_eq!(pallet.total_contributors(), 2);
}

#[test]
fn a_relay_account_in_the_ledger_is_passed_over() {
    let mut pallet = ledger(2500);
    pallet
        .initialize_reward_vec(
            Origin::root(),
            vec![([1u8; 32], Some(1), 500), ([2u8; 32], None, 500)],
        )
        .unwrap();
    let before = (pallet.pot(), pallet.init_reward_amount(), pallet.total_contributors());
    // one that has a native account, one that waits, and a new one after them
    let events = pallet
        .initialize_reward_vec(
            Origin::root(),
            vec![
                ([1u8; 32], Some(7), 300),
                ([2u8; 32], Some(8), 300),
                ([3u8; 32], Some(3), 500),
            ],
        )
        .unwrap();
    assert_eq!(
        events,
        vec![
            Event::InitializedAlreadyInitializedAccount([1u8; 32], Some(7), 300),
            Event::InitializedAlreadyInitializedAccount([2u8; 32], Some(8), 300),
            Event::InitialPaymentMade(3, 100),
        ]
    );
    assert_eq!(
        pallet.accounts_payable(&1),
        Some(RewardInfo { total_reward: 500, claimed_reward: 100 })
    );
    assert_eq!(pallet.accounts_payable(&7), None);
    assert_eq!(pallet.accounts_payable(&8), None);
    assert_eq!(
        pallet.unassociated_contributions(&[2u8; 32]),
        Some(RewardInfo { total_reward: 500, claimed_reward: 0 })
    );
    assert_eq!(pallet.claimed_relay_chain_ids(&[2u8; 32]), None);
    assert_eq!(pallet.pot(), before.0 - 100);
    assert_eq!(pallet.init_reward_amount(), before.1 + 400);
    assert_eq!(pallet.total_contributors(), before.2 + 1);
}

#[test]
fn a_relay_account_twice_in_one_batch_is_entered_once() {
    let mut pallet = ledger(2500);
    let events = pallet
        .initialize_reward_vec(
            Origin::root(),
            vec![([1u8; 32], None, 500), ([1u8; 32], Some(1), 700)],
        )
        .unwrap();
    assert_eq!(events, vec![Event::InitializedAlreadyInitializedAccount([1u8; 32], Some(1), 700)]);
    assert_eq!(pallet.total_contributors(), 1);
    assert_eq!(pallet.accounts_payable(&1), None);
    assert_eq!(pallet.init_reward_amount(), 500);
}

#[test]
fn a_reward_under_the_minimum_is_passed_over() {
    let mut pallet = GenesisConfig { funded_amount: 2500 }.build(Config {
        minimum_reward: 100,
        ..config()
    });
    let events = pallet
        .initialize_reward_vec(
            Origin::root(),
            vec![([1u8; 32], Some(1), 99), ([2u8; 32], None, 99), ([3u8; 32], Some(3), 100)],
        )
        .unwrap();
    assert_eq!(
        events,
        vec![
            Event::InitializedAccountWithNotEnoughContribution([1u8; 32], Some(1), 99),
            Event::InitializedAccountWithNotEnoughContribution([2u8; 32], None, 99),
            Event::InitialPaymentMade(3, 20),
        ]
    );
    assert_eq!(pallet.accounts_payable(&1), None);
    assert_eq!(pallet.unassociated_contributions(&[2u8; 32]), None);
    assert_eq!(pallet.claimed_relay_chain_ids(&[1u8; 32]), None);
    assert_eq!(pallet.total_contributors(), 1);
    assert_eq!(pallet.init_reward_amount(), 80);
    assert_eq!(pallet.pot(), 2480);
}

#[test]
fn two_contributions_to_one_native_account_are_added_up() {
    let mut pallet = ledger(2500);
    pallet
        .initialize_reward_vec(
            Origin::root(),
            vec![([1u8; 32], Some(1), 500), ([2u8; 32], Some(1), 1000)],
        )
        .unwrap();
    assert_eq!(
        pallet.accounts_payable(&1),
        Some(RewardInfo { total_reward: 1500, claimed_reward: 300 })
    );
    assert_eq!(pallet.total_contributors(), 2);
    assert_eq!(pallet.init_reward_amount(), 1200);
    assert_eq!(pallet.pot(), 2200);
}

#[test]
fn a_batch_is_no_larger_than_the_configuration_allows() {
    let mut pallet = ledger(2500);
    let nine: Vec<Contribution> = (0..9u8).map(|i| ([i; 32], None, 1)).collect();
    assert_eq!(
        pallet.initialize_reward_vec(Origin::root(), nine),
        module(Error::TooManyContributors)
    );
    assert_eq!(pallet.total_contributors(), 0);
    let eight: Vec<Contribution> = (0..8u8).map(|i| ([i; 32], None, 1)).collect();
    assert_eq!(pallet.initialize_reward_vec(Origin::root(), eight), Ok(vec![]));
    assert_eq!(pallet.total_contributors(), 8);
}

#[test]
fn a_batch_stays_within_the_pooled_funds() {
    let mut pallet = ledger(1000);
    assert_eq!(
        pallet.initialize_reward_vec(Origin::root(), vec![([1u8; 32], Some(1), 1001)]),
        module(Error::BatchBeyondFundPot)
    );
    assert_eq!(pallet.accounts_payable(&1), None);
    assert_eq!(pallet.pot(), 1000);
    // entries that would be passed over count as well
    pallet.initialize_reward_vec(Origin::root(), vec![([1u8; 32], Some(1), 500)]).unwrap();
    assert_eq!((pallet.pot(), pallet.init_reward_amount()), (900, 400));
    assert_eq!(
        pallet.initialize_reward_vec(Origin::root(), vec![([1u8; 32], Some(1), 501)]),
        module(Error::BatchBeyondFundPot)
    );
    assert_eq!(
        pallet.initialize_reward_vec(Origin::root(), vec![([2u8; 32], None, 500)]),
        Ok(vec![])
    );
    assert_eq!((pallet.pot(), pallet.init_reward_amount()), (900, 900));
}

#[test]
fn rewards_beyond_the_largest_balance_are_beyond_the_funds() {
    let mut pallet = ledger(u128::MAX);
    assert_eq!(
        pallet.initialize_reward_vec(
            Origin::root(),
            vec![([1u8; 32], None, u128::MAX), ([2u8; 32], None, 1)]
        ),
        module(Error::BatchBeyondFundPot)
    );
    assert_eq!(pallet.total_contributors(), 0);
    assert_eq!(
        pallet.initialize_reward_vec(Origin::root(), vec![([1u8; 32], Some(1), u128::MAX)]),
        Ok(vec![Event::InitialPaymentMade(1, 68056473384187692692674921486353642291)])
    );
    assert_eq!(pallet.init_reward_amount(), pallet.pot());
}

#[test]
fn closing_asks_for_root_a_window_and_matching_funds() {
    let mut pallet = ledger(1000);
    pallet.on_finalize(1, &at(5));
    pallet.initialize_reward_vec(Origin::root(), vec![([1u8; 32], Some(1), 500)]).unwrap();
    assert_eq!(
        pallet.complete_initialiation(Origin::signed(1), 13),
        Err(DispatchError::BadOrigin)
    );
    assert_eq!(
        pallet.complete_initialiation(Origin::root(), 5),
        module(Error::VestingPeriodNonValid)
    );
    assert_eq!(
        pallet.complete_initialiation(Origin::root(), 4),
        module(Error::VestingPeriodNonValid)
    );
    // 400 are outstanding, and 900 are in the pot
    assert_eq!(
        pallet.complete_initialiation(Origin::root(), 13),
        module(Error::RewardsDoNotMatchFund)
    );
    assert_eq!(pallet.initialized(), false);
    assert_eq!(pallet.end_relay_block(), 0);
    pallet.initialize_reward_vec(Origin::root(), vec![([2u8; 32], None, 500)]).unwrap();
    assert_eq!(pallet.complete_initialiation(Origin::root(), 13), Ok(()));
    assert_eq!(pallet.initialized(), true);
    assert_eq!(pallet.end_relay_block(), 13);
    assert_eq!(pallet.init_relay_block(), 5);
    assert_eq!(
        pallet.complete_initialiation(Origin::root(), 14),
        module(Error::RewardVecAlreadyInitialized)
    );
    assert_eq!(pallet.end_relay_block(), 13);
}

#[test]
fn a_closed_ledger_refuses_every_batch() {
    let mut pallet = closed();
    let before = (pallet.pot(), pallet.init_reward_amount(), pallet.total_contributors());
    assert_eq!(
        pallet.initialize_reward_vec(Origin::root(), vec![([3u8; 32], Some(3), 1)]),
        module(Error::RewardVecAlreadyInitialized)
    );
    assert_eq!(
        pallet.initialize_reward_vec(Origin::root(), vec![]),
        module(Error::RewardVecAlreadyInitialized)
    );
    assert_eq!(
        pallet.initialize_reward_vec(Origin::signed(1), vec![]),
        Err(DispatchError::BadOrigin)
    );
    assert_eq!(
        (pallet.pot(), pallet.init_reward_amount(), pallet.total_contributors()),
        before
    );
    assert_eq!(pallet.accounts_payable(&3), None);
}

#[test]
fn a_ledger_that_starts_closed_takes_nothing() {
    let mut pallet =
        GenesisConfig { funded_amount: 7 }.build(Config { initialized: true, ..config() });
    assert_eq!(pallet.initialized(), true);
    assert_eq!(
        pallet.initialize_reward_vec(Origin::root(), vec![([3u8; 32], Some(3), 1)]),
        module(Error::RewardVecAlreadyInitialized)
    );
    assert_eq!(pallet.claim(Origin::signed(3), &at(1)), module(Error::NoAssociatedClaim));
    assert_eq!((pallet.pot(), pallet.init_reward_amount()), (7, 0));
}

#[test]
fn a_claim_asks_for_a_signer_a_closed_ledger_and_a_reward() {
    let mut pallet = ledger(500);
    pallet.initialize_reward_vec(Origin::root(), vec![([1u8; 32], Some(1), 500)]).unwrap();
    assert_eq!(pallet.claim(Origin::root(), &at(4)), Err(DispatchError::BadOrigin));
    assert_eq!(pallet.claim(Origin::Unsigned, &at(4)), Err(DispatchError::BadOrigin));
    assert_eq!(
        pallet.claim(Origin::signed(1), &at(4)),
        module(Error::RewardVecNotFullyInitializedYet)
    );
    // an open ledger says so before it looks for the reward
    assert_eq!(
        pallet.claim(Origin::signed(2), &at(4)),
        module(Error::RewardVecNotFullyInitializedYet)
    );
    pallet.complete_initialiation(Origin::root(), 8).unwrap();
    assert_eq!(pallet.claim(Origin::signed(2), &at(4)), module(Error::NoAssociatedClaim));
    assert_eq!(pallet.claim(Origin::signed(1), &at(4)), Ok(vec![Event::RewardsPaid(1, 200)]));
    assert_eq!(pallet.claim(Origin::signed(1), &at(8)), Ok(vec![Event::RewardsPaid(1, 200)]));
    assert_eq!(pallet.claim(Origin::signed(1), &at(9)), module(Error::RewardsAlreadyClaimed));
    assert_eq!(pallet.pot(), 0);
    assert_eq!(pallet.init_reward_amount(), 0);
}

#[test]
fn a_fifth_at_once_then_fifty_a_block() {
    let mut pallet = ledger(500);
    pallet.on_finalize(1, &at(1000));
    assert_eq!(
        pallet.initialize_reward_vec(Origin::root(), vec![([1u8; 32], Some(1), 500)]),
        Ok(vec![Event::InitialPaymentMade(1, 100)])
    );
    pallet.complete_initialiation(Origin::root(), 1008).unwrap();
    let claimed = |pallet: &Pallet| pallet.accounts_payable(&1).unwrap().claimed_reward;
    assert_eq!(claimed(&pallet), 100);
    assert_eq!(pallet.claim(Origin::signed(1), &at(1004)), Ok(vec![Event::RewardsPaid(1, 200)]));
    assert_eq!(claimed(&pallet), 300);
    assert_eq!(pallet.claim(Origin::signed(1), &at(1005)), Ok(vec![Event::RewardsPaid(1, 50)]));
    assert_eq!(claimed(&pallet), 350);
    assert_eq!(pallet.claim(Origin::signed(1), &at(1006)), Ok(vec![Event::RewardsPaid(1, 50)]));
    assert_eq!(claimed(&pallet), 400);
    assert_eq!(pallet.claim(Origin::signed(1), &at(1007)), Ok(vec![Event::RewardsPaid(1, 50)]));
    assert_eq!(claimed(&pallet), 450);
    assert_eq!(pallet.claim(Origin::signed(1), &at(1230)), Ok(vec![Event::RewardsPaid(1, 50)]));
    assert_eq!(claimed(&pallet), 500);
    assert_eq!(pallet.claim(Origin::signed(1), &at(1330)), module(Error::RewardsAlreadyClaimed));
    assert_eq!(claimed(&pallet), 500);
    assert_eq!(pallet.pot(), 0);
}

#[test]
fn rounding_is_made_up_claim_by_claim() {
    let mut pallet = GenesisConfig { funded_amount: 100 }.build(Config {
        initialization_payment: Perbill::from_percent(0),
        ..config()
    });
    assert_eq!(
        pallet.initialize_reward_vec(Origin::root(), vec![([1u8; 32], Some(1), 100)]),
        Ok(vec![Event::InitialPaymentMade(1, 0)])
    );
    pallet.complete_initialiation(Origin::root(), 8).unwrap();
    assert_eq!(pallet.claim(Origin::signed(1), &at(2)), Ok(vec![Event::RewardsPaid(1, 25)]));
    assert_eq!(pallet.claim(Origin::signed(1), &at(3)), Ok(vec![Event::RewardsPaid(1, 12)]));
    assert_eq!(pallet.claim(Origin::signed(1), &at(4)), Ok(vec![Event::RewardsPaid(1, 13)]));
    assert_eq!(pallet.accounts_payable(&1).unwrap().claimed_reward, 50);
}

#[test]
fn claims_never_lower_what_was_paid() {
    let mut pallet = closed();
    let mut before = pallet.accounts_payable(&1).unwrap().claimed_reward;
    // the relay chain does not go back, but a claim may come at the same block
    // again, and the beacon may even show an earlier one
    for now in [0, 1, 1, 3, 2, 5, 5, 7, 0, 8] {
        let paid = pallet.claim(Origin::signed(1), &at(now));
        let after = pallet.accounts_payable(&1).unwrap().claimed_reward;
        assert!(after >= before);
        assert!(after <= 500);
        match paid {
            Ok(events) => assert_eq!(events, vec![Event::RewardsPaid(1, after - before)]),
            Err(error) => {
                assert_eq!(error, Error::RewardsAlreadyClaimed.into());
                assert_eq!(after, before);
            }
        }
        before = after;
    }
    assert_eq!(before, 500);
}

#[test]
fn a_closed_ledger_holds_what_is_outstanding() {
    let mut pallet = closed();
    let accounts = [1, 2, 3, 4];
    let relays = [[1u8; 32], [2u8; 32], [9u8; 32]];
    let holds = |pallet: &Pallet| {
        let spent = pallet.funded() - pallet.pot();
        assert_eq!(outstanding(pallet, &accounts, &relays) + spent, pallet.funded());
        assert_eq!(pallet.funded(), 1500);
        assert_eq!(pallet.init_reward_amount(), pallet.pot());
    };
    holds(&pallet);
    assert_eq!(pallet.pot(), 1300);
    pallet.claim(Origin::signed(1), &at(3)).unwrap();
    holds(&pallet);
    pallet.update_reward_address(Origin::signed(1), 3).unwrap();
    holds(&pallet);
    pallet.associate_checked(Origin::signed(4), 3, [9u8; 32], true).unwrap();
    holds(&pallet);
    pallet.claim(Origin::signed(3), &at(5)).unwrap();
    holds(&pallet);
    pallet.update_reward_address(Origin::signed(2), 3).unwrap();
    holds(&pallet);
    pallet.update_reward_address(Origin::signed(3), 3).unwrap();
    holds(&pallet);
    pallet.claim(Origin::signed(3), &at(100)).unwrap();
    holds(&pallet);
    assert_eq!(pallet.pot(), 0);
    assert_eq!(
        pallet.accounts_payable(&3),
        Some(RewardInfo { total_reward: 1500, claimed_reward: 1500 })
    );
}

#[test]
fn no_reward_has_more_paid_than_its_total() {
    let mut pallet = closed();
    let within = |pallet: &Pallet| {
        for who in 0..10u64 {
            if let Some(info) = pallet.accounts_payable(&who) {
                assert!(info.claimed_reward <= info.total_reward);
            }
        }
        for relay in [[1u8; 32], [2u8; 32], [9u8; 32]] {
            if let Some(info) = pallet.unassociated_contributions(&relay) {
                assert!(info.claimed_reward <= info.total_reward);
            }
        }
    };
    within(&pallet);
    pallet.claim(Origin::signed(1), &at(7)).unwrap();
    within(&pallet);
    pallet.claim(Origin::signed(2), &at(9)).unwrap();
    within(&pallet);
    pallet.associate_checked(Origin::signed(5), 1, [9u8; 32], true).unwrap();
    within(&pallet);
    pallet.update_reward_address(Origin::signed(1), 2).unwrap();
    within(&pallet);
    pallet.claim(Origin::signed(2), &at(9)).unwrap();
    within(&pallet);
}

#[test]
fn associating_asks_for_a_signer_a_proof_and_a_waiting_reward() {
    let mut pallet = closed();
    assert_eq!(
        pallet.associate_checked(Origin::root(), 3, [9u8; 32], true),
        Err(DispatchError::BadOrigin)
    );
    assert_eq!(
        pallet.associate_checked(Origin::Unsigned, 3, [9u8; 32], true),
        Err(DispatchError::BadOrigin)
    );
    assert_eq!(
        pallet.associate_checked(Origin::signed(4), 3, [9u8; 32], false),
        module(Error::InvalidClaimSignature)
    );
    // a proof that is not valid is refused before the ledger is looked at
    assert_eq!(
        pallet.associate_checked(Origin::signed(4), 3, [1u8; 32], false),
        module(Error::InvalidClaimSignature)
    );
    assert_eq!(
        pallet.associate_checked(Origin::signed(4), 3, [1u8; 32], true),
        module(Error::AlreadyAssociated)
    );
    assert_eq!(
        pallet.associate_checked(Origin::signed(4), 3, [8u8; 32], true),
        module(Error::NoAssociatedClaim)
    );
    assert_eq!(pallet.accounts_payable(&3), None);
    assert_eq!(pallet.pot(), 1300);
    assert_eq!(
        pallet.associate_checked(Origin::signed(4), 3, [9u8; 32], true),
        Ok(vec![
            Event::InitialPaymentMade(3, 100),
            Event::NativeIdentityAssociated([9u8; 32], 3, 500),
        ])
    );
    assert_eq!(
        pallet.accounts_payable(&3),
        Some(RewardInfo { total_reward: 500, claimed_reward: 100 })
    );
    assert_eq!(pallet.unassociated_contributions(&[9u8; 32]), None);
    assert_eq!(pallet.claimed_relay_chain_ids(&[9u8; 32]), Some(()));
    assert_eq!(pallet.pot(), 1200);
    assert_eq!(pallet.init_reward_amount(), 1200);
    assert_eq!(pallet.total_contributors(), 3);
    assert_eq!(
        pallet.associate_checked(Origin::signed(4), 3, [9u8; 32], true),
        module(Error::AlreadyAssociated)
    );
}

#[test]
fn associating_to_an_account_that_holds_a_reward_adds_the_two_up() {
    let mut pallet = closed();
    pallet.claim(Origin::signed(1), &at(4)).unwrap();
    assert_eq!(
        pallet.accounts_payable(&1),
        Some(RewardInfo { total_reward: 500, claimed_reward: 300 })
    );
    assert_eq!(
        pallet.associate_checked(Origin::signed(1), 1, [9u8; 32], true),
        Ok(vec![
            Event::InitialPaymentMade(1, 100),
            Event::NativeIdentityAssociated([9u8; 32], 1, 500),
        ])
    );
    assert_eq!(
        pallet.accounts_payable(&1),
        Some(RewardInfo { total_reward: 1000, claimed_reward: 400 })
    );
    assert_eq!(pallet.pot(), 1300 - 200 - 100);
    assert_eq!(pallet.init_reward_amount(), pallet.pot());
}

#[test]
fn an_open_ledger_associates_as_well() {
    let mut pallet = ledger(500);
    pallet.initialize_reward_vec(Origin::root(), vec![([9u8; 32], None, 500)]).unwrap();
    assert_eq!((pallet.pot(), pallet.init_reward_amount()), (500, 500));
    pallet.associate_checked(Origin::signed(1), 1, [9u8; 32], true).unwrap();
    assert_eq!((pallet.pot(), pallet.init_reward_amount()), (400, 400));
    assert_eq!(pallet.complete_initialiation(Origin::root(), 8), Ok(()));
}

#[test]
fn a_proof_is_a_signature_over_the_native_account() {
    let pair = ed25519::Pair::from_seed(&[7u8; 32]);
    let relay_account: [u8; 32] = pair.public().into();
    let other = ed25519::Pair::from_seed(&[8u8; 32]);
    let start = || {
        let mut pallet = ledger(500);
        pallet.initialize_reward_vec(Origin::root(), vec![(relay_account, None, 500)]).unwrap();
        pallet
    };
    let account: u64 = 0x0102_0304_0506_0708;
    assert_eq!(account.encode(), vec![8, 7, 6, 5, 4, 3, 2, 1]);

    // signed by another key
    let proof: MultiSignature = other.sign(&account.encode()).into();
    assert_eq!(
        start().associate_native_identity(Origin::signed(1), account, relay_account, proof),
        module(Error::InvalidClaimSignature)
    );
    // signed over another account
    let proof: MultiSignature = pair.sign(&(account + 1).encode()).into();
    assert_eq!(
        start().associate_native_identity(Origin::signed(1), account, relay_account, proof),
        module(Error::InvalidClaimSignature)
    );
    // signed over the bytes in the other order
    let proof: MultiSignature = pair.sign(&account.to_be_bytes()).into();
    assert_eq!(
        start().associate_native_identity(Origin::signed(1), account, relay_account, proof),
        module(Error::InvalidClaimSignature)
    );
    // the signature belongs to the relay chain account named
    let proof: MultiSignature = pair.sign(&account.encode()).into();
    assert_eq!(
        start().associate_native_identity(Origin::signed(1), account, [1u8; 32], proof.clone()),
        module(Error::InvalidClaimSignature)
    );
    // a caller that did not sign the call is refused whatever the proof
    assert_eq!(
        start().associate_native_identity(Origin::root(), account, relay_account, proof.clone()),
        Err(DispatchError::BadOrigin)
    );
    let mut pallet = start();
    assert_eq!(
        pallet.associate_native_identity(Origin::signed(1), account, relay_account, proof),
        Ok(vec![
            Event::InitialPaymentMade(account, 100),
            Event::NativeIdentityAssociated(relay_account, account, 500),
        ])
    );
    assert_eq!(
        pallet.accounts_payable(&account),
        Some(RewardInfo { total_reward: 500, claimed_reward: 100 })
    );
}

#[test]
fn proofs_of_the_other_schemes_are_checked_too() {
    let account: u64 = 3;
    let pair = sr25519::Pair::from_seed(&[7u8; 32]);
    let relay_account: [u8; 32] = pair.public().into();
    let mut pallet = ledger(1000);
    pallet.initialize_reward_vec(Origin::root(), vec![(relay_account, None, 500)]).unwrap();
    let wrong: MultiSignature = pair.sign(&4u64.encode()).into();
    assert_eq!(
        pallet.associate_native_identity(Origin::signed(1), account, relay_account, wrong),
        module(Error::InvalidClaimSignature)
    );
    let proof: MultiSignature = pair.sign(&account.encode()).into();
    assert!(pallet
        .associate_native_identity(Origin::signed(1), account, relay_account, proof)
        .is_ok());

    // an ECDSA key signs for the account that is the hash of the key
    let pair = ecdsa::Pair::from_seed(&[7u8; 32]);
    let relay_account: [u8; 32] = MultiSigner::from(pair.public()).into_account().into();
    pallet.initialize_reward_vec(Origin::root(), vec![(relay_account, None, 500)]).unwrap();
    let wrong: MultiSignature = pair.sign(&4u64.encode()).into();
    assert_eq!(
        pallet.associate_native_identity(Origin::signed(1), 5, relay_account, wrong),
        module(Error::InvalidClaimSignature)
    );
    let proof: MultiSignature = pair.sign(&5u64.encode()).into();
    assert!(pallet.associate_native_identity(Origin::signed(1), 5, relay_account, proof).is_ok());
    assert_eq!(
        pallet.accounts_payable(&5),
        Some(RewardInfo { total_reward: 500, claimed_reward: 100 })
    );
}

#[test]
fn moving_a_reward_asks_for_a_signer_with_a_reward() {
    let mut pallet = closed();
    assert_eq!(pallet.update_reward_address(Origin::root(), 8), Err(DispatchError::BadOrigin));
    assert_eq!(pallet.update_reward_address(Origin::Unsigned, 8), Err(DispatchError::BadOrigin));
    assert_eq!(
        pallet.update_reward_address(Origin::signed(3), 8),
        module(Error::NoAssociatedClaim)
    );
    assert_eq!(pallet.accounts_payable(&8), None);
    assert_eq!(
        pallet.update_reward_address(Origin::signed(1), 8),
        Ok(vec![Event::RewardAddressUpdated(1, 8)])
    );
    assert_eq!(pallet.accounts_payable(&1), None);
    assert_eq!(
        pallet.accounts_payable(&8),
        Some(RewardInfo { total_reward: 500, claimed_reward: 100 })
    );
    assert_eq!(
        pallet.update_reward_address(Origin::signed(1), 8),
        module(Error::NoAssociatedClaim)
    );
}

#[test]
fn moving_a_reward_to_its_own_account_keeps_it() {
    let mut pallet = closed();
    assert_eq!(
        pallet.update_reward_address(Origin::signed(1), 1),
        Ok(vec![Event::RewardAddressUpdated(1, 1)])
    );
    assert_eq!(
        pallet.accounts_payable(&1),
        Some(RewardInfo { total_reward: 500, claimed_reward: 100 })
    );
    assert_eq!(pallet.init_reward_amount(), pallet.pot());
}

#[test]
fn an_open_ledger_moves_rewards_as_well() {
    let mut pallet = ledger(1000);
    pallet
        .initialize_reward_vec(
            Origin::root(),
            vec![([1u8; 32], Some(1), 500), ([2u8; 32], Some(2), 300)],
        )
        .unwrap();
    pallet.update_reward_address(Origin::signed(1), 2).unwrap();
    assert_eq!(
        pallet.accounts_payable(&2),
        Some(RewardInfo { total_reward: 800, claimed_reward: 160 })
    );
    assert_eq!(pallet.accounts_payable(&1), None);
    assert_eq!(pallet.init_reward_amount(), 640);
}

#[test]
fn errors_are_numbered_in_their_order() {
    let all = [
        Error::AlreadyAssociated,
        Error::BatchBeyondFundPot,
        Error::FirstClaimAlreadyDone,
        Error::RewardNotHighEnough,
        Error::InvalidClaimSignature,
        Error::InvalidFreeClaimSignature,
        Error::NoAssociatedClaim,
        Error::RewardsAlreadyClaimed,
        Error::RewardVecAlreadyInitialized,
        Error::RewardVecNotFullyInitializedYet,
        Error::RewardsDoNotMatchFund,
        Error::TooManyContributors,
        Error::VestingPeriodNonValid,
    ];
    for (i, error) in all.iter().enumerate() {
        assert_eq!(error.index() as usize, i);
        assert_eq!(DispatchError::from(*error), DispatchError::Module(*error));
    }
}

#[test]
fn relay_accounts_are_told_apart_by_every_byte() {
    let a = [7u8; 32];
    assert!(same_account(&a, &[7u8; 32]));
    for i in 0..32 {
        let mut b = a;
        b[i] = 8;
        assert!(!same_account(&a, &b));
        assert!(!same_account(&b, &a));
    }
}

#[test]
fn a_relay_map_holds_one_reward_for_an_account() {
    let info = |n: u128| RewardInfo { total_reward: n, claimed_reward: 0 };
    let mut map = RelayMap::new();
    assert_eq!(map.get(&[1u8; 32]), None);
    assert_eq!(map.remove(&[1u8; 32]), None);
    map.insert([1u8; 32], info(1));
    map.insert([2u8; 32], info(2));
    map.insert([3u8; 32], info(3));
    assert_eq!(map.get(&[2u8; 32]), Some(info(2)));
    map.insert([2u8; 32], info(20));
    assert_eq!(map.get(&[2u8; 32]), Some(info(20)));
    assert_eq!(map.get(&[1u8; 32]), Some(info(1)));
    assert_eq!(map.remove(&[1u8; 32]), Some(info(1)));
    assert_eq!(map.remove(&[1u8; 32]), None);
    assert!(!map.contains_key(&[1u8; 32]));
    assert!(map.contains_key(&[2u8; 32]));
    assert_eq!(map.get(&[3u8; 32]), Some(info(3)));
    assert_eq!(map.remove(&[3u8; 32]), Some(info(3)));
    assert_eq!(map.get(&[2u8; 32]), Some(info(20)));
}

#[test]
fn a_relay_set_holds_an_account_once() {
    let mut set = RelaySet::new();
    assert!(!set.contains(&[1u8; 32]));
    set.insert([1u8; 32]);
    set.insert([2u8; 32]);
    set.insert([1u8; 32]);
    assert!(set.contains(&[1u8; 32]));
    assert!(set.contains(&[2u8; 32]));
    assert!(!set.contains(&[3u8; 32]));
}

#[test]
fn contributors_of_a_benchmark_count_down_from_the_seed() {
    assert_eq!(SEED, 999_999_999);
    assert_eq!(contributor_seed(0, 0), 999_999_999);
    assert_eq!(contributor_seed(5799, 3), 999_994_197);
    assert_eq!(contributor_seed(SEED, 0), 0);
    let mut expected = [0u8; 32];
    expected[..4].copy_from_slice(&999_999_999u32.to_be_bytes());
    assert_eq!(relay_account_of(999_999_999), expected);
    assert_eq!(relay_account_of(0), [0u8; 32]);
    assert_eq!(relay_account_of(0x0102_0304)[..5], [1, 2, 3, 4, 0]);

    let contributors = create_contributors(10, &vec![71, 72, 73]);
    assert_eq!(
        contributors,
        vec![
            (relay_account_of(999_999_989), Some(71), CONTRIBUTION),
            (relay_account_of(999_999_988), Some(72), CONTRIBUTION),
            (relay_account_of(999_999_987), Some(73), CONTRIBUTION),
        ]
    );
    assert_eq!(CONTRIBUTION, 100);
    assert_eq!(create_contributors(0, &vec![]), vec![]);
}

#[test]
fn a_long_list_is_entered_batch_by_batch() {
    let users: Vec<u64> = (1..=20).collect();
    let contributors = create_contributors(0, &users);
    // twenty contributors do not fit one call
    let mut pallet = ledger(2000);
    assert_eq!(
        pallet.initialize_reward_vec(Origin::root(), contributors.clone()),
        module(Error::TooManyContributors)
    );
    let mut events = vec![Event::RewardAddressUpdated(0, 0)];
    assert_eq!(insert_contributors(&mut pallet, contributors.clone(), &mut events), Ok(()));
    assert_eq!(events.len(), 21);
    assert_eq!(events[0], Event::RewardAddressUpdated(0, 0));
    for (i, event) in events[1..].iter().enumerate() {
        assert_eq!(*event, Event::InitialPaymentMade(i as u64 + 1, 20));
    }
    assert_eq!(pallet.total_contributors(), 20);
    assert_eq!(pallet.pot(), 2000 - 20 * 20);
    assert_eq!(pallet.init_reward_amount(), 20 * 80);
    assert_eq!(
        pallet.accounts_payable(&20),
        Some(RewardInfo { total_reward: 100, claimed_reward: 20 })
    );
    assert_eq!(pallet.complete_initialiation(Origin::root(), 10), Ok(()));

    // the batch that is refused ends the list, and those before it stay
    let mut pallet = ledger(1000);
    let mut events = Vec::new();
    assert_eq!(
        insert_contributors(&mut pallet, contributors.clone(), &mut events),
        module(Error::BatchBeyondFundPot)
    );
    assert_eq!(events.len(), 8);
    assert_eq!(pallet.total_contributors(), 8);
    assert_eq!(pallet.accounts_payable(&8).map(|info| info.total_reward), Some(100));
    assert_eq!(pallet.accounts_payable(&9), None);

    let mut pallet = closed();
    let mut events = Vec::new();
    assert_eq!(
        insert_contributors(&mut pallet, contributors, &mut events),
        module(Error::RewardVecAlreadyInitialized)
    );
    assert_eq!(insert_contributors(&mut pallet, vec![], &mut events), Ok(()));
    assert_eq!(events, vec![]);
}

#[test]
fn payments_are_made_from_the_account_of_the_ledger() {
    let source = Pallet::account_id();
    assert_eq!(
        Pallet::transfer_of(&Event::InitialPaymentMade(3, 100)),
        Some(Transfer { source, dest: 3, value: 100 })
    );
    assert_eq!(
        Pallet::transfer_of(&Event::RewardsPaid(4, 0)),
        Some(Transfer { source, dest: 4, value: 0 })
    );
    assert_eq!(Pallet::transfer_of(&Event::RewardAddressUpdated(1, 2)), None);
    assert_eq!(Pallet::transfer_of(&Event::NativeIdentityAssociated([1u8; 32], 2, 500)), None);
    assert_eq!(
        Pallet::transfer_of(&Event::InitializedAlreadyInitializedAccount([1u8; 32], Some(2), 5)),
        None
    );
    assert_eq!(
        Pallet::transfer_of(&Event::InitializedAccountWithNotEnoughContribution(
            [1u8; 32],
            None,
            5
        )),
        None
    );
}

#[test]
fn what_leaves_the_pot_is_what_the_events_tell() {
    let told = |events: &[Event]| -> u128 {
        events.iter().filter_map(Pallet::transfer_of).map(|transfer| transfer.value).sum()
    };
    let mut pallet = ledger(2501);
    let mut pot = pallet.pot();
    let mut check = |pallet: &Pallet, outcome: Result<Vec<Event>, DispatchError>| {
        match outcome {
            Ok(events) => assert_eq!(pot, pallet.pot() + told(&events)),
            Err(_) => assert_eq!(pot, pallet.pot()),
        }
        pot = pallet.pot();
    };
    let outcome = pallet.initialize_reward_vec(
        Origin::root(),
        vec![
            ([1u8; 32], Some(1), 1190),
            ([2u8; 32], Some(2), 685),
            ([9u8; 32], None, 625),
        ],
    );
    check(&pallet, outcome);
    assert_eq!(pallet.pot(), 2501 - 238 - 137);
    let outcome = pallet.initialize_reward_vec(
        Origin::root(),
        vec![([1u8; 32], Some(3), 0), ([3u8; 32], Some(3), 1)],
    );
    check(&pallet, outcome);
    pallet.complete_initialiation(Origin::root(), 8).unwrap();
    let outcome = pallet.claim(Origin::signed(1), &at(3));
    check(&pallet, outcome);
    let outcome = pallet.associate_checked(Origin::signed(1), 2, [9u8; 32], true);
    check(&pallet, outcome);
    let outcome = pallet.update_reward_address(Origin::signed(1), 2);
    check(&pallet, outcome);
    let outcome = pallet.claim(Origin::signed(2), &at(8));
    check(&pallet, outcome);
    let outcome = pallet.claim(Origin::signed(2), &at(8));
    check(&pallet, outcome);
    assert_eq!(pallet.pot(), 1);
    let outcome = pallet.claim(Origin::signed(3), &at(8));
    check(&pallet, outcome);
    assert_eq!(pallet.pot(), 0);
}
