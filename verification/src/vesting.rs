//! How much of a reward has vested, and how much of it can be paid now.
//!
//! A fixed fraction of the reward is paid at once. The rest unlocks linearly
//! over the vesting window, in whole units: what has unlocked at a block is
//! rounded down, and the deficit is made up at later blocks.

use crate::perbill::{lemma_per_billion_of_bounded, per_billion_of, Perbill, BILLION};
use crate::types::{Balance, RelayChainBlockNumber, RewardInfo};
use vstd::prelude::*;

verus! {

/// The payment that is made at once: the fraction of the total reward.
pub open spec fn first_payment(info: RewardInfo, lump_fraction: Perbill) -> nat {
    per_billion_of(lump_fraction.parts(), info.total_reward as nat)
}

/// The reward apart from the first payment.
pub open spec fn vesting_part(info: RewardInfo, lump_fraction: Perbill) -> nat {
    let first = first_payment(info, lump_fraction);
    if info.total_reward >= first {
        (info.total_reward - first) as nat
    } else {
        0
    }
}

/// The blocks of the window that have passed at `now`: none before it starts.
pub open spec fn elapsed(now: RelayChainBlockNumber, window_start: RelayChainBlockNumber) -> nat {
    if now >= window_start {
        (now - window_start) as nat
    } else {
        0
    }
}

/// How much of the vesting part has unlocked at `now`.
///
/// A window that ends at or before its start unlocks everything at once.
/// Otherwise it is the vesting part times the blocks that have passed, over the
/// length of the window, rounded down; a product beyond the largest balance
/// counts as the largest balance.
pub open spec fn vested(
    info: RewardInfo,
    now: RelayChainBlockNumber,
    window_start: RelayChainBlockNumber,
    window_end: RelayChainBlockNumber,
    lump_fraction: Perbill,
) -> nat {
    let part = vesting_part(info, lump_fraction);
    if window_end <= window_start {
        part
    } else {
        let product = part * elapsed(now, window_start);
        let capped = if product > Balance::MAX { Balance::MAX as nat } else { product };
        capped / ((window_end - window_start) as nat)
    }
}

/// How much of the reward may have been paid in all at `now`: the first payment
/// and what has vested, and never more than the total.
pub open spec fn unlocked(
    info: RewardInfo,
    now: RelayChainBlockNumber,
    window_start: RelayChainBlockNumber,
    window_end: RelayChainBlockNumber,
    lump_fraction: Perbill,
) -> nat {
    let due = vested(info, now, window_start, window_end, lump_fraction) + first_payment(
        info,
        lump_fraction,
    );
    if due >= info.total_reward {
        info.total_reward as nat
    } else {
        due
    }
}

/// What can be paid at `now`: what has unlocked less what was paid, and nothing
/// where more was paid than has unlocked.
pub open spec fn spec_payable_now(
    info: RewardInfo,
    now: RelayChainBlockNumber,
    window_start: RelayChainBlockNumber,
    window_end: RelayChainBlockNumber,
    lump_fraction: Perbill,
) -> nat {
    let open = unlocked(info, now, window_start, window_end, lump_fraction);
    if open > info.claimed_reward {
        (open - info.claimed_reward) as nat
    } else {
        0
    }
}

/// The entry after a payment of what can be paid at `now`.
pub open spec fn after_claim(
    info: RewardInfo,
    now: RelayChainBlockNumber,
    window_start: RelayChainBlockNumber,
    window_end: RelayChainBlockNumber,
    lump_fraction: Perbill,
) -> RewardInfo {
    RewardInfo {
        total_reward: info.total_reward,
        claimed_reward: (info.claimed_reward + spec_payable_now(
            info,
            now,
            window_start,
            window_end,
            lump_fraction,
        )) as Balance,
    }
}

/// What can be paid at `now` of the reward `info`, of which `lump_fraction` is
/// paid at once and the rest over the window from `window_start` to
/// `window_end`.
pub fn payable_now(
    info: &RewardInfo,
    now: RelayChainBlockNumber,
    window_start: RelayChainBlockNumber,
    window_end: RelayChainBlockNumber,
    lump_fraction: Perbill,
) -> (payable: Balance)
    ensures
        payable == spec_payable_now(*info, now, window_start, window_end, lump_fraction),
        info.claimed_reward <= info.total_reward ==> info.claimed_reward + payable
            <= info.total_reward,
        info.claimed_reward >= info.total_reward ==> payable == 0,
{
    let first_paid = lump_fraction.of(info.total_reward);
    let part = info.total_reward - first_paid;
    let should_have_vested = if window_end <= window_start {
        part
    } else {
        let passed: u32 = if now >= window_start { now - window_start } else { 0 };
        let period = window_end - window_start;
        let product = match part.checked_mul(passed as Balance) {
            Some(product) => product,
            None => Balance::MAX,
        };
        product / (period as Balance)
    };
    if should_have_vested >= part {
        if info.total_reward >= info.claimed_reward {
            info.total_reward - info.claimed_reward
        } else {
            0
        }
    } else {
        let due = should_have_vested + first_paid;
        if due >= info.claimed_reward {
            due - info.claimed_reward
        } else {
            0
        }
    }
}

/// What can be paid never exceeds what is outstanding, and is nothing once the
/// whole reward has been paid.
pub proof fn lemma_payable_within_outstanding(
    info: RewardInfo,
    now: RelayChainBlockNumber,
    window_start: RelayChainBlockNumber,
    window_end: RelayChainBlockNumber,
    lump_fraction: Perbill,
)
    ensures
        spec_payable_now(info, now, window_start, window_end, lump_fraction) <= info.outstanding(),
        info.claimed_reward >= info.total_reward ==> spec_payable_now(
            info,
            now,
            window_start,
            window_end,
            lump_fraction,
        ) == 0,
{
}

/// What has unlocked does not shrink as the relay chain advances.
pub proof fn lemma_unlocked_monotonic(
    info: RewardInfo,
    earlier: RelayChainBlockNumber,
    later: RelayChainBlockNumber,
    window_start: RelayChainBlockNumber,
    window_end: RelayChainBlockNumber,
    lump_fraction: Perbill,
)
    requires
        earlier <= later,
    ensures
        unlocked(info, earlier, window_start, window_end, lump_fraction) <= unlocked(
            info,
            later,
            window_start,
            window_end,
            lump_fraction,
        ),
{
    if window_end > window_start {
        let part = vesting_part(info, lump_fraction) as int;
        let e1 = elapsed(earlier, window_start) as int;
        let e2 = elapsed(later, window_start) as int;
        let period = (window_end - window_start) as int;
        assert(part * e1 <= part * e2) by (nonlinear_arith)
            requires
                0 <= part,
                0 <= e1 <= e2,
        ;
        let c1 = if part * e1 > Balance::MAX { Balance::MAX as int } else { part * e1 };
        let c2 = if part * e2 > Balance::MAX { Balance::MAX as int } else { part * e2 };
        vstd::arithmetic::div_mod::lemma_div_is_ordered(c1, c2, period);
    }
}

/// Once the window has passed, the whole reward has unlocked, provided the
/// vesting part times the blocks that have passed fits a balance.
pub proof fn lemma_unlocked_after_window(
    info: RewardInfo,
    now: RelayChainBlockNumber,
    window_start: RelayChainBlockNumber,
    window_end: RelayChainBlockNumber,
    lump_fraction: Perbill,
)
    requires
        lump_fraction.parts() <= BILLION,
        now >= window_end,
        vesting_part(info, lump_fraction) * elapsed(now, window_start) <= Balance::MAX,
    ensures
        unlocked(info, now, window_start, window_end, lump_fraction) == info.total_reward,
{
    lemma_per_billion_of_bounded(lump_fraction.parts(), info.total_reward as nat);
    if window_end > window_start {
        let part = vesting_part(info, lump_fraction) as int;
        let passed = elapsed(now, window_start) as int;
        let period = (window_end - window_start) as int;
        assert(part * period <= part * passed) by (nonlinear_arith)
            requires
                0 <= part,
                0 <= period <= passed,
        ;
        vstd::arithmetic::div_mod::lemma_div_is_ordered(part * period, part * passed, period);
        vstd::arithmetic::div_mod::lemma_div_multiples_vanish(part, period);
        assert(part * period == period * part) by (nonlinear_arith);
    }
}

/// Claims made one after another, at relay chain blocks that do not go back,
/// never lower what has been paid, and never pay more than the total reward.
pub proof fn lemma_claims_monotonic(
    info: RewardInfo,
    first: RelayChainBlockNumber,
    second: RelayChainBlockNumber,
    window_start: RelayChainBlockNumber,
    window_end: RelayChainBlockNumber,
    lump_fraction: Perbill,
)
    requires
        first <= second,
        info.claimed_reward <= info.total_reward,
    ensures
        ({
            let once = after_claim(info, first, window_start, window_end, lump_fraction);
            let twice = after_claim(once, second, window_start, window_end, lump_fraction);
            &&& info.claimed_reward <= once.claimed_reward <= twice.claimed_reward
                <= info.total_reward
            &&& once.total_reward == info.total_reward
            &&& twice.total_reward == info.total_reward
            &&& twice.claimed_reward >= unlocked(
                info,
                second,
                window_start,
                window_end,
                lump_fraction,
            )
        }),
{
    let once = after_claim(info, first, window_start, window_end, lump_fraction);
    lemma_payable_within_outstanding(info, first, window_start, window_end, lump_fraction);
    lemma_payable_within_outstanding(once, second, window_start, window_end, lump_fraction);
    assert(first_payment(once, lump_fraction) == first_payment(info, lump_fraction));
    assert(vested(once, second, window_start, window_end, lump_fraction) == vested(
        info,
        second,
        window_start,
        window_end,
        lump_fraction,
    ));
}

} // verus!
