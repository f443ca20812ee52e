//! The slash of an assigned relayer that missed its slot.

use crate::config::FeeMarketConfig;
use crate::order::{slash_report, BlockNumber, Order, OrderView, SlashReport};
use crate::ratio::{lemma_ratio_of_bounds, ratio_of};
use crate::relayer::{AccountId, Balance};
use vstd::prelude::*;

verus! {

/// The policy of a market for orders that are confirmed late: what it takes from each
/// assigned relayer beyond the fixed share of its collateral.
pub trait Slasher {
    /// What to take, given the collateral that was locked for the order and the delay of
    /// its confirmation.
    fn cal_slash_amount(locked_collateral: Balance, delay: BlockNumber) -> Balance;
}

/// What an assigned relayer loses for a slot that it missed while the order was still
/// delivered in time: the market's ratio of its locked collateral.
pub open spec fn late_slash(config: FeeMarketConfig, locked_collateral: Balance) -> Balance {
    ratio_of(config.assigned_relayer_slash_ratio.parts, locked_collateral)
}

/// What an assigned relayer loses for an order that expired: the market's ratio of its
/// locked collateral plus `dynamic_slash`, at most the market's limit if it has one, and
/// at most the locked collateral.
pub open spec fn expired_slash(
    config: FeeMarketConfig,
    locked_collateral: Balance,
    dynamic_slash: Balance,
) -> Balance {
    let uncapped = late_slash(config, locked_collateral).saturating_add(dynamic_slash);
    let capped = match config.slash_protect {
        Some(slash_protect) if slash_protect < uncapped => slash_protect,
        _ => uncapped,
    };
    if capped < locked_collateral {
        capped
    } else {
        locked_collateral
    }
}

/// No slash exceeds what the relayer has locked, and none for an expired order exceeds
/// the market's limit, if it has one.
pub proof fn lemma_slash_bounds(config: FeeMarketConfig, locked_collateral: Balance, dynamic_slash: Balance)
    ensures
        late_slash(config, locked_collateral) <= locked_collateral,
        expired_slash(config, locked_collateral, dynamic_slash) <= locked_collateral,
        config.slash_protect matches Some(slash_protect) ==> expired_slash(
            config,
            locked_collateral,
            dynamic_slash,
        ) <= slash_protect,
{
    lemma_ratio_of_bounds(config.assigned_relayer_slash_ratio.parts, locked_collateral);
}

/// The slash of an assigned relayer that missed its slot of an order delivered in time.
/// It never exceeds the locked collateral.
pub fn late_slash_amount(config: &FeeMarketConfig, locked_collateral: Balance) -> (amount: Balance)
    ensures
        amount == late_slash(*config, locked_collateral),
        amount <= locked_collateral,
{
    config.assigned_relayer_slash_ratio.of(locked_collateral)
}

/// The slash of an assigned relayer of an expired order, where `dynamic_slash` is what
/// the market's slasher asks for the delay. It never exceeds the locked collateral, nor
/// the market's limit if it has one.
pub fn expired_slash_amount(
    config: &FeeMarketConfig,
    locked_collateral: Balance,
    dynamic_slash: Balance,
) -> (amount: Balance)
    ensures
        amount == expired_slash(*config, locked_collateral, dynamic_slash),
        amount <= locked_collateral,
        config.slash_protect matches Some(slash_protect) ==> amount <= slash_protect,
{
    let mut slash_amount = config.assigned_relayer_slash_ratio.of(locked_collateral);
    slash_amount = slash_amount.saturating_add(dynamic_slash);
    if let Some(slash_protect) = config.slash_protect {
        if slash_protect < slash_amount {
            slash_amount = slash_protect;
        }
    }
    if locked_collateral < slash_amount {
        slash_amount = locked_collateral;
    }
    slash_amount
}

/// What became of the slash of one relayer.
#[derive(Debug, PartialEq, Eq)]
pub struct SlashOutcome {
    /// What reached the fund account.
    pub amount: Balance,
    /// What the relayer still has locked.
    pub locked_collateral: Balance,
    /// The record of the slash.
    pub report: SlashReport,
}

/// The outcome of slashing `amount` from `who`, who had `locked_collateral` locked, given
/// whether the transfer to the fund account went through. A transfer that failed
/// collects nothing and leaves the locked collateral as it was.
pub open spec fn slash_outcome(
    order: OrderView,
    who: AccountId,
    locked_collateral: Balance,
    amount: Balance,
    transferred: bool,
) -> SlashOutcome {
    if transferred {
        SlashOutcome {
            amount,
            locked_collateral: (locked_collateral - amount) as Balance,
            report: slash_report(order, who, amount),
        }
    } else {
        SlashOutcome { amount: 0, locked_collateral, report: slash_report(order, who, 0) }
    }
}

/// Settles the slash of an assigned relayer once the transfer of `amount` from `who` to
/// the fund account was tried: says what was collected, what stays locked, and what
/// goes on record.
pub fn slash_assigned_relayer(
    order: &Order,
    who: AccountId,
    locked_collateral: Balance,
    amount: Balance,
    transferred: bool,
) -> (outcome: SlashOutcome)
    requires
        amount <= locked_collateral,
    ensures
        outcome == slash_outcome(order@, who, locked_collateral, amount, transferred),
{
    if transferred {
        SlashOutcome {
            amount,
            locked_collateral: locked_collateral - amount,
            report: SlashReport::new(order, who, amount),
        }
    } else {
        SlashOutcome { amount: 0, locked_collateral, report: SlashReport::new(order, who, 0) }
    }
}

} // verus!
