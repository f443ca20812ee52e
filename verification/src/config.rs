//! The rules of a fee market.

use crate::ratio::Ratio;
use crate::relayer::{AccountId, Balance};
use vstd::prelude::*;

verus! {

/// The rules of a fee market: who gets which share, and how hard a slash may be.
#[derive(Clone, Copy, Debug, PartialEq, Eq)]
pub struct FeeMarketConfig {
    /// The share of its locked collateral that an assigned relayer loses for a missed
    /// slot.
    pub assigned_relayer_slash_ratio: Ratio,
    /// The share of the unspent fee that goes to the guarding relayers.
    pub assigned_relayers_reward_ratio: Ratio,
    /// The share of the delivery reward that goes to the relayer who delivered.
    pub message_relayers_reward_ratio: Ratio,
    /// The share of the delivery reward that goes to the relayer who confirmed.
    pub confirm_relayers_reward_ratio: Ratio,
    /// The most that one relayer loses for an expired order, if there is a limit.
    pub slash_protect: Option<Balance>,
    /// The account of the treasury.
    pub treasury_account: AccountId,
}

} // verus!
