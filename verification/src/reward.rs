//! The rewards of one order, and their sums over a batch of orders.

use crate::config::FeeMarketConfig;
use crate::ratio::{lemma_ratio_of_bounds, ratio_of, Ratio};
use crate::relayer::{AccountId, Balance};
use std::collections::BTreeMap;
use vstd::prelude::*;

verus! {


/// The concrete reward distribution of one order.
#[derive(Debug, PartialEq, Eq)]
pub struct RewardItem {
    pub to_assigned_relayers: BTreeMap<AccountId, Balance>,
    pub to_treasury: Option<Balance>,
    pub to_message_relayer: Option<(AccountId, Balance)>,
    pub to_confirm_relayer: Option<(AccountId, Balance)>,
}

/// What a [`RewardItem`] holds, as mathematical values.
pub struct RewardItemView {
    pub to_assigned_relayers: Map<AccountId, Balance>,
    pub to_treasury: Option<Balance>,
    pub to_message_relayer: Option<(AccountId, Balance)>,
    pub to_confirm_relayer: Option<(AccountId, Balance)>,
}

impl View for RewardItem {
    type V = RewardItemView;

    open spec fn view(&self) -> RewardItemView {
        RewardItemView {
            to_assigned_relayers: self.to_assigned_relayers@,
            to_treasury: self.to_treasury,
            to_message_relayer: self.to_message_relayer,
            to_confirm_relayer: self.to_confirm_relayer,
        }
    }
}

impl RewardItemView {
    /// The item that rewards nobody.
    pub open spec fn empty() -> RewardItemView {
        RewardItemView {
            to_assigned_relayers: Map::empty(),
            to_treasury: None,
            to_message_relayer: None,
            to_confirm_relayer: None,
        }
    }
}

impl Clone for RewardItem {
    fn clone(&self) -> (r: RewardItem)
        ensures
            r@ == self@,
    {
        RewardItem {
            to_assigned_relayers: self.to_assigned_relayers.clone(),
            to_treasury: self.to_treasury,
            to_message_relayer: self.to_message_relayer,
            to_confirm_relayer: self.to_confirm_relayer,
        }
    }
}

impl RewardItem {
    /// The item that rewards nobody.
    pub fn new() -> (r: RewardItem)
        ensures
            r@ == RewardItemView::empty(),
    {
        RewardItem {
            to_assigned_relayers: BTreeMap::new(),
            to_treasury: None,
            to_message_relayer: None,
            to_confirm_relayer: None,
        }
    }
}

/// `sums` after `amount` was added to the sum of `id`; the sum stops at the largest
/// balance.
pub open spec fn credited(sums: Map<AccountId, Balance>, id: AccountId, amount: Balance) -> Map<
    AccountId,
    Balance,
> {
    sums.insert(
        id,
        if sums.contains_key(id) {
            sums[id].saturating_add(amount)
        } else {
            amount
        },
    )
}

/// `sums` after every reward of `rewards` was added to the sum of its account.
pub open spec fn credited_all(sums: Map<AccountId, Balance>, rewards: Map<AccountId, Balance>) -> Map<
    AccountId,
    Balance,
> {
    Map::new(
        |k: AccountId| sums.contains_key(k) || rewards.contains_key(k),
        |k: AccountId|
            if rewards.contains_key(k) {
                if sums.contains_key(k) {
                    sums[k].saturating_add(rewards[k])
                } else {
                    rewards[k]
                }
            } else {
                sums[k]
            },
    )
}

/// The sums of the rewards of a batch of orders.
#[derive(Debug, PartialEq, Eq)]
pub struct RewardsBook {
    pub deliver_sum: BTreeMap<AccountId, Balance>,
    pub confirm_sum: Balance,
    pub assigned_relayers_sum: BTreeMap<AccountId, Balance>,
    pub treasury_sum: Balance,
}

/// What a [`RewardsBook`] holds, as mathematical values.
pub struct RewardsBookView {
    pub deliver_sum: Map<AccountId, Balance>,
    pub confirm_sum: Balance,
    pub assigned_relayers_sum: Map<AccountId, Balance>,
    pub treasury_sum: Balance,
}

impl View for RewardsBook {
    type V = RewardsBookView;

    open spec fn view(&self) -> RewardsBookView {
        RewardsBookView {
            deliver_sum: self.deliver_sum@,
            confirm_sum: self.confirm_sum,
            assigned_relayers_sum: self.assigned_relayers_sum@,
            treasury_sum: self.treasury_sum,
        }
    }
}

impl RewardsBookView {
    /// The book before any order was settled.
    pub open spec fn empty() -> RewardsBookView {
        RewardsBookView {
            deliver_sum: Map::empty(),
            confirm_sum: 0,
            assigned_relayers_sum: Map::empty(),
            treasury_sum: 0,
        }
    }

    /// The book after the four channels of `item` were added to its four sums.
    pub open spec fn add_reward_item(self, item: RewardItemView) -> RewardsBookView {
        RewardsBookView {
            deliver_sum: match item.to_message_relayer {
                Some((id, reward)) => credited(self.deliver_sum, id, reward),
                None => self.deliver_sum,
            },
            confirm_sum: match item.to_confirm_relayer {
                Some((_, reward)) => self.confirm_sum.saturating_add(reward),
                None => self.confirm_sum,
            },
            assigned_relayers_sum: credited_all(
                self.assigned_relayers_sum,
                item.to_assigned_relayers,
            ),
            treasury_sum: match item.to_treasury {
                Some(reward) => self.treasury_sum.saturating_add(reward),
                None => self.treasury_sum,
            },
        }
    }
}

impl Clone for RewardsBook {
    fn clone(&self) -> (r: RewardsBook)
        ensures
            r@ == self@,
    {
        RewardsBook {
            deliver_sum: self.deliver_sum.clone(),
            confirm_sum: self.confirm_sum,
            assigned_relayers_sum: self.assigned_relayers_sum.clone(),
            treasury_sum: self.treasury_sum,
        }
    }
}

/// Adds `amount` to the sum of `id`.
fn credit(sums: &mut BTreeMap<AccountId, Balance>, id: AccountId, amount: Balance)
    ensures
        final(sums)@ == credited(old(sums)@, id, amount),
{
    let next = match sums.get(&id) {
        Some(sum) => sum.saturating_add(amount),
        None => amount,
    };
    sums.insert(id, next);
}

impl RewardsBook {
    /// The book before any order was settled.
    pub fn new() -> (r: RewardsBook)
        ensures
            r@ == RewardsBookView::empty(),
    {
        RewardsBook {
            deliver_sum: BTreeMap::new(),
            confirm_sum: 0,
            assigned_relayers_sum: BTreeMap::new(),
            treasury_sum: 0,
        }
    }

    /// Adds the rewards of one order to the sums.
    pub fn add_reward_item(&mut self, item: RewardItem)
        ensures
            final(self)@ == old(self)@.add_reward_item(item@),
    {
        let ghost before = self.assigned_relayers_sum@;
        let ghost rewards = item.to_assigned_relayers@;
        let ghost done: Set<AccountId> = Set::empty();
        let ghost position: Map<AccountId, int> = Map::empty();
        assert(self.assigned_relayers_sum@ =~= credited_all(before, rewards.restrict(done)));
        for entry in it: item.to_assigned_relayers.iter()
            invariant
                rewards == item.to_assigned_relayers@,
                self.deliver_sum == old(self).deliver_sum,
                self.confirm_sum == old(self).confirm_sum,
                self.treasury_sum == old(self).treasury_sum,
                it.seq().no_duplicates(),
                it.seq().len() == rewards.dom().len(),
                forall|i: int|
                    0 <= i < it.seq().len() ==> rewards.contains_key(*(#[trigger] it.seq()[i]).0)
                        && rewards[*it.seq()[i].0] == *it.seq()[i].1,
                forall|i: int| 0 <= i < it.index() ==> done.contains(*(#[trigger] it.seq()[i]).0),
                forall|k: AccountId| #[trigger]
                    done.contains(k) ==> 0 <= position[k] < it.index() && *it.seq()[position[k]].0
                        == k,
                done.finite(),
                done.len() == it.index(),
                done.subset_of(rewards.dom()),
                self.assigned_relayers_sum@ == credited_all(before, rewards.restrict(done)),
        {
            let (k, v) = entry;
            proof {
                if done.contains(*k) {
                    assert(it.seq()[position[*k]] == it.seq()[it.index() as int]);
                }
            }
            credit(&mut self.assigned_relayers_sum, *k, *v);
            proof {
                position = position.insert(*k, it.index() as int);
                done = done.insert(*k);
                assert(self.assigned_relayers_sum@ =~= credited_all(before, rewards.restrict(done)));
            }
        }
        proof {
            vstd::set_lib::lemma_subset_equality(done, rewards.dom());
            assert(rewards.restrict(done) =~= rewards);
        }
        if let Some(reward) = item.to_treasury {
            self.treasury_sum = self.treasury_sum.saturating_add(reward);
        }
        if let Some((id, reward)) = item.to_message_relayer {
            credit(&mut self.deliver_sum, id, reward);
        }
        if let Some((_id, reward)) = item.to_confirm_relayer {
            self.confirm_sum = self.confirm_sum.saturating_add(reward);
        }
    }
}

/// The order in which the items of a batch are added to a book does not matter: both
/// orders give the same four sums.
pub proof fn lemma_add_reward_items_commute(book: RewardsBookView, a: RewardItemView, b: RewardItemView)
    ensures
        book.add_reward_item(a).add_reward_item(b) == book.add_reward_item(b).add_reward_item(a),
{
    let ab = book.add_reward_item(a).add_reward_item(b);
    let ba = book.add_reward_item(b).add_reward_item(a);
    assert(ab.deliver_sum =~= ba.deliver_sum);
    assert(ab.assigned_relayers_sum =~= ba.assigned_relayers_sum);
}

/// The share of the order's fee that is not spent on the confirmed slot.
pub open spec fn remaining_fee(order_fee: Balance, confirmed_slot_price: Balance) -> Balance {
    order_fee.saturating_sub(confirmed_slot_price)
}

/// What each of `guards` guarding relayers gets out of the fee that is left: an equal
/// share, rounded down, of the part that the market grants them.
pub open spec fn guarding_reward(ratio: Ratio, remaining: Balance, guards: nat) -> Balance {
    if guards == 0 {
        0
    } else {
        (ratio_of(ratio.parts, remaining) as int / guards as int) as Balance
    }
}

/// The reward that the relayers who delivered and confirmed share.
pub open spec fn delivery_and_confirm_reward(
    order_fee: Balance,
    confirmed_slot_price: Option<Balance>,
    other_assigned_relayers_slash: Option<Balance>,
) -> Balance {
    match (confirmed_slot_price, other_assigned_relayers_slash) {
        (Some(price), None) => price,
        (Some(price), Some(slash)) => price.saturating_add(slash),
        (None, Some(slash)) => order_fee.saturating_add(slash),
        (None, None) => 0,
    }
}

/// `rewards` after each of `guards` was given `reward`.
pub open spec fn guarded(rewards: Map<AccountId, Balance>, guards: Set<AccountId>, reward: Balance) -> Map<
    AccountId,
    Balance,
> {
    Map::new(
        |k: AccountId| rewards.contains_key(k) || guards.contains(k),
        |k: AccountId|
            if guards.contains(k) {
                reward
            } else {
                rewards[k]
            },
    )
}

/// The reward item of an order, written over `item`.
///
/// With a confirmed slot, the delivery reward is the slot's price (plus what was slashed),
/// each guarding relayer gets its [`guarding_reward`], and the treasury what is then left
/// of the fee. Without one the order has expired: the delivery reward is the whole fee
/// plus what was slashed, and neither guards nor treasury get anything. The relayers who
/// delivered and confirmed each get their ratio of the delivery reward.
pub open spec fn order_reward_item(
    item: RewardItemView,
    config: FeeMarketConfig,
    order_fee: Balance,
    confirmed_slot_price: Option<Balance>,
    message_deliver_relayer_id: AccountId,
    message_confirm_relayer_id: AccountId,
    guarding_relayers_list: Seq<AccountId>,
    other_assigned_relayers_slash: Option<Balance>,
) -> RewardItemView {
    let total = delivery_and_confirm_reward(
        order_fee,
        confirmed_slot_price,
        other_assigned_relayers_slash,
    );
    let to_message_relayer = Some(
        (message_deliver_relayer_id, ratio_of(config.message_relayers_reward_ratio.parts, total)),
    );
    let to_confirm_relayer = Some(
        (message_confirm_relayer_id, ratio_of(config.confirm_relayers_reward_ratio.parts, total)),
    );
    match confirmed_slot_price {
        Some(price) => {
            let remaining = remaining_fee(order_fee, price);
            let reward = guarding_reward(
                config.assigned_relayers_reward_ratio,
                remaining,
                guarding_relayers_list.len(),
            );
            RewardItemView {
                to_assigned_relayers: guarded(
                    item.to_assigned_relayers,
                    guarding_relayers_list.to_set(),
                    reward,
                ),
                to_treasury: Some((remaining - guarding_relayers_list.len() * reward) as Balance),
                to_message_relayer,
                to_confirm_relayer,
            }
        },
        None => RewardItemView {
            to_assigned_relayers: item.to_assigned_relayers,
            to_treasury: item.to_treasury,
            to_message_relayer,
            to_confirm_relayer,
        },
    }
}

/// The guarding relayers never get more than the fee that is left, so that the
/// treasury's share is never negative.
pub proof fn lemma_guarding_rewards_fit(ratio: Ratio, remaining: Balance, guards: nat)
    ensures
        guards * guarding_reward(ratio, remaining, guards) <= ratio_of(ratio.parts, remaining)
            <= remaining,
{
    lemma_ratio_of_bounds(ratio.parts, remaining);
    let pool = ratio_of(ratio.parts, remaining) as int;
    let n = guards as int;
    if guards != 0 {
        assert(0 <= pool / n && n * (pool / n) <= pool) by (nonlinear_arith)
            requires
                n > 0,
                pool >= 0,
        ;
        assert(pool / n <= pool) by (nonlinear_arith)
            requires
                n > 0,
                pool >= 0,
        ;
    }
}

/// The reward of an order that was confirmed in one of its slots with nobody slashed,
/// as in the first slot. The relayers who delivered and confirmed share the price of the
/// slot. Each guarding relayer gets the same reward: the guards' ratio of the fee that
/// is left, divided by their number and rounded down. The treasury gets the rest, which
/// is nothing unless the fee is above the price of the slot.
pub proof fn lemma_reward_in_slot(
    config: FeeMarketConfig,
    order_fee: Balance,
    confirmed_slot_price: Balance,
    message_deliver_relayer_id: AccountId,
    message_confirm_relayer_id: AccountId,
    guarding_relayers_list: Seq<AccountId>,
)
    ensures
        ({
            let item = order_reward_item(
                RewardItemView::empty(),
                config,
                order_fee,
                Some(confirmed_slot_price),
                message_deliver_relayer_id,
                message_confirm_relayer_id,
                guarding_relayers_list,
                None,
            );
            let remaining = remaining_fee(order_fee, confirmed_slot_price);
            let reward = guarding_reward(
                config.assigned_relayers_reward_ratio,
                remaining,
                guarding_relayers_list.len(),
            );
            &&& item.to_assigned_relayers.dom() == guarding_relayers_list.to_set()
            &&& forall|id: AccountId|
                guarding_relayers_list.contains(id) ==> #[trigger] item.to_assigned_relayers[id]
                    == reward
            &&& reward * guarding_relayers_list.len() <= ratio_of(
                config.assigned_relayers_reward_ratio.parts,
                remaining,
            )
            &&& item.to_treasury == Some((remaining - reward * guarding_relayers_list.len()) as Balance)
            &&& 0 <= remaining - reward * guarding_relayers_list.len() <= remaining
            &&& order_fee <= confirmed_slot_price ==> item.to_treasury == Some(0u128)
            &&& item.to_message_relayer == Some(
                (
                    message_deliver_relayer_id,
                    ratio_of(config.message_relayers_reward_ratio.parts, confirmed_slot_price),
                ),
            )
            &&& item.to_confirm_relayer == Some(
                (
                    message_confirm_relayer_id,
                    ratio_of(config.confirm_relayers_reward_ratio.parts, confirmed_slot_price),
                ),
            )
        }),
{
    let remaining = remaining_fee(order_fee, confirmed_slot_price);
    let n = guarding_relayers_list.len();
    let reward = guarding_reward(config.assigned_relayers_reward_ratio, remaining, n);
    lemma_guarding_rewards_fit(config.assigned_relayers_reward_ratio, remaining, n);
    assert(reward * n == n * reward) by (nonlinear_arith);
    assert(0 <= reward * n) by (nonlinear_arith)
        requires
            0 <= reward,
            0 <= n,
    ;
    let item = order_reward_item(
        RewardItemView::empty(),
        config,
        order_fee,
        Some(confirmed_slot_price),
        message_deliver_relayer_id,
        message_confirm_relayer_id,
        guarding_relayers_list,
        None,
    );
    assert(item.to_assigned_relayers.dom() =~= guarding_relayers_list.to_set());
    if order_fee <= confirmed_slot_price {
        lemma_ratio_of_bounds(config.assigned_relayers_reward_ratio.parts, 0);
        assert(reward * n == 0);
    }
}

/// The reward of an order that expired. The relayers who delivered and confirmed share
/// the whole fee plus what was slashed; neither the assigned relayers nor the treasury
/// get anything.
pub proof fn lemma_reward_of_expired_order(
    config: FeeMarketConfig,
    order_fee: Balance,
    message_deliver_relayer_id: AccountId,
    message_confirm_relayer_id: AccountId,
    guarding_relayers_list: Seq<AccountId>,
    slashed: Balance,
)
    ensures
        ({
            let item = order_reward_item(
                RewardItemView::empty(),
                config,
                order_fee,
                None,
                message_deliver_relayer_id,
                message_confirm_relayer_id,
                guarding_relayers_list,
                Some(slashed),
            );
            &&& delivery_and_confirm_reward(order_fee, None, Some(slashed))
                == if order_fee + slashed <= Balance::MAX {
                (order_fee + slashed) as Balance
            } else {
                Balance::MAX
            }
            &&& item.to_treasury is None
            &&& item.to_assigned_relayers == Map::<AccountId, Balance>::empty()
            &&& item.to_message_relayer == Some(
                (
                    message_deliver_relayer_id,
                    ratio_of(
                        config.message_relayers_reward_ratio.parts,
                        order_fee.saturating_add(slashed),
                    ),
                ),
            )
            &&& item.to_confirm_relayer == Some(
                (
                    message_confirm_relayer_id,
                    ratio_of(
                        config.confirm_relayers_reward_ratio.parts,
                        order_fee.saturating_add(slashed),
                    ),
                ),
            )
        }),
{
}

/// Calculates the reward item of an order that was confirmed on time or late.
pub fn cal_order_reward_item(
    reward_item: &mut RewardItem,
    config: &FeeMarketConfig,
    order_fee: Balance,
    confirmed_slot_price: Option<Balance>,
    message_deliver_relayer_id: AccountId,
    message_confirm_relayer_id: AccountId,
    guarding_relayers_list: &[AccountId],
    other_assigned_relayers_slash: Option<Balance>,
)
    ensures
        final(reward_item)@ == order_reward_item(
            old(reward_item)@,
            *config,
            order_fee,
            confirmed_slot_price,
            message_deliver_relayer_id,
            message_confirm_relayer_id,
            guarding_relayers_list@,
            other_assigned_relayers_slash,
        ),
{
    let (delivery_and_confirm_reward, treasury_rewards) = match confirmed_slot_price {
        Some(confirmed_slot_price) => {
            let delivery_and_confirm_reward = match other_assigned_relayers_slash {
                Some(other_assigned_relayers_slash) => confirmed_slot_price.saturating_add(
                    other_assigned_relayers_slash,
                ),
                None => confirmed_slot_price,
            };
            let remaining = order_fee.saturating_sub(confirmed_slot_price);
            let guards = guarding_relayers_list.len();
            let guarding_rewards = config.assigned_relayers_reward_ratio.of(remaining);
            let average_reward = if guards == 0 {
                0
            } else {
                guarding_rewards / (guards as Balance)
            };
            proof {
                lemma_guarding_rewards_fit(
                    config.assigned_relayers_reward_ratio,
                    remaining,
                    guards as nat,
                );
            }
            let ghost before = reward_item.to_assigned_relayers@;
            let mut order_remaining_fee = remaining;
            let mut i: usize = 0;
            assert(reward_item.to_assigned_relayers@ =~= guarded(
                before,
                guarding_relayers_list@.take(0).to_set(),
                average_reward,
            ));
            while i < guards
                invariant
                    guards == guarding_relayers_list.len(),
                    i <= guards,
                    guards * average_reward <= remaining,
                    order_remaining_fee == remaining - i * average_reward,
                    reward_item.to_assigned_relayers@ == guarded(
                        before,
                        guarding_relayers_list@.take(i as int).to_set(),
                        average_reward,
                    ),
                    reward_item.to_treasury == old(reward_item).to_treasury,
                    reward_item.to_message_relayer == old(reward_item).to_message_relayer,
                    reward_item.to_confirm_relayer == old(reward_item).to_confirm_relayer,
                decreases guards - i,
            {
                proof {
                    let n = guards as int;
                    let k = i as int;
                    let a = average_reward as int;
                    assert((k + 1) * a <= n * a) by (nonlinear_arith)
                        requires
                            k + 1 <= n,
                            0 <= a,
                    ;
                    assert((k + 1) * a == k * a + a) by (nonlinear_arith);
                }
                reward_item.to_assigned_relayers.insert(guarding_relayers_list[i], average_reward);
                order_remaining_fee = order_remaining_fee.saturating_sub(average_reward);
                i += 1;
                proof {
                    let shorter = guarding_relayers_list@.take(i - 1);
                    let longer = guarding_relayers_list@.take(i as int);
                    assert(longer == shorter.push(guarding_relayers_list@[i - 1]));
                    assert forall|k: AccountId| longer.to_set().contains(k) <==> (
                    shorter.to_set().contains(k) || k == guarding_relayers_list@[i - 1]) by {
                        if longer.contains(k) {
                            let j = choose|j: int| 0 <= j < longer.len() && longer[j] == k;
                            if j < shorter.len() {
                                assert(shorter[j] == k);
                            }
                        }
                        if shorter.contains(k) {
                            let j = choose|j: int| 0 <= j < shorter.len() && shorter[j] == k;
                            assert(longer[j] == k);
                        }
                        if k == guarding_relayers_list@[i - 1] {
                            assert(longer[i - 1] == k);
                        }
                    }
                    assert(reward_item.to_assigned_relayers@ =~= guarded(
                        before,
                        longer.to_set(),
                        average_reward,
                    ));
                }
            }
            assert(guarding_relayers_list@.take(guards as int) == guarding_relayers_list@);
            (delivery_and_confirm_reward, Some(order_remaining_fee))
        },
        None => {
            let delivery_and_confirm_reward = match other_assigned_relayers_slash {
                Some(other_assigned_relayers_slash) => order_fee.saturating_add(
                    other_assigned_relayers_slash,
                ),
                None => 0,
            };
            (delivery_and_confirm_reward, None)
        },
    };

    if let Some(treasury_rewards) = treasury_rewards {
        reward_item.to_treasury = Some(treasury_rewards);
    }
    let deliver_reward = config.message_relayers_reward_ratio.of(delivery_and_confirm_reward);
    let confirm_reward = config.confirm_relayers_reward_ratio.of(delivery_and_confirm_reward);
    reward_item.to_message_relayer = Some((message_deliver_relayer_id, deliver_reward));
    reward_item.to_confirm_relayer = Some((message_confirm_relayer_id, confirm_reward));
}

} // verus!
