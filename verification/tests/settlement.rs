use fee_market::order::{BlockNumber, LaneId, MessageNonce, Order, SlashReport};
use fee_market::config::FeeMarketConfig;
use fee_market::payment::{ExistenceRequirement, Transfer};
use fee_market::reward::{RewardItem, RewardsBook};
use fee_market::ratio::Ratio;
use fee_market::relayer::{AccountId, Balance, Relayer};
use fee_market::settlement::{
    slash_and_calculate_rewards, DeliveredMessages, Progress, UnrewardedRelayer,
};
use fee_market::slash::Slasher;
use std::collections::BTreeMap;

const LANE: LaneId = [0, 0, 0, 1];
const FUND: AccountId = 1000;
const TREASURY: AccountId = 2000;

fn config(slash_protect: Option<Balance>) -> FeeMarketConfig {
    FeeMarketConfig {
        assigned_relayer_slash_ratio: Ratio::from_parts(200_000),
        assigned_relayers_reward_ratio: Ratio::from_parts(600_000),
        message_relayers_reward_ratio: Ratio::from_parts(800_000),
        confirm_relayers_reward_ratio: Ratio::from_parts(200_000),
        slash_protect,
        treasury_account: TREASURY,
    }
}

/// A ledger in memory that answers the requests of a settlement.
struct Ledger {
    now: BlockNumber,
    orders: BTreeMap<MessageNonce, Order>,
    locked: BTreeMap<AccountId, Balance>,
    failing: Vec<AccountId>,
    slash_per_block: Balance,
    asked: Vec<MessageNonce>,
    transfers: Vec<Transfer>,
    reports: Vec<SlashReport>,
    rewards: Vec<(MessageNonce, RewardItem)>,
}

impl Ledger {
    fn new(now: BlockNumber) -> Ledger {
        Ledger {
            now,
            orders: BTreeMap::new(),
            locked: BTreeMap::new(),
            failing: Vec::new(),
            slash_per_block: 2,
            asked: Vec::new(),
            transfers: Vec::new(),
            reports: Vec::new(),
            rewards: Vec::new(),
        }
    }

    fn locked(&self, who: AccountId) -> Balance {
        self.locked.get(&who).copied().unwrap_or(0)
    }

    fn run(&mut self, start: Progress) -> RewardsBook {
        let mut progress = start;
        loop {
            progress = match progress {
                Progress::Finished(book) => return book,
                Progress::Order(request) => {
                    assert_eq!(request.lane(), LANE);
                    self.asked.push(request.nonce());
                    let order = self.orders.get(&request.nonce()).cloned();
                    request.resume(order, self.now)
                },
                Progress::Collateral(request) => {
                    let locked = self.locked(request.relayer());
                    request.resume(locked)
                },
                Progress::Assessment(request) => {
                    let locked = self.locked(request.relayer());
                    let _ = request.locked_collateral();
                    let dynamic = self.slash_per_block * Balance::from(request.delay());
                    request.resume(locked, dynamic)
                },
                Progress::Slash(request) => {
                    let transfer = request.transfer();
                    assert_eq!(transfer.from, request.relayer());
                    assert_eq!(transfer.amount, request.amount());
                    let ok = !self.failing.contains(&transfer.from);
                    if ok {
                        self.transfers.push(transfer);
                    }
                    request.resume(ok)
                },
                Progress::Record(request) => {
                    self.locked.insert(request.relayer(), request.locked_collateral());
                    self.reports.push(request.report());
                    request.resume()
                },
                Progress::Reward(request) => {
                    assert_eq!(request.lane(), LANE);
                    self.rewards.push((request.nonce(), request.item().clone()));
                    request.resume()
                },
            };
        }
    }
}

fn order_of_three(nonce: MessageNonce, confirm_time: Option<BlockNumber>) -> Order {
    let mut order = Order::new(
        LANE,
        nonce,
        100,
        100,
        vec![Relayer::new(1, 100, 30), Relayer::new(2, 100, 50), Relayer::new(3, 100, 100)],
        50,
    );
    order.set_confirm_time(confirm_time);
    order
}

fn delivered(relayer: AccountId, begin: MessageNonce, end: MessageNonce) -> UnrewardedRelayer {
    UnrewardedRelayer { relayer, messages: DeliveredMessages { begin, end } }
}

fn ledger_with_three(now: BlockNumber) -> Ledger {
    let mut ledger = Ledger::new(now);
    ledger.locked.insert(1, 100);
    ledger.locked.insert(2, 110);
    ledger.locked.insert(3, 120);
    ledger
}

#[test]
fn settlement_in_first_slot_slashes_nobody() {
    let mut ledger = ledger_with_three(500);
    ledger.orders.insert(1, order_of_three(1, Some(120)));
    let start =
        slash_and_calculate_rewards(config(None), LANE, vec![delivered(7, 1, 1)], 8, 1, 1, FUND);
    let book = ledger.run(start);

    // the price of the first slot is 30, of the fee of 100 there are 70 left:
    // 60% of 70 is 42, 14 for each of the three guards, and 28 for the treasury
    let mut guards = BTreeMap::new();
    guards.insert(1, 14);
    guards.insert(2, 14);
    guards.insert(3, 14);
    let item = RewardItem {
        to_assigned_relayers: guards.clone(),
        to_treasury: Some(28),
        to_message_relayer: Some((7, 24)),
        to_confirm_relayer: Some((8, 6)),
    };
    assert_eq!(ledger.rewards, vec![(1, item)]);
    assert!(ledger.transfers.is_empty());
    assert!(ledger.reports.is_empty());
    let mut deliver = BTreeMap::new();
    deliver.insert(7, 24);
    assert_eq!(
        book,
        RewardsBook {
            deliver_sum: deliver,
            confirm_sum: 6,
            assigned_relayers_sum: guards,
            treasury_sum: 28,
        }
    );
}

#[test]
fn settlement_in_second_slot_slashes_the_first_relayer() {
    let mut ledger = ledger_with_three(500);
    ledger.orders.insert(1, order_of_three(1, Some(150)));
    let start =
        slash_and_calculate_rewards(config(None), LANE, vec![delivered(7, 1, 1)], 8, 1, 1, FUND);
    let book = ledger.run(start);

    // relayer 1 loses 20% of 100; the reward to share is 50 + 20
    assert_eq!(
        ledger.transfers,
        vec![Transfer {
            from: 1,
            to: FUND,
            amount: 20,
            existence_requirement: ExistenceRequirement::AllowDeath,
        }]
    );
    assert_eq!(ledger.locked(1), 80);
    assert_eq!(
        ledger.reports,
        vec![SlashReport {
            lane: LANE,
            message: 1,
            sent_time: 100,
            confirm_time: Some(150),
            delay_time: None,
            account_id: 1,
            amount: 20,
        }]
    );
    // of the fee of 100 there are 50 left: 60% are 30, 15 for each of the two guards
    let mut guards = BTreeMap::new();
    guards.insert(2, 15);
    guards.insert(3, 15);
    assert_eq!(book.assigned_relayers_sum, guards);
    assert_eq!(book.treasury_sum, 20);
    assert_eq!(book.deliver_sum.get(&7), Some(&56));
    assert_eq!(book.confirm_sum, 14);
}

#[test]
fn settlement_of_expired_order_slashes_everyone() {
    let mut ledger = ledger_with_three(500);
    ledger.orders.insert(1, order_of_three(1, Some(260)));
    let start =
        slash_and_calculate_rewards(config(None), LANE, vec![delivered(7, 1, 1)], 8, 1, 1, FUND);
    let book = ledger.run(start);

    // the delay is 10 blocks, 2 a block: 20 + 20, 22 + 20 and 24 + 20
    let amounts: Vec<Balance> = ledger.transfers.iter().map(|t| t.amount).collect();
    assert_eq!(amounts, vec![40, 42, 44]);
    assert_eq!(ledger.reports.len(), 3);
    assert_eq!(ledger.reports[0].delay_time, Some(10));
    assert_eq!((ledger.locked(1), ledger.locked(2), ledger.locked(3)), (60, 68, 76));
    let (nonce, item) = &ledger.rewards[0];
    assert_eq!(*nonce, 1);
    assert_eq!(item.to_treasury, None);
    assert!(item.to_assigned_relayers.is_empty());
    // the reward to share is the fee plus the slashes: 100 + 126
    assert_eq!(item.to_message_relayer, Some((7, 181)));
    assert_eq!(item.to_confirm_relayer, Some((8, 45)));
    assert_eq!(book.treasury_sum, 0);
    assert!(book.assigned_relayers_sum.is_empty());
    assert_eq!(book.confirm_sum, 45);
}

#[test]
fn slash_protect_limits_the_slash_of_an_expired_order() {
    let mut ledger = ledger_with_three(500);
    ledger.orders.insert(1, order_of_three(1, Some(260)));
    let start = slash_and_calculate_rewards(
        config(Some(41)),
        LANE,
        vec![delivered(7, 1, 1)],
        8,
        1,
        1,
        FUND,
    );
    ledger.run(start);

    let amounts: Vec<Balance> = ledger.transfers.iter().map(|t| t.amount).collect();
    assert_eq!(amounts, vec![40, 41, 41]);
}

#[test]
fn slash_never_exceeds_the_locked_collateral() {
    let mut ledger = ledger_with_three(500);
    ledger.locked.insert(2, 5);
    ledger.orders.insert(1, order_of_three(1, Some(1260)));
    let start =
        slash_and_calculate_rewards(config(None), LANE, vec![delivered(7, 1, 1)], 8, 1, 1, FUND);
    ledger.run(start);

    let amounts: Vec<Balance> = ledger.transfers.iter().map(|t| t.amount).collect();
    assert_eq!(amounts, vec![100, 5, 120]);
    assert_eq!((ledger.locked(1), ledger.locked(2), ledger.locked(3)), (0, 0, 0));
}

#[test]
fn failed_transfer_collects_nothing() {
    let mut ledger = ledger_with_three(500);
    ledger.failing.push(1);
    ledger.orders.insert(1, order_of_three(1, Some(210)));
    let start =
        slash_and_calculate_rewards(config(None), LANE, vec![delivered(7, 1, 1)], 8, 1, 1, FUND);
    let book = ledger.run(start);

    // relayer 1 keeps its collateral and the report says zero; relayer 2 loses 22
    assert_eq!(ledger.locked(1), 100);
    assert_eq!(ledger.locked(2), 88);
    let reported: Vec<(AccountId, Balance)> =
        ledger.reports.iter().map(|r| (r.account_id, r.amount)).collect();
    assert_eq!(reported, vec![(1, 0), (2, 22)]);
    // the third slot costs 100, nothing of the fee is left: the reward to share is 100 + 22
    let mut guards = BTreeMap::new();
    guards.insert(3, 0);
    assert_eq!(book.assigned_relayers_sum, guards);
    assert_eq!(book.treasury_sum, 0);
    assert_eq!(book.deliver_sum.get(&7), Some(&98));
    assert_eq!(book.confirm_sum, 24);
}

#[test]
fn unconfirmed_order_counts_as_confirmed_now() {
    let mut ledger = ledger_with_three(160);
    ledger.orders.insert(1, order_of_three(1, None));
    let start =
        slash_and_calculate_rewards(config(None), LANE, vec![delivered(7, 1, 1)], 8, 1, 1, FUND);
    ledger.run(start);

    let slashed: Vec<AccountId> = ledger.transfers.iter().map(|t| t.from).collect();
    assert_eq!(slashed, vec![1]);
}

#[test]
fn settlement_visits_the_received_nonces_of_each_entry() {
    let mut ledger = ledger_with_three(500);
    ledger.orders.insert(4, order_of_three(4, Some(120)));
    ledger.orders.insert(6, order_of_three(6, Some(120)));
    let entries =
        vec![delivered(7, 1, 4), delivered(9, 20, 30), delivered(8, 5, 5), delivered(7, 6, 9)];
    let start = slash_and_calculate_rewards(config(None), LANE, entries, 8, 3, 7, FUND);
    let book = ledger.run(start);

    assert_eq!(ledger.asked, vec![3, 4, 5, 6, 7]);
    let settled: Vec<MessageNonce> = ledger.rewards.iter().map(|r| r.0).collect();
    assert_eq!(settled, vec![4, 6]);
    assert_eq!(book.deliver_sum.get(&7), Some(&48));
    assert_eq!(book.confirm_sum, 12);
    assert_eq!(book.treasury_sum, 56);
}

#[test]
fn settlement_of_nothing_is_finished_at_once() {
    let start = slash_and_calculate_rewards(config(None), LANE, vec![], 8, 1, 5, FUND);
    assert!(matches!(start, Progress::Finished(book) if book == RewardsBook::new()));

    let start =
        slash_and_calculate_rewards(config(None), LANE, vec![delivered(7, 6, 9)], 8, 1, 5, FUND);
    assert!(matches!(start, Progress::Finished(_)));
}

#[test]
fn settlement_reaches_the_last_nonce_there_is() {
    let mut ledger = ledger_with_three(500);
    let last = MessageNonce::MAX;
    let start = slash_and_calculate_rewards(
        config(None),
        LANE,
        vec![delivered(7, last - 1, last)],
        8,
        0,
        last,
        FUND,
    );
    ledger.run(start);

    assert_eq!(ledger.asked, vec![last - 1, last]);
}

struct ThreePerBlock;

impl Slasher for ThreePerBlock {
    fn cal_slash_amount(locked_collateral: Balance, delay: BlockNumber) -> Balance {
        assert_eq!(locked_collateral, 100);
        3 * Balance::from(delay)
    }
}

#[test]
fn slasher_is_asked_for_the_order_and_its_delay() {
    let order = order_of_three(1, Some(260));
    let start =
        slash_and_calculate_rewards(config(None), LANE, vec![delivered(7, 1, 1)], 8, 1, 1, FUND);
    let Progress::Order(request) = start else { panic!("an order is asked for first") };
    let Progress::Assessment(request) = request.resume(Some(order), 500) else {
        panic!("the order has expired")
    };
    assert_eq!(request.relayer(), 1);
    assert_eq!(request.locked_collateral(), 100);
    assert_eq!(request.delay(), 10);
    let Progress::Slash(request) = request.resume_with::<ThreePerBlock>(110) else {
        panic!("a slash is asked for")
    };
    // 20% of 110 and 3 for each of 10 blocks
    assert_eq!(request.amount(), 52);
}
