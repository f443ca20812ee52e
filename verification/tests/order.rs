use fee_market::order::{BlockNumber, LaneId, MessageNonce, Order};
use fee_market::relayer::{AccountId, Balance, Relayer};

const TEST_LANE_ID: LaneId = [0, 0, 0, 1];
const TEST_MESSAGE_NONCE: MessageNonce = 0;

fn relayers_with_fee_30(n: AccountId) -> Vec<Relayer> {
    (1..=n).map(|id| Relayer::new(id, 100, 30)).collect()
}

#[test]
fn relayer_ord_should_work() {
    let mut relayers = vec![
        Relayer::new(1, 100, 30),
        Relayer::new(2, 100, 40),
        Relayer::new(3, 150, 30),
        Relayer::new(4, 100, 30),
    ];

    relayers.sort_by(|a, b| a.cmp(b));

    assert_eq!(relayers.into_iter().map(|r| r.id).collect::<Vec<_>>(), vec![3, 1, 4, 2]);
}

#[test]
fn test_assign_order_relayers_one() {
    let order = Order::new(
        TEST_LANE_ID,
        TEST_MESSAGE_NONCE,
        100,
        100,
        vec![Relayer::new(1, 100, 30)],
        50,
    );

    assert_eq!(order.relayer_valid_range(1).unwrap(), (100..150));
}

#[test]
fn test_assign_order_relayers_two() {
    let order = Order::new(
        TEST_LANE_ID,
        TEST_MESSAGE_NONCE,
        100,
        100,
        vec![Relayer::new(1, 100, 30), Relayer::new(2, 100, 30)],
        50,
    );

    assert_eq!(order.relayer_valid_range(1).unwrap(), (100..150));
    assert_eq!(order.relayer_valid_range(2).unwrap(), (150..200));
}

#[test]
fn test_assign_order_relayers_three() {
    let order = Order::new(
        TEST_LANE_ID,
        TEST_MESSAGE_NONCE,
        100,
        100,
        vec![Relayer::new(1, 100, 30), Relayer::new(2, 100, 40), Relayer::new(3, 100, 80)],
        50,
    );

    assert_eq!(order.relayer_valid_range(1).unwrap(), (100..150));
    assert_eq!(order.relayer_valid_range(2).unwrap(), (150..200));
    assert_eq!(order.relayer_valid_range(3).unwrap(), (200..250));
    assert_eq!(order.range_end(), Some(250));
    assert_eq!(order.fee(), 80);
}

#[test]
fn test_assign_order_relayers_four() {
    let order = Order::new(TEST_LANE_ID, TEST_MESSAGE_NONCE, 100, 100, relayers_with_fee_30(4), 50);

    assert_eq!(order.relayer_valid_range(1).unwrap(), (100..150));
    assert_eq!(order.relayer_valid_range(2).unwrap(), (150..200));
    assert_eq!(order.relayer_valid_range(3).unwrap(), (200..250));
    assert_eq!(order.relayer_valid_range(4).unwrap(), (250..300));
}

#[test]
fn order_without_relayers_has_no_range() {
    let order = Order::new(TEST_LANE_ID, TEST_MESSAGE_NONCE, 100, 100, vec![], 50);
    let time: BlockNumber = 100;
    let fee: Balance = 0;

    assert_eq!(order.fee(), fee);
    assert_eq!(order.range_end(), None);
    assert_eq!(order.required_delivery_relayer_for_time(time), None);
}

#[test]
fn relayers_rank_by_fee_then_by_collateral() {
    let mut relayers =
        vec![Relayer::new(1, 100, 30), Relayer::new(2, 100, 40), Relayer::new(3, 150, 30)];

    relayers.sort_by(|a, b| a.cmp(b));

    assert_eq!(relayers.into_iter().map(|r| r.id).collect::<Vec<_>>(), vec![3, 1, 2]);
}

#[test]
fn relayer_comparison_operators_follow_the_ranking() {
    let cheap = Relayer::new(1, 100, 30);
    let dear = Relayer::new(2, 500, 40);
    let rich = Relayer::new(3, 150, 30);
    let twin = Relayer::new(4, 100, 30);

    assert!(cheap < dear);
    assert!(rich < cheap);
    assert!(dear > rich);
    assert_eq!(cheap.partial_cmp(&twin), Some(std::cmp::Ordering::Equal));
    assert_eq!(cheap.cmp(&twin), std::cmp::Ordering::Equal);
    assert_eq!(dear.cmp(&cheap), std::cmp::Ordering::Greater);
    assert_ne!(cheap, twin);
    assert_eq!(cheap, cheap.clone());
}

#[test]
fn order_slots_are_contiguous() {
    let order = Order::new(TEST_LANE_ID, TEST_MESSAGE_NONCE, 100, 100, relayers_with_fee_30(4), 50);
    let slots = order.relayers_slice();

    assert_eq!(slots.len(), 4);
    for i in 0..4 {
        assert_eq!(slots[i].valid_range.start, 100 + 50 * i as BlockNumber);
        assert_eq!(slots[i].valid_range.end, 100 + 50 * (i as BlockNumber + 1));
        assert_eq!(slots[i].id, i as AccountId + 1);
    }
    assert_eq!(order.range_end(), Some(300));
    assert_eq!(order.fee(), 30);
    assert_eq!(order.confirm_time, None);
    assert_eq!(order.locked_collateral, 100);
}

#[test]
fn order_may_end_at_the_last_block() {
    let order = Order::new(
        TEST_LANE_ID,
        TEST_MESSAGE_NONCE,
        BlockNumber::MAX - 100,
        100,
        relayers_with_fee_30(2),
        50,
    );

    assert_eq!(order.range_end(), Some(BlockNumber::MAX));
}

#[test]
fn confirm_time_decides_the_delay() {
    let mut order =
        Order::new(TEST_LANE_ID, TEST_MESSAGE_NONCE, 100, 100, relayers_with_fee_30(2), 50);
    assert!(!order.is_confirmed());
    assert_eq!(order.delivery_delay(), None);

    order.set_confirm_time(Some(199));
    assert!(order.is_confirmed());
    assert_eq!(order.delivery_delay(), None);

    order.set_confirm_time(Some(200));
    assert_eq!(order.delivery_delay(), None);

    order.set_confirm_time(Some(230));
    assert_eq!(order.delivery_delay(), Some(30));

    order.set_confirm_time(None);
    assert!(!order.is_confirmed());
}

#[test]
fn slot_of_a_time_is_half_open() {
    let order = Order::new(
        TEST_LANE_ID,
        TEST_MESSAGE_NONCE,
        100,
        100,
        vec![Relayer::new(5, 100, 30), Relayer::new(6, 100, 40)],
        50,
    );

    assert_eq!(order.required_delivery_relayer_for_time(99), None);
    assert_eq!(order.required_delivery_relayer_for_time(100), Some((5, 30)));
    assert_eq!(order.required_delivery_relayer_for_time(149), Some((5, 30)));
    assert_eq!(order.required_delivery_relayer_for_time(150), Some((6, 40)));
    assert_eq!(order.required_delivery_relayer_for_time(200), None);
    assert_eq!(order.confirmed_assigned_relayer_info(100), Some((0, 30)));
    assert_eq!(order.confirmed_assigned_relayer_info(199), Some((1, 40)));
    assert_eq!(order.confirmed_assigned_relayer_info(200), None);
    assert_eq!(order.relayer_valid_range(7), None);
}

#[test]
fn first_matching_relayer_is_found() {
    let order = Order::new(
        TEST_LANE_ID,
        TEST_MESSAGE_NONCE,
        100,
        100,
        vec![Relayer::new(5, 100, 30), Relayer::new(5, 100, 40)],
        0,
    );

    assert_eq!(order.relayer_valid_range(5), Some(100..100));
    assert_eq!(order.required_delivery_relayer_for_time(100), None);
    assert_eq!(order.clone(), order);
}

#[test]
fn slash_report_copies_the_order() {
    let mut order = Order::new(TEST_LANE_ID, 9, 100, 100, relayers_with_fee_30(2), 50);
    order.set_confirm_time(Some(230));

    let report = fee_market::order::SlashReport::new(&order, 2, 17);

    assert_eq!(report.lane, TEST_LANE_ID);
    assert_eq!(report.message, 9);
    assert_eq!(report.sent_time, 100);
    assert_eq!(report.confirm_time, Some(230));
    assert_eq!(report.delay_time, Some(30));
    assert_eq!(report.account_id, 2);
    assert_eq!(report.amount, 17);
    assert_eq!(report.clone(), report);
}
