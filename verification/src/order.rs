//! Orders: the schedule of relayers assigned to one message.

use crate::relayer::{AccountId, Balance, Relayer};
use core::ops::Range;
use vstd::prelude::*;

verus! {

/// Time, counted in blocks.
pub type BlockNumber = u32;

/// Identifier of a lane between two chains.
pub type LaneId = [u8; 4];

/// Sequence number of a message within a lane.
pub type MessageNonce = u64;

/// A relayer assigned to an order, with the slot in which the delivery is its duty.
#[derive(Debug, Default, PartialEq, Eq)]
pub struct PriorRelayer {
    pub id: AccountId,
    pub fee: Balance,
    pub valid_range: Range<BlockNumber>,
}

impl Clone for PriorRelayer {
    fn clone(&self) -> (r: PriorRelayer)
        ensures
            r == *self,
    {
        PriorRelayer {
            id: self.id,
            fee: self.fee,
            valid_range: Range { start: self.valid_range.start, end: self.valid_range.end },
        }
    }
}

impl PriorRelayer {
    /// The relayer `id` with its slot: `slot_time` blocks from `start_time` on.
    pub fn new(id: AccountId, fee: Balance, start_time: BlockNumber, slot_time: BlockNumber) -> (r:
        PriorRelayer)
        requires
            start_time + slot_time <= BlockNumber::MAX,
        ensures
            r.id == id,
            r.fee == fee,
            r.valid_range.start == start_time,
            r.valid_range.end == start_time + slot_time,
            r == prior_relayer(id, fee, start_time as int, slot_time as int),
    {
        PriorRelayer { id, fee, valid_range: Range { start: start_time, end: start_time + slot_time } }
    }

    /// Whether `time` falls into the slot, which is half-open.
    pub open spec fn covers(&self, time: BlockNumber) -> bool {
        self.valid_range.start <= time < self.valid_range.end
    }
}

/// The assigned relayer whose slot starts at `start_time` and lasts `slot_time`.
pub open spec fn prior_relayer(id: AccountId, fee: Balance, start_time: int, slot_time: int) -> PriorRelayer {
    PriorRelayer {
        id,
        fee,
        valid_range: Range {
            start: start_time as BlockNumber,
            end: (start_time + slot_time) as BlockNumber,
        },
    }
}

/// The schedule of `relayers`, in their order: the one at position `i` gets the `i`-th slot
/// of length `slot` after `sent_time`.
pub open spec fn schedule(sent_time: BlockNumber, slot: BlockNumber, relayers: Seq<Relayer>) -> Seq<
    PriorRelayer,
> {
    Seq::new(
        relayers.len(),
        |i: int| prior_relayer(relayers[i].id, relayers[i].fee, sent_time + i * slot, slot as int),
    )
}

/// The position of the first slot at or after position `from` that covers `time`.
pub open spec fn first_covering(relayers: Seq<PriorRelayer>, time: BlockNumber, from: int) -> Option<
    int,
>
    decreases relayers.len() - from,
{
    if from < 0 || from >= relayers.len() {
        None
    } else if relayers[from].covers(time) {
        Some(from)
    } else {
        first_covering(relayers, time, from + 1)
    }
}

/// The position of the first of `relayers` at or after position `from` with the identity
/// `id`.
pub open spec fn first_with_id(relayers: Seq<PriorRelayer>, id: AccountId, from: int) -> Option<int>
    decreases relayers.len() - from,
{
    if from < 0 || from >= relayers.len() {
        None
    } else if relayers[from].id == id {
        Some(from)
    } else {
        first_with_id(relayers, id, from + 1)
    }
}

/// Order represents a cross-chain message relay task.
#[derive(Debug, Default, PartialEq, Eq)]
pub struct Order {
    pub lane: LaneId,
    pub message: MessageNonce,
    pub sent_time: BlockNumber,
    pub confirm_time: Option<BlockNumber>,
    pub locked_collateral: Balance,
    pub relayers: Vec<PriorRelayer>,
}

/// What an [`Order`] holds, as mathematical values.
pub struct OrderView {
    pub lane: LaneId,
    pub message: MessageNonce,
    pub sent_time: BlockNumber,
    pub confirm_time: Option<BlockNumber>,
    pub locked_collateral: Balance,
    pub relayers: Seq<PriorRelayer>,
}

impl View for Order {
    type V = OrderView;

    open spec fn view(&self) -> OrderView {
        OrderView {
            lane: self.lane,
            message: self.message,
            sent_time: self.sent_time,
            confirm_time: self.confirm_time,
            locked_collateral: self.locked_collateral,
            relayers: self.relayers@,
        }
    }
}

impl OrderView {
    /// The fee of the order: that of the last assigned relayer, zero if there is none.
    pub open spec fn fee(self) -> Balance {
        if self.relayers.len() == 0 {
            0
        } else {
            self.relayers.last().fee
        }
    }

    /// The end of the last slot.
    pub open spec fn range_end(self) -> Option<BlockNumber> {
        if self.relayers.len() == 0 {
            None
        } else {
            Some(self.relayers.last().valid_range.end)
        }
    }

    /// By how much the confirmation came after the end of the last slot.
    pub open spec fn delivery_delay(self) -> Option<BlockNumber> {
        match (self.confirm_time, self.range_end()) {
            (Some(confirm_time), Some(range_end)) if confirm_time > range_end => Some(
                (confirm_time - range_end) as BlockNumber,
            ),
            _ => None,
        }
    }

    /// The position of the first slot that covers `time`.
    pub open spec fn slot_at(self, time: BlockNumber) -> Option<int> {
        first_covering(self.relayers, time, 0)
    }

    /// Every slot starts where the one before it ends, the first at `sent_time`, and each
    /// lasts `slot`.
    pub open spec fn contiguous(self, slot: BlockNumber) -> bool {
        forall|i: int|
            0 <= i < self.relayers.len() ==> {
                &&& (#[trigger] self.relayers[i]).valid_range.start == self.sent_time + i * slot
                &&& self.relayers[i].valid_range.end == self.sent_time + (i + 1) * slot
            }
    }
}

impl Clone for Order {
    fn clone(&self) -> (r: Order)
        ensures
            r@ == self@,
    {
        let mut relayers: Vec<PriorRelayer> = Vec::with_capacity(self.relayers.len());
        let mut i: usize = 0;
        while i < self.relayers.len()
            invariant
                i <= self.relayers.len(),
                relayers@ == self.relayers@.take(i as int),
            decreases self.relayers.len() - i,
        {
            relayers.push(self.relayers[i].clone());
            i += 1;
            assert(relayers@ == self.relayers@.take(i as int));
        }
        assert(relayers@ == self.relayers@);
        Order {
            lane: self.lane,
            message: self.message,
            sent_time: self.sent_time,
            confirm_time: self.confirm_time,
            locked_collateral: self.locked_collateral,
            relayers,
        }
    }
}

impl Order {
    /// Assigns the relayers, best ranked first, to consecutive slots of length `slot`
    /// that start at `sent_time`.
    pub fn new(
        lane: LaneId,
        message: MessageNonce,
        sent_time: BlockNumber,
        locked_collateral: Balance,
        assigned_relayers: Vec<Relayer>,
        slot: BlockNumber,
    ) -> (order: Order)
        requires
            sent_time + assigned_relayers.len() * slot <= BlockNumber::MAX,
        ensures
            order@ == (OrderView {
                lane,
                message,
                sent_time,
                confirm_time: None,
                locked_collateral,
                relayers: schedule(sent_time, slot, assigned_relayers@),
            }),
            order@.contiguous(slot),
            order@.fee() == if assigned_relayers.len() == 0 {
                0
            } else {
                assigned_relayers@.last().fee
            },
    {
        let prior_relayers_len = assigned_relayers.len();
        let mut relayers: Vec<PriorRelayer> = Vec::with_capacity(prior_relayers_len);
        let mut start_time = sent_time;
        let mut i: usize = 0;
        while i < prior_relayers_len
            invariant
                prior_relayers_len == assigned_relayers.len(),
                i <= prior_relayers_len,
                sent_time + prior_relayers_len * slot <= BlockNumber::MAX,
                start_time == sent_time + i * slot,
                relayers@ == schedule(sent_time, slot, assigned_relayers@).take(i as int),
            decreases prior_relayers_len - i,
        {
            proof {
                lemma_slot_within(i as int, prior_relayers_len as int, slot as int);
            }
            let r = &assigned_relayers[i];
            let p = PriorRelayer::new(r.id, r.fee, start_time, slot);
            start_time += slot;
            relayers.push(p);
            i += 1;
            assert(relayers@ == schedule(sent_time, slot, assigned_relayers@).take(i as int));
        }
        assert(relayers@ == schedule(sent_time, slot, assigned_relayers@));
        let order = Order { lane, message, sent_time, confirm_time: None, locked_collateral, relayers };
        proof {
            lemma_schedule_contiguous(sent_time, slot, assigned_relayers@);
        }
        order
    }

    /// Records when the delivery was confirmed.
    pub fn set_confirm_time(&mut self, confirm_time: Option<BlockNumber>)
        ensures
            final(self)@ == (OrderView { confirm_time, ..old(self)@ }),
    {
        self.confirm_time = confirm_time;
    }

    /// The assigned relayers with their slots, in the order of the slots.
    pub fn relayers_slice(&self) -> (r: &[PriorRelayer])
        ensures
            r@ == self@.relayers,
    {
        self.relayers.as_slice()
    }

    /// The fee of the order: that of the last assigned relayer, zero if there is none.
    pub fn fee(&self) -> (r: Balance)
        ensures
            r == self@.fee(),
    {
        let n = self.relayers.len();
        if n == 0 {
            0
        } else {
            self.relayers[n - 1].fee
        }
    }

    /// Whether the delivery was confirmed.
    pub fn is_confirmed(&self) -> (r: bool)
        ensures
            r == self@.confirm_time.is_some(),
    {
        self.confirm_time.is_some()
    }

    /// The end of the last slot, if there is one.
    pub fn range_end(&self) -> (r: Option<BlockNumber>)
        ensures
            r == self@.range_end(),
    {
        let n = self.relayers.len();
        if n == 0 {
            None
        } else {
            Some(self.relayers[n - 1].valid_range.end)
        }
    }

    /// By how much the confirmation came after the end of the last slot, if it did.
    pub fn delivery_delay(&self) -> (r: Option<BlockNumber>)
        ensures
            r == self@.delivery_delay(),
    {
        if let (Some(confirm_time), Some(range_end)) = (self.confirm_time, self.range_end()) {
            if confirm_time > range_end {
                return Some(confirm_time - range_end);
            }
        }
        None
    }

    /// The position and the fee of the relayer in whose slot `message_confirm_time` falls.
    pub fn confirmed_assigned_relayer_info(&self, message_confirm_time: BlockNumber) -> (r: Option<
        (usize, Balance),
    >)
        ensures
            r is Some <==> self@.slot_at(message_confirm_time) is Some,
            r matches Some((k, fee)) ==> {
                &&& self@.slot_at(message_confirm_time) == Some(k as int)
                &&& k < self@.relayers.len()
                &&& fee == self@.relayers[k as int].fee
            },
    {
        let mut i: usize = 0;
        while i < self.relayers.len()
            invariant
                i <= self.relayers.len(),
                first_covering(self.relayers@, message_confirm_time, 0) == first_covering(
                    self.relayers@,
                    message_confirm_time,
                    i as int,
                ),
            decreases self.relayers.len() - i,
        {
            let prior_relayer = &self.relayers[i];
            if prior_relayer.valid_range.start <= message_confirm_time && message_confirm_time
                < prior_relayer.valid_range.end {
                return Some((i, prior_relayer.fee));
            }
            i += 1;
        }
        None
    }

    /// The relayer in whose slot `message_confirm_time` falls, with its fee.
    pub fn required_delivery_relayer_for_time(&self, message_confirm_time: BlockNumber) -> (r:
        Option<(AccountId, Balance)>)
        ensures
            match self@.slot_at(message_confirm_time) {
                Some(k) => r == Some((self@.relayers[k].id, self@.relayers[k].fee)),
                None => r is None,
            },
    {
        match self.confirmed_assigned_relayer_info(message_confirm_time) {
            Some((k, fee)) => Some((self.relayers[k].id, fee)),
            None => None,
        }
    }

    /// The slot of the first assigned relayer with the identity `id`.
    pub fn relayer_valid_range(&self, id: AccountId) -> (r: Option<Range<BlockNumber>>)
        ensures
            match first_with_id(self@.relayers, id, 0) {
                Some(k) => r == Some(self@.relayers[k].valid_range),
                None => r is None,
            },
    {
        let mut i: usize = 0;
        while i < self.relayers.len()
            invariant
                i <= self.relayers.len(),
                first_with_id(self.relayers@, id, 0) == first_with_id(self.relayers@, id, i as int),
            decreases self.relayers.len() - i,
        {
            let prior_relayer = &self.relayers[i];
            if prior_relayer.id == id {
                return Some(
                    Range { start: prior_relayer.valid_range.start, end: prior_relayer.valid_range.end },
                );
            }
            i += 1;
        }
        None
    }
}

/// The detail of one slash.
#[derive(Debug, PartialEq, Eq)]
pub struct SlashReport {
    pub lane: LaneId,
    pub message: MessageNonce,
    pub sent_time: BlockNumber,
    pub confirm_time: Option<BlockNumber>,
    pub delay_time: Option<BlockNumber>,
    pub account_id: AccountId,
    pub amount: Balance,
}

impl Clone for SlashReport {
    fn clone(&self) -> (r: SlashReport)
        ensures
            r == *self,
    {
        SlashReport {
            lane: self.lane,
            message: self.message,
            sent_time: self.sent_time,
            confirm_time: self.confirm_time,
            delay_time: self.delay_time,
            account_id: self.account_id,
            amount: self.amount,
        }
    }
}

/// The report of a slash of `amount` from `account_id` for `order`.
pub open spec fn slash_report(order: OrderView, account_id: AccountId, amount: Balance) -> SlashReport {
    SlashReport {
        lane: order.lane,
        message: order.message,
        sent_time: order.sent_time,
        confirm_time: order.confirm_time,
        delay_time: order.delivery_delay(),
        account_id,
        amount,
    }
}

impl SlashReport {
    /// The report of a slash of `amount` from `account_id` for `order`.
    pub fn new(order: &Order, account_id: AccountId, amount: Balance) -> (r: SlashReport)
        ensures
            r == slash_report(order@, account_id, amount),
    {
        SlashReport {
            lane: order.lane,
            message: order.message,
            sent_time: order.sent_time,
            confirm_time: order.confirm_time,
            delay_time: order.delivery_delay(),
            account_id,
            amount,
        }
    }
}

/// Slot `i` of `n` ends no later than the last one.
proof fn lemma_slot_within(i: int, n: int, slot: int)
    requires
        0 <= i < n,
        0 <= slot,
    ensures
        0 <= i * slot,
        (i + 1) * slot == i * slot + slot,
        (i + 1) * slot <= n * slot,
{
    assert((i + 1) * slot == i * slot + slot) by (nonlinear_arith);
    assert(0 <= i * slot) by (nonlinear_arith)
        requires
            0 <= i,
            0 <= slot,
    ;
    assert((i + 1) * slot <= n * slot) by (nonlinear_arith)
        requires
            i + 1 <= n,
            0 <= slot,
    ;
}

/// The slots of a schedule that fits into the range of block numbers are contiguous, do
/// not overlap and come in the order of the relayers: each one ends where the next starts,
/// `i + 1` slot lengths after `sent_time`.
pub proof fn lemma_schedule_contiguous(sent_time: BlockNumber, slot: BlockNumber, relayers: Seq<Relayer>)
    requires
        sent_time + relayers.len() * slot <= BlockNumber::MAX,
    ensures
        schedule(sent_time, slot, relayers).len() == relayers.len(),
        forall|i: int|
            0 <= i < relayers.len() ==> {
                let w = #[trigger] schedule(sent_time, slot, relayers)[i];
                &&& w.id == relayers[i].id
                &&& w.fee == relayers[i].fee
                &&& w.valid_range.start == sent_time + i * slot
                &&& w.valid_range.end == sent_time + (i + 1) * slot
            },
        forall|i: int|
            0 <= i < relayers.len() - 1 ==> (#[trigger] schedule(
                sent_time,
                slot,
                relayers,
            )[i]).valid_range.end == schedule(sent_time, slot, relayers)[i + 1].valid_range.start,
        forall|i: int, j: int|
            0 <= i < j < relayers.len() ==> (#[trigger] schedule(
                sent_time,
                slot,
                relayers,
            )[i]).valid_range.end <= (#[trigger] schedule(
                sent_time,
                slot,
                relayers,
            )[j]).valid_range.start,
{
    let s = schedule(sent_time, slot, relayers);
    assert forall|i: int| 0 <= i < relayers.len() implies {
        let w = #[trigger] s[i];
        &&& w.valid_range.start == sent_time + i * slot
        &&& w.valid_range.end == sent_time + (i + 1) * slot
    } by {
        lemma_slot_within(i, relayers.len() as int, slot as int);
    }
    assert forall|i: int| 0 <= i < relayers.len() - 1 implies (#[trigger] s[i]).valid_range.end
        == s[i + 1].valid_range.start by {
        lemma_slot_within(i, relayers.len() as int, slot as int);
        lemma_slot_within(i + 1, relayers.len() as int, slot as int);
    }
    assert forall|i: int, j: int| 0 <= i < j < relayers.len() implies (#[trigger] s[i]).valid_range.end
        <= (#[trigger] s[j]).valid_range.start by {
        lemma_slot_within(i, j, slot as int);
    }
}

/// In an order whose slots are contiguous and not empty, a time from `sent_time` up to
/// the end of the last slot falls into the slot whose number is the time that has
/// passed, divided by the length of a slot; any other time falls into none.
pub proof fn lemma_slot_at(order: OrderView, slot: BlockNumber, time: BlockNumber)
    requires
        order.contiguous(slot),
        slot > 0,
    ensures
        order.slot_at(time) == if order.sent_time <= time < order.sent_time + order.relayers.len()
            * slot {
            Some((time - order.sent_time) / (slot as int))
        } else {
            None
        },
{
    lemma_first_covering(order.relayers, time, 0);
    let n = order.relayers.len() as int;
    let d = slot as int;
    let t = time - order.sent_time;
    if 0 <= t < n * d {
        let k = t / d;
        assert(0 <= k < n && k * d <= t < (k + 1) * d) by (nonlinear_arith)
            requires
                0 <= t < n * d,
                d > 0,
                k == t / d,
        ;
        assert(order.relayers[k].covers(time));
        match order.slot_at(time) {
            Some(j) => {
                assert(order.relayers[j].covers(time));
                assert(j == k) by (nonlinear_arith)
                    requires
                        j * d <= t < (j + 1) * d,
                        k * d <= t < (k + 1) * d,
                        d > 0,
                ;
            },
            None => {},
        }
    } else {
        match order.slot_at(time) {
            Some(j) => {
                assert(order.relayers[j].covers(time));
                assert(false) by (nonlinear_arith)
                    requires
                        0 <= j < n,
                        j * d <= t < (j + 1) * d,
                        d > 0,
                        !(0 <= t < n * d),
                ;
            },
            None => {},
        }
    }
}

/// What `first_covering` finds: the least position at or after `from` whose slot covers
/// `time`.
pub proof fn lemma_first_covering(relayers: Seq<PriorRelayer>, time: BlockNumber, from: int)
    requires
        0 <= from,
    ensures
        match first_covering(relayers, time, from) {
            Some(k) => {
                &&& from <= k < relayers.len()
                &&& relayers[k].covers(time)
                &&& forall|j: int| from <= j < k ==> !(#[trigger] relayers[j]).covers(time)
            },
            None => forall|j: int| from <= j < relayers.len() ==> !(#[trigger] relayers[j]).covers(time),
        },
    decreases relayers.len() - from,
{
    if from < relayers.len() && !relayers[from].covers(time) {
        lemma_first_covering(relayers, time, from + 1);
    }
}

} // verus!
