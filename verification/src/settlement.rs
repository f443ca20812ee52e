//! The settlement of a batch of delivered messages, one request to the ledger at a time.
//!
//! [`slash_and_calculate_rewards`] starts a settlement and hands back its [`Progress`]:
//! either the finished [`RewardsBook`] or the next thing that the settlement needs from
//! the ledger. Each such request is a value of its own type, which says what is asked and
//! whose `resume` takes the answer and hands back the next progress.

use crate::order::{
    lemma_first_covering, BlockNumber, LaneId, MessageNonce, Order, OrderView, PriorRelayer,
    SlashReport,
};
use crate::config::FeeMarketConfig;
use crate::payment::{ExistenceRequirement, Transfer};
use crate::ratio::ratio_of;
use crate::reward::{
    cal_order_reward_item, order_reward_item, RewardItem, RewardItemView, RewardsBook,
    RewardsBookView,
};
use crate::slash::{
    expired_slash, expired_slash_amount, late_slash, late_slash_amount, lemma_slash_bounds,
    slash_assigned_relayer, slash_outcome, SlashOutcome, Slasher,
};
use crate::relayer::{AccountId, Balance};
use vstd::prelude::*;

verus! {

/// A range of delivered messages: the nonces from `begin` to `end`, both included.
#[derive(Clone, Copy, Debug, PartialEq, Eq, Structural)]
pub struct DeliveredMessages {
    pub begin: MessageNonce,
    pub end: MessageNonce,
}

/// A relayer and the messages that it delivered.
#[derive(Clone, Copy, Debug, PartialEq, Eq, Structural)]
pub struct UnrewardedRelayer {
    pub relayer: AccountId,
    pub messages: DeliveredMessages,
}

/// The first nonce of `entry` that is settled, given the first nonce that was received.
pub open spec fn first_nonce(entry: UnrewardedRelayer, received_begin: MessageNonce) -> MessageNonce {
    if entry.messages.begin >= received_begin {
        entry.messages.begin
    } else {
        received_begin
    }
}

/// The last nonce of `entry` that is settled, given the last nonce that was received.
pub open spec fn last_nonce(entry: UnrewardedRelayer, received_end: MessageNonce) -> MessageNonce {
    if entry.messages.end <= received_end {
        entry.messages.end
    } else {
        received_end
    }
}

/// The position of the first entry at or after position `from` of which some nonce is
/// settled.
pub open spec fn first_open_entry(
    entries: Seq<UnrewardedRelayer>,
    received_begin: MessageNonce,
    received_end: MessageNonce,
    from: int,
) -> Option<int>
    decreases entries.len() - from,
{
    if from < 0 || from >= entries.len() {
        None
    } else if first_nonce(entries[from], received_begin) <= last_nonce(entries[from], received_end) {
        Some(from)
    } else {
        first_open_entry(entries, received_begin, received_end, from + 1)
    }
}

/// The identities of `relayers`, in their order.
pub open spec fn relayer_ids(relayers: Seq<PriorRelayer>) -> Seq<AccountId> {
    relayers.map_values(|r: PriorRelayer| r.id)
}

/// The reward item of an order that was confirmed in the slot `slot`, or in none, after
/// `slashed` was collected from the relayers that missed their slots.
///
/// In the first slot nobody was slashed and all assigned relayers were guarding. In a
/// later slot the relayers from that slot on were guarding. In no slot the order has
/// expired, and nobody was guarding.
pub open spec fn settled_item(
    config: FeeMarketConfig,
    order: OrderView,
    slot: Option<(int, Balance)>,
    message_deliver_relayer: AccountId,
    message_confirm_relayer: AccountId,
    slashed: Balance,
) -> RewardItemView {
    match slot {
        Some((k, price)) => order_reward_item(
            RewardItemView::empty(),
            config,
            order.fee(),
            Some(price),
            message_deliver_relayer,
            message_confirm_relayer,
            relayer_ids(order.relayers).skip(k),
            if k == 0 {
                None
            } else {
                Some(slashed)
            },
        ),
        None => order_reward_item(
            RewardItemView::empty(),
            config,
            order.fee(),
            None,
            message_deliver_relayer,
            message_confirm_relayer,
            Seq::empty(),
            Some(slashed),
        ),
    }
}

/// A settlement between two orders.
struct Settlement {
    config: FeeMarketConfig,
    lane: LaneId,
    messages_relayers: Vec<UnrewardedRelayer>,
    confirm_relayer: AccountId,
    received_begin: MessageNonce,
    received_end: MessageNonce,
    relayer_fund_account: AccountId,
    entry: usize,
    nonce: MessageNonce,
    book: RewardsBook,
}

/// A settlement between two orders, as mathematical values: what it was started with,
/// the entry and the nonce that it is at, and the sums of the orders settled so far.
pub struct SettlementView {
    pub config: FeeMarketConfig,
    pub lane: LaneId,
    pub messages_relayers: Seq<UnrewardedRelayer>,
    pub confirm_relayer: AccountId,
    pub received_begin: MessageNonce,
    pub received_end: MessageNonce,
    pub relayer_fund_account: AccountId,
    pub entry: int,
    pub nonce: MessageNonce,
    pub book: RewardsBookView,
}

/// A settlement in the middle of an order, as mathematical values: the order, the slot
/// in which it was confirmed (none if it has expired), the position of the relayer that
/// is being slashed, and what was collected from the relayers before it.
pub struct SlashingView {
    pub settlement: SettlementView,
    pub order: OrderView,
    pub slot: Option<(int, Balance)>,
    pub position: int,
    pub slashed: Balance,
}

/// A settlement that asks for a slash, as mathematical values.
pub struct SlashView {
    pub slashing: SlashingView,
    pub locked_collateral: Balance,
    pub amount: Balance,
}

/// A settlement that asks for the record of a slash, as mathematical values.
pub struct RecordView {
    pub slashing: SlashingView,
    pub outcome: SlashOutcome,
}

/// A settlement that announces the reward of an order, as mathematical values.
pub struct RewardView {
    pub settlement: SettlementView,
    pub item: RewardItemView,
}

/// The progress of a settlement, as mathematical values.
pub enum ProgressView {
    Order(SettlementView),
    Collateral(SlashingView),
    Assessment(SlashingView),
    Slash(SlashView),
    Record(RecordView),
    Reward(RewardView),
    Finished(RewardsBookView),
}

impl SettlementView {
    /// The entry that the settlement is at.
    pub open spec fn current(self) -> UnrewardedRelayer {
        self.messages_relayers[self.entry]
    }

    /// The settlement is at a nonce that is to be settled.
    pub open spec fn at_nonce(self) -> bool {
        &&& 0 <= self.entry < self.messages_relayers.len()
        &&& first_nonce(self.current(), self.received_begin) <= self.nonce <= last_nonce(
            self.current(),
            self.received_end,
        )
    }

    /// Goes to the first nonce of the first entry at or after position `from` that has
    /// one, and asks for its order. Without such an entry the settlement is finished.
    pub open spec fn seek(self, from: int) -> ProgressView {
        match first_open_entry(self.messages_relayers, self.received_begin, self.received_end, from) {
            Some(entry) => ProgressView::Order(
                SettlementView {
                    entry,
                    nonce: first_nonce(self.messages_relayers[entry], self.received_begin),
                    ..self
                },
            ),
            None => ProgressView::Finished(self.book),
        }
    }

    /// Goes to the next nonce of the entry, or to the next entry after its last one.
    pub open spec fn advance(self) -> ProgressView {
        if self.nonce < last_nonce(self.current(), self.received_end) {
            ProgressView::Order(SettlementView { nonce: (self.nonce + 1) as MessageNonce, ..self })
        } else {
            self.seek(self.entry + 1)
        }
    }

    /// Closes the order: its reward item is added to the book and announced.
    pub open spec fn settle(self, order: OrderView, slot: Option<(int, Balance)>, slashed: Balance) -> ProgressView {
        let item = settled_item(
            self.config,
            order,
            slot,
            self.current().relayer,
            self.confirm_relayer,
            slashed,
        );
        ProgressView::Reward(
            RewardView { settlement: SettlementView { book: self.book.add_reward_item(item), ..self }, item },
        )
    }

    /// Takes the order of the nonce. Where there is none, the nonce is passed over. Else
    /// the order counts as confirmed at its confirm time, or at `now` if it has none,
    /// and the relayers that missed their slots are slashed one after the other.
    pub open spec fn order_loaded(self, order: Option<OrderView>, now: BlockNumber) -> ProgressView {
        match order {
            None => self.advance(),
            Some(order) => {
                let confirmed_at = match order.confirm_time {
                    Some(confirm_time) => confirm_time,
                    None => now,
                };
                let slot = match order.slot_at(confirmed_at) {
                    Some(k) => Some((k, order.relayers[k].fee)),
                    None => None,
                };
                (SlashingView { settlement: self, order, slot, position: 0, slashed: 0 }).proceed()
            },
        }
    }
}

impl SlashingView {
    /// How many of the assigned relayers are slashed: those before the slot in which the
    /// order was confirmed, or all of them if it has expired.
    pub open spec fn misses(self) -> int {
        match self.slot {
            Some((k, _)) => k,
            None => self.order.relayers.len() as int,
        }
    }

    /// The relayer that is being slashed.
    pub open spec fn relayer(self) -> AccountId {
        self.order.relayers[self.position].id
    }

    /// The settlement is at a nonce, and the position is among the relayers to slash or
    /// just behind them.
    pub open spec fn wf(self) -> bool {
        &&& self.settlement.at_nonce()
        &&& 0 <= self.position <= self.misses() <= self.order.relayers.len()
    }

    /// Asks for what is needed to slash the relayer at the position, or closes the order
    /// if no relayer is left to slash.
    pub open spec fn proceed(self) -> ProgressView {
        if self.position < self.misses() {
            match self.slot {
                Some(_) => ProgressView::Collateral(self),
                None => ProgressView::Assessment(self),
            }
        } else {
            self.settlement.settle(self.order, self.slot, self.slashed)
        }
    }

    /// Takes the locked collateral of a relayer that missed its slot of an order
    /// delivered in time, and asks for the slash.
    pub open spec fn collateral_read(self, locked_collateral: Balance) -> ProgressView {
        ProgressView::Slash(
            SlashView {
                slashing: self,
                locked_collateral,
                amount: late_slash(self.settlement.config, locked_collateral),
            },
        )
    }

    /// Takes the locked collateral of a relayer of an expired order and what the slasher
    /// asks for the delay, and asks for the slash.
    pub open spec fn assessed(self, locked_collateral: Balance, dynamic_slash: Balance) -> ProgressView {
        ProgressView::Slash(
            SlashView {
                slashing: self,
                locked_collateral,
                amount: expired_slash(self.settlement.config, locked_collateral, dynamic_slash),
            },
        )
    }

    /// Takes the relayer's record for stored and goes on to the next relayer.
    pub open spec fn recorded(self) -> ProgressView {
        (SlashingView { position: self.position + 1, ..self }).proceed()
    }
}

impl SlashView {
    /// Takes the result of the transfer, adds what was collected to the order's slashes,
    /// and asks for the record.
    pub open spec fn transferred(self, transferred: bool) -> ProgressView {
        let outcome = slash_outcome(
            self.slashing.order,
            self.slashing.relayer(),
            self.locked_collateral,
            self.amount,
            transferred,
        );
        ProgressView::Record(
            RecordView {
                slashing: SlashingView {
                    slashed: self.slashing.slashed.saturating_add(outcome.amount),
                    ..self.slashing
                },
                outcome,
            },
        )
    }
}

impl View for Settlement {
    type V = SettlementView;

    closed spec fn view(&self) -> SettlementView {
        SettlementView {
            config: self.config,
            lane: self.lane,
            messages_relayers: self.messages_relayers@,
            confirm_relayer: self.confirm_relayer,
            received_begin: self.received_begin,
            received_end: self.received_end,
            relayer_fund_account: self.relayer_fund_account,
            entry: self.entry as int,
            nonce: self.nonce,
            book: self.book@,
        }
    }
}

/// A settlement in the middle of an order.
struct Slashing {
    settlement: Settlement,
    order: Order,
    slot: Option<(usize, Balance)>,
    position: usize,
    slashed: Balance,
}

impl View for Slashing {
    type V = SlashingView;

    closed spec fn view(&self) -> SlashingView {
        SlashingView {
            settlement: self.settlement@,
            order: self.order@,
            slot: match self.slot {
                Some((k, price)) => Some((k as int, price)),
                None => None,
            },
            position: self.position as int,
            slashed: self.slashed,
        }
    }
}

/// The settlement asks for the order of a message and for the current time.
pub struct AwaitOrder {
    settlement: Settlement,
}

/// The settlement asks for the locked collateral of a relayer that missed its slot.
pub struct AwaitCollateral {
    slashing: Slashing,
}

/// The settlement asks for the locked collateral of a relayer of an expired order, and
/// for what the market's slasher takes for the order's collateral and delay.
pub struct AwaitAssessment {
    slashing: Slashing,
}

/// The settlement asks to remove the relayer's lock and to transfer the slash to the fund
/// account.
pub struct AwaitSlash {
    slashing: Slashing,
    locked_collateral: Balance,
    amount: Balance,
}

/// The settlement asks to store what the relayer still has locked, and the report.
pub struct RecordSlash {
    slashing: Slashing,
    outcome: SlashOutcome,
}

/// The settlement announces the reward of an order.
pub struct EmitReward {
    settlement: Settlement,
    item: RewardItem,
}

/// Where a settlement stands: at a request to the ledger, or at its end.
pub enum Progress {
    Order(AwaitOrder),
    Collateral(AwaitCollateral),
    Assessment(AwaitAssessment),
    Slash(AwaitSlash),
    Record(RecordSlash),
    Reward(EmitReward),
    Finished(RewardsBook),
}

impl View for AwaitOrder {
    type V = SettlementView;

    closed spec fn view(&self) -> SettlementView {
        self.settlement@
    }
}

impl View for AwaitCollateral {
    type V = SlashingView;

    closed spec fn view(&self) -> SlashingView {
        self.slashing@
    }
}

impl View for AwaitAssessment {
    type V = SlashingView;

    closed spec fn view(&self) -> SlashingView {
        self.slashing@
    }
}

impl View for AwaitSlash {
    type V = SlashView;

    closed spec fn view(&self) -> SlashView {
        SlashView {
            slashing: self.slashing@,
            locked_collateral: self.locked_collateral,
            amount: self.amount,
        }
    }
}

impl View for RecordSlash {
    type V = RecordView;

    closed spec fn view(&self) -> RecordView {
        RecordView { slashing: self.slashing@, outcome: self.outcome }
    }
}

impl View for EmitReward {
    type V = RewardView;

    closed spec fn view(&self) -> RewardView {
        RewardView { settlement: self.settlement@, item: self.item@ }
    }
}

impl View for Progress {
    type V = ProgressView;

    open spec fn view(&self) -> ProgressView {
        match self {
            Progress::Order(request) => ProgressView::Order(request@),
            Progress::Collateral(request) => ProgressView::Collateral(request@),
            Progress::Assessment(request) => ProgressView::Assessment(request@),
            Progress::Slash(request) => ProgressView::Slash(request@),
            Progress::Record(request) => ProgressView::Record(request@),
            Progress::Reward(request) => ProgressView::Reward(request@),
            Progress::Finished(book) => ProgressView::Finished(book@),
        }
    }
}

impl ProgressView {
    /// The sums of the orders that were settled so far.
    pub open spec fn book(self) -> RewardsBookView {
        match self {
            ProgressView::Order(settlement) => settlement.book,
            ProgressView::Collateral(slashing) => slashing.settlement.book,
            ProgressView::Assessment(slashing) => slashing.settlement.book,
            ProgressView::Slash(slash) => slash.slashing.settlement.book,
            ProgressView::Record(record) => record.slashing.settlement.book,
            ProgressView::Reward(reward) => reward.settlement.book,
            ProgressView::Finished(book) => book,
        }
    }

    /// The progress keeps the book `before`, or it announces a reward that it has added
    /// to it.
    pub open spec fn book_follows(self, before: RewardsBookView) -> bool {
        ||| self.book() == before
        ||| self matches ProgressView::Reward(reward) && reward.settlement.book
            == before.add_reward_item(reward.item)
    }
}

/// What `first_open_entry` finds: the first entry at or after position `from` of which
/// some nonce is settled.
pub proof fn lemma_first_open_entry(
    entries: Seq<UnrewardedRelayer>,
    received_begin: MessageNonce,
    received_end: MessageNonce,
    from: int,
)
    requires
        0 <= from,
    ensures
        match first_open_entry(entries, received_begin, received_end, from) {
            Some(k) => {
                &&& from <= k < entries.len()
                &&& first_nonce(entries[k], received_begin) <= last_nonce(entries[k], received_end)
                &&& forall|j: int|
                    from <= j < k ==> first_nonce(#[trigger] entries[j], received_begin) > last_nonce(
                        entries[j],
                        received_end,
                    )
            },
            None => forall|j: int|
                from <= j < entries.len() ==> first_nonce(#[trigger] entries[j], received_begin)
                    > last_nonce(entries[j], received_end),
        },
    decreases entries.len() - from,
{
    if from < entries.len() && first_nonce(entries[from], received_begin) > last_nonce(
        entries[from],
        received_end,
    ) {
        lemma_first_open_entry(entries, received_begin, received_end, from + 1);
    }
}

/// A settlement asks only for orders of nonces that lie both in the range of their
/// entry and in the range that was received, and it asks for them in order: after a
/// nonce comes the next nonce of the same entry, and after the last one the first nonce
/// of the next entry that has one. All entries before that one are passed over because
/// none of their nonces was received.
pub proof fn lemma_nonces_in_order(settlement: SettlementView, from: int)
    requires
        0 <= from,
    ensures
        settlement.seek(from) matches ProgressView::Order(next) ==> {
            &&& next.at_nonce()
            &&& from <= next.entry
            &&& next.nonce == first_nonce(next.current(), settlement.received_begin)
            &&& next == (SettlementView { entry: next.entry, nonce: next.nonce, ..settlement })
        },
        settlement.seek(from) is Order || settlement.seek(from) is Finished,
        settlement.at_nonce() ==> (settlement.advance() matches ProgressView::Order(next) ==> {
            &&& next.at_nonce()
            &&& next == (SettlementView { entry: next.entry, nonce: next.nonce, ..settlement })
            &&& (next.entry == settlement.entry && next.nonce == settlement.nonce + 1)
                || (next.entry > settlement.entry && next.nonce == first_nonce(
                next.current(),
                settlement.received_begin,
            ))
        }),
        settlement.at_nonce() ==> settlement.advance() is Order || settlement.advance() is Finished,
{
    lemma_first_open_entry(
        settlement.messages_relayers,
        settlement.received_begin,
        settlement.received_end,
        from,
    );
    if settlement.at_nonce() {
        lemma_first_open_entry(
            settlement.messages_relayers,
            settlement.received_begin,
            settlement.received_end,
            settlement.entry + 1,
        );
    }
}

/// Whatever the ledger answers, a step of a settlement leaves the book as it is, unless
/// it closes an order: then the reward item that it announces is the one that it has
/// added to the book. So the finished book holds the announced reward items, and nothing
/// else.
pub proof fn lemma_book_follows_rewards(
    settlement: SettlementView,
    slashing: SlashingView,
    slash: SlashView,
    from: int,
    order: Option<OrderView>,
    now: BlockNumber,
    locked_collateral: Balance,
    dynamic_slash: Balance,
    transferred: bool,
)
    ensures
        settlement.seek(from).book_follows(settlement.book),
        settlement.advance().book_follows(settlement.book),
        settlement.order_loaded(order, now).book_follows(settlement.book),
        slashing.proceed().book_follows(slashing.settlement.book),
        slashing.collateral_read(locked_collateral).book_follows(slashing.settlement.book),
        slashing.assessed(locked_collateral, dynamic_slash).book_follows(slashing.settlement.book),
        slash.transferred(transferred).book_follows(slash.slashing.settlement.book),
        slashing.recorded().book_follows(slashing.settlement.book),
{
}

/// The number of nonces that are settled in the entries from position `from` on.
pub open spec fn nonces_from(
    entries: Seq<UnrewardedRelayer>,
    received_begin: MessageNonce,
    received_end: MessageNonce,
    from: int,
) -> nat
    decreases entries.len() - from,
{
    if from < 0 || from >= entries.len() {
        0
    } else {
        let first = first_nonce(entries[from], received_begin);
        let last = last_nonce(entries[from], received_end);
        let here: nat = if first <= last {
            (last - first + 1) as nat
        } else {
            0
        };
        here + nonces_from(entries, received_begin, received_end, from + 1)
    }
}

/// What is left of a settlement, counted so that every step makes it less: the nonces
/// from the current one on, the stage within the order, the relayers still to slash, and
/// the steps still to take for the current relayer.
pub struct Remaining {
    pub nonces: nat,
    pub stage: nat,
    pub relayers: nat,
    pub steps: nat,
}

impl Remaining {
    /// Less is left in `self` than in `other`: fewer nonces, or as many and an earlier
    /// stage, and so on.
    pub open spec fn less_than(self, other: Remaining) -> bool {
        ||| self.nonces < other.nonces
        ||| self.nonces == other.nonces && self.stage < other.stage
        ||| self.nonces == other.nonces && self.stage == other.stage && self.relayers
            < other.relayers
        ||| self.nonces == other.nonces && self.stage == other.stage && self.relayers
            == other.relayers && self.steps < other.steps
    }
}

impl SettlementView {
    /// The number of nonces to settle from the current one on.
    pub open spec fn nonces_left(self) -> nat {
        (last_nonce(self.current(), self.received_end) - self.nonce + 1) as nat + nonces_from(
            self.messages_relayers,
            self.received_begin,
            self.received_end,
            self.entry + 1,
        )
    }
}

impl SlashingView {
    /// What is left when `steps` steps are still to take for the current relayer.
    pub open spec fn remaining(self, steps: nat) -> Remaining {
        Remaining {
            nonces: self.settlement.nonces_left(),
            stage: 1,
            relayers: (self.misses() - self.position) as nat,
            steps,
        }
    }
}

impl ProgressView {
    /// What is left of the settlement.
    pub open spec fn remaining(self) -> Remaining {
        match self {
            ProgressView::Order(settlement) => Remaining {
                nonces: settlement.nonces_left(),
                stage: 2,
                relayers: 0,
                steps: 0,
            },
            ProgressView::Collateral(slashing) => slashing.remaining(2),
            ProgressView::Assessment(slashing) => slashing.remaining(2),
            ProgressView::Slash(slash) => slash.slashing.remaining(1),
            ProgressView::Record(record) => record.slashing.remaining(0),
            ProgressView::Reward(reward) => Remaining {
                nonces: reward.settlement.nonces_left(),
                stage: 0,
                relayers: 0,
                steps: 0,
            },
            ProgressView::Finished(_) => Remaining { nonces: 0, stage: 0, relayers: 0, steps: 0 },
        }
    }
}

/// The entries that `first_open_entry` passes over have no nonce to settle.
proof fn lemma_nonces_from_open_entry(
    entries: Seq<UnrewardedRelayer>,
    received_begin: MessageNonce,
    received_end: MessageNonce,
    from: int,
)
    requires
        0 <= from,
    ensures
        nonces_from(entries, received_begin, received_end, from) == match first_open_entry(
            entries,
            received_begin,
            received_end,
            from,
        ) {
            Some(k) => nonces_from(entries, received_begin, received_end, k),
            None => 0,
        },
    decreases entries.len() - from,
{
    if from < entries.len() && first_nonce(entries[from], received_begin) > last_nonce(
        entries[from],
        received_end,
    ) {
        lemma_nonces_from_open_entry(entries, received_begin, received_end, from + 1);
    }
}

/// A settlement comes to its end: whatever the ledger answers, after each step less is
/// left than before, and what is left cannot become less for ever.
pub proof fn lemma_settlement_ends(
    settlement: SettlementView,
    slashing: SlashingView,
    slash: SlashView,
    order: Option<OrderView>,
    now: BlockNumber,
    locked_collateral: Balance,
    dynamic_slash: Balance,
    transferred: bool,
)
    requires
        settlement.at_nonce(),
        slashing.wf(),
        slashing.position < slashing.misses(),
        slash.slashing.wf(),
        slash.slashing.position < slash.slashing.misses(),
    ensures
        settlement.order_loaded(order, now).remaining().less_than(
            ProgressView::Order(settlement).remaining(),
        ),
        slashing.collateral_read(locked_collateral).remaining().less_than(
            ProgressView::Collateral(slashing).remaining(),
        ),
        slashing.assessed(locked_collateral, dynamic_slash).remaining().less_than(
            ProgressView::Assessment(slashing).remaining(),
        ),
        slash.transferred(transferred).remaining().less_than(ProgressView::Slash(slash).remaining()),
        forall|outcome: SlashOutcome|
            slashing.recorded().remaining().less_than(
                #[trigger] ProgressView::Record(RecordView { slashing, outcome }).remaining(),
            ),
        forall|item: RewardItemView|
            settlement.advance().remaining().less_than(
                #[trigger] ProgressView::Reward(RewardView { settlement, item }).remaining(),
            ),
{
    lemma_nonces_from_open_entry(
        settlement.messages_relayers,
        settlement.received_begin,
        settlement.received_end,
        settlement.entry + 1,
    );
    lemma_first_open_entry(
        settlement.messages_relayers,
        settlement.received_begin,
        settlement.received_end,
        settlement.entry + 1,
    );
    assert(settlement.advance().remaining().nonces < settlement.nonces_left());
    match order {
        Some(order) => {
            let confirmed_at = match order.confirm_time {
                Some(confirm_time) => confirm_time,
                None => now,
            };
            lemma_first_covering(order.relayers, confirmed_at, 0);
        },
        None => {},
    }
}

/// An order that was confirmed in its first slot is closed at once: nobody is slashed,
/// and all its assigned relayers are rewarded as guards.
pub proof fn lemma_first_slot_slashes_nobody(settlement: SettlementView, order: OrderView, now: BlockNumber)
    requires
        order.slot_at(
            match order.confirm_time {
                Some(confirm_time) => confirm_time,
                None => now,
            },
        ) == Some(0int),
    ensures
        settlement.order_loaded(Some(order), now) == settlement.settle(
            order,
            Some((0int, order.relayers[0].fee)),
            0,
        ),
        settlement.order_loaded(Some(order), now) matches ProgressView::Reward(reward)
            && reward.settlement.book == settlement.book.add_reward_item(reward.item) && reward.item
            == order_reward_item(
            RewardItemView::empty(),
            settlement.config,
            order.fee(),
            Some(order.relayers[0].fee),
            settlement.current().relayer,
            settlement.confirm_relayer,
            relayer_ids(order.relayers),
            None,
        ),
{
    assert(relayer_ids(order.relayers).skip(0) == relayer_ids(order.relayers));
}

/// An order that was confirmed in a later slot: the relayers of the slots before it are
/// slashed, each once and in their order, and the order is closed after the last of
/// them, with the relayers from the confirmed slot on as guards.
pub proof fn lemma_late_slot_slashes_earlier(slashing: SlashingView, slot: int, price: Balance)
    requires
        slashing.slot == Some((slot, price)),
        0 < slot,
        0 <= slashing.position <= slot,
    ensures
        slashing.position < slashing.misses() ==> slashing.proceed() == ProgressView::Collateral(
            slashing,
        ),
        slashing.position == slashing.misses() ==> slashing.proceed()
            == slashing.settlement.settle(slashing.order, slashing.slot, slashing.slashed),
        slashing.position == slashing.misses() ==> (slashing.proceed() matches ProgressView::Reward(
            reward,
        ) && reward.item == order_reward_item(
            RewardItemView::empty(),
            slashing.settlement.config,
            slashing.order.fee(),
            Some(price),
            slashing.settlement.current().relayer,
            slashing.settlement.confirm_relayer,
            relayer_ids(slashing.order.relayers).skip(slot),
            Some(slashing.slashed),
        )),
{
}

/// Of an order that expired every assigned relayer is slashed, each once and in their
/// order. The order is closed after the last of them: the whole fee and all that was
/// collected go to the relayers who delivered and confirmed, and nothing to the treasury
/// or to the assigned relayers.
pub proof fn lemma_expired_order_slashes_all(slashing: SlashingView)
    requires
        slashing.slot is None,
        0 <= slashing.position <= slashing.order.relayers.len(),
    ensures
        slashing.misses() == slashing.order.relayers.len(),
        slashing.position < slashing.order.relayers.len() ==> slashing.proceed()
            == ProgressView::Assessment(slashing),
        slashing.position < slashing.order.relayers.len() ==> slashing.recorded() == (SlashingView {
            position: slashing.position + 1,
            ..slashing
        }).proceed(),
        slashing.position == slashing.order.relayers.len() ==> (
        slashing.proceed() matches ProgressView::Reward(reward) && reward.item.to_treasury is None
            && reward.item.to_assigned_relayers == Map::<AccountId, Balance>::empty()
            && reward.item.to_message_relayer == Some(
            (
                slashing.settlement.current().relayer,
                ratio_of(
                    slashing.settlement.config.message_relayers_reward_ratio.parts,
                    slashing.order.fee().saturating_add(slashing.slashed),
                ),
            ),
        ) && reward.item.to_confirm_relayer == Some(
            (
                slashing.settlement.confirm_relayer,
                ratio_of(
                    slashing.settlement.config.confirm_relayers_reward_ratio.parts,
                    slashing.order.fee().saturating_add(slashing.slashed),
                ),
            ),
        )),
{
}

/// Whatever the ledger answers, the slash that a settlement asks for does not exceed the
/// locked collateral that the ledger reported, and for an expired order it does not
/// exceed the market's limit, if it has one. What is collected is the slash or nothing,
/// and what stays locked is the rest.
pub proof fn lemma_slash_requests_bounded(
    slashing: SlashingView,
    locked_collateral: Balance,
    dynamic_slash: Balance,
    transferred: bool,
)
    ensures
        slashing.collateral_read(locked_collateral) matches ProgressView::Slash(slash)
            && slash.amount <= locked_collateral,
        slashing.assessed(locked_collateral, dynamic_slash) matches ProgressView::Slash(slash)
            && slash.amount <= locked_collateral && (
        slashing.settlement.config.slash_protect matches Some(slash_protect) ==> slash.amount
            <= slash_protect),
        slashing.assessed(locked_collateral, dynamic_slash) matches ProgressView::Slash(slash)
            && slash.transferred(transferred) matches ProgressView::Record(record)
            && record.outcome.amount <= slash.amount && record.outcome.locked_collateral
            + record.outcome.amount == locked_collateral,
        slashing.collateral_read(locked_collateral) matches ProgressView::Slash(slash)
            && slash.transferred(transferred) matches ProgressView::Record(record)
            && record.outcome.amount <= slash.amount && record.outcome.locked_collateral
            + record.outcome.amount == locked_collateral,
{
    lemma_slash_bounds(slashing.settlement.config, locked_collateral, dynamic_slash);
}

/// What an order that may be missing holds, as mathematical values.
pub open spec fn order_view(order: Option<Order>) -> Option<OrderView> {
    match order {
        Some(order) => Some(order@),
        None => None,
    }
}

impl Settlement {
    /// Goes to the first nonce of the first entry at or after `from` that has one.
    fn seek(self, from: usize) -> (r: Progress)
        ensures
            r@ == self@.seek(from as int),
    {
        let mut i = from;
        while i < self.messages_relayers.len()
            invariant
                from <= i,
                first_open_entry(
                    self.messages_relayers@,
                    self.received_begin,
                    self.received_end,
                    from as int,
                ) == first_open_entry(
                    self.messages_relayers@,
                    self.received_begin,
                    self.received_end,
                    i as int,
                ),
            decreases self.messages_relayers.len() - i,
        {
            let entry = self.messages_relayers[i];
            let first = if entry.messages.begin >= self.received_begin {
                entry.messages.begin
            } else {
                self.received_begin
            };
            let last = if entry.messages.end <= self.received_end {
                entry.messages.end
            } else {
                self.received_end
            };
            if first <= last {
                return Progress::Order(
                    AwaitOrder { settlement: Settlement { entry: i, nonce: first, ..self } },
                );
            }
            i += 1;
        }
        Progress::Finished(self.book)
    }

    /// Goes to the nonce after the one that was settled.
    fn advance(self) -> (r: Progress)
        requires
            self@.at_nonce(),
        ensures
            r@ == self@.advance(),
    {
        let entry = self.messages_relayers[self.entry];
        let last = if entry.messages.end <= self.received_end {
            entry.messages.end
        } else {
            self.received_end
        };
        if self.nonce < last {
            Progress::Order(AwaitOrder { settlement: Settlement { nonce: self.nonce + 1, ..self } })
        } else {
            assert(self.entry < self.messages_relayers.len());
            let next = self.entry + 1;
            self.seek(next)
        }
    }

    /// Closes the order: calculates its reward item and adds it to the book.
    fn settle(self, order: Order, slot: Option<(usize, Balance)>, slashed: Balance) -> (r: Progress)
        requires
            self@.at_nonce(),
            slot matches Some((k, _)) ==> k <= order.relayers.len(),
        ensures
            r@ == self@.settle(
                order@,
                match slot {
                    Some((k, price)) => Some((k as int, price)),
                    None => None,
                },
                slashed,
            ),
    {
        let message_deliver_relayer = self.messages_relayers[self.entry].relayer;
        let order_fee = order.fee();
        let mut item = RewardItem::new();
        let mut guarding_relayers_list: Vec<AccountId> = Vec::new();
        match slot {
            Some((k, price)) => {
                let mut i = k;
                while i < order.relayers.len()
                    invariant
                        k <= i <= order.relayers.len(),
                        guarding_relayers_list@ == relayer_ids(order.relayers@).subrange(
                            k as int,
                            i as int,
                        ),
                    decreases order.relayers.len() - i,
                {
                    guarding_relayers_list.push(order.relayers[i].id);
                    i += 1;
                    assert(guarding_relayers_list@ == relayer_ids(order.relayers@).subrange(
                        k as int,
                        i as int,
                    ));
                }
                cal_order_reward_item(
                    &mut item,
                    &self.config,
                    order_fee,
                    Some(price),
                    message_deliver_relayer,
                    self.confirm_relayer,
                    guarding_relayers_list.as_slice(),
                    if k == 0 {
                        None
                    } else {
                        Some(slashed)
                    },
                );
            },
            None => {
                cal_order_reward_item(
                    &mut item,
                    &self.config,
                    order_fee,
                    None,
                    message_deliver_relayer,
                    self.confirm_relayer,
                    guarding_relayers_list.as_slice(),
                    Some(slashed),
                );
            },
        }
        let mut book = self.book;
        book.add_reward_item(item.clone());
        Progress::Reward(EmitReward { settlement: Settlement { book, ..self }, item })
    }
}

impl Slashing {
    /// Goes to the next relayer to slash, or closes the order after the last one.
    fn proceed(self) -> (r: Progress)
        requires
            self@.wf(),
        ensures
            r@ == self@.proceed(),
    {
        let misses = match self.slot {
            Some((k, _)) => k,
            None => self.order.relayers.len(),
        };
        if self.position < misses {
            match self.slot {
                Some(_) => Progress::Collateral(AwaitCollateral { slashing: self }),
                None => Progress::Assessment(AwaitAssessment { slashing: self }),
            }
        } else {
            self.settlement.settle(self.order, self.slot, self.slashed)
        }
    }
}

/// Starts to slash and to calculate the rewards for the messages of `lane_id` that
/// `messages_relayers` delivered and `confirm_relayer` confirmed, as far as their nonces
/// lie between `received_begin` and `received_end`, both included. Slashes will go to
/// `relayer_fund_account`.
pub fn slash_and_calculate_rewards(
    config: FeeMarketConfig,
    lane_id: LaneId,
    messages_relayers: Vec<UnrewardedRelayer>,
    confirm_relayer: AccountId,
    received_begin: MessageNonce,
    received_end: MessageNonce,
    relayer_fund_account: AccountId,
) -> (r: Progress)
    ensures
        r@ == (SettlementView {
            config,
            lane: lane_id,
            messages_relayers: messages_relayers@,
            confirm_relayer,
            received_begin,
            received_end,
            relayer_fund_account,
            entry: 0,
            nonce: 0,
            book: RewardsBookView::empty(),
        }).seek(0),
{
    let settlement = Settlement {
        config,
        lane: lane_id,
        messages_relayers,
        confirm_relayer,
        received_begin,
        received_end,
        relayer_fund_account,
        entry: 0,
        nonce: 0,
        book: RewardsBook::new(),
    };
    settlement.seek(0)
}

impl AwaitOrder {
    #[verifier::type_invariant]
    spec fn inv(self) -> bool {
        self.settlement@.at_nonce()
    }

    /// The lane of the message.
    pub fn lane(&self) -> (r: LaneId)
        ensures
            r == self@.lane,
    {
        self.settlement.lane
    }

    /// The nonce of the message whose order is asked for.
    pub fn nonce(&self) -> (r: MessageNonce)
        ensures
            r == self@.nonce,
    {
        self.settlement.nonce
    }

    /// Goes on with the order of the message, if it has one, and the current time.
    pub fn resume(self, order: Option<Order>, now: BlockNumber) -> (r: Progress)
        ensures
            r@ == self@.order_loaded(order_view(order), now),
    {
        proof {
            use_type_invariant(&self);
        }
        let settlement = self.settlement;
        match order {
            None => settlement.advance(),
            Some(order) => {
                let confirmed_at = match order.confirm_time {
                    Some(confirm_time) => confirm_time,
                    None => now,
                };
                let slot = order.confirmed_assigned_relayer_info(confirmed_at);
                let slashing = Slashing { settlement, order, slot, position: 0, slashed: 0 };
                slashing.proceed()
            },
        }
    }
}

impl AwaitCollateral {
    #[verifier::type_invariant]
    spec fn inv(self) -> bool {
        &&& self.slashing@.wf()
        &&& self.slashing@.position < self.slashing@.misses()
        &&& self.slashing@.slot is Some
    }

    /// The relayer whose locked collateral is asked for.
    pub fn relayer(&self) -> (r: AccountId)
        ensures
            r == self@.relayer(),
    {
        proof {
            use_type_invariant(self);
        }
        self.slashing.order.relayers[self.slashing.position].id
    }

    /// Goes on with the locked collateral of the relayer. The slash that is then asked
    /// for does not exceed it.
    pub fn resume(self, locked_collateral: Balance) -> (r: Progress)
        ensures
            r@ == self@.collateral_read(locked_collateral),
            r matches Progress::Slash(slash) && slash@.amount <= locked_collateral,
    {
        proof {
            use_type_invariant(&self);
        }
        let amount = late_slash_amount(&self.slashing.settlement.config, locked_collateral);
        Progress::Slash(AwaitSlash { slashing: self.slashing, locked_collateral, amount })
    }
}

impl AwaitAssessment {
    #[verifier::type_invariant]
    spec fn inv(self) -> bool {
        &&& self.slashing@.wf()
        &&& self.slashing@.position < self.slashing@.misses()
        &&& self.slashing@.slot is None
    }

    /// The relayer whose locked collateral is asked for.
    pub fn relayer(&self) -> (r: AccountId)
        ensures
            r == self@.relayer(),
    {
        proof {
            use_type_invariant(self);
        }
        self.slashing.order.relayers[self.slashing.position].id
    }

    /// The collateral that was locked for the order: the first thing that the slasher
    /// is asked to judge by.
    pub fn locked_collateral(&self) -> (r: Balance)
        ensures
            r == self@.order.locked_collateral,
    {
        self.slashing.order.locked_collateral
    }

    /// The delay of the order's confirmation, zero if it has none on record: the second
    /// thing that the slasher is asked to judge by.
    pub fn delay(&self) -> (r: BlockNumber)
        ensures
            r == match self@.order.delivery_delay() {
                Some(delay) => delay,
                None => 0,
            },
    {
        match self.slashing.order.delivery_delay() {
            Some(delay) => delay,
            None => 0,
        }
    }

    /// Goes on with the locked collateral of the relayer and with what the slasher
    /// takes. The slash that is then asked for exceeds neither the locked collateral nor
    /// the market's limit, if it has one.
    pub fn resume(self, locked_collateral: Balance, dynamic_slash: Balance) -> (r: Progress)
        ensures
            r@ == self@.assessed(locked_collateral, dynamic_slash),
            r matches Progress::Slash(slash) && slash@.amount <= locked_collateral && (
            self@.settlement.config.slash_protect matches Some(slash_protect) ==> slash@.amount
                <= slash_protect),
    {
        proof {
            use_type_invariant(&self);
        }
        let amount = expired_slash_amount(
            &self.slashing.settlement.config,
            locked_collateral,
            dynamic_slash,
        );
        Progress::Slash(AwaitSlash { slashing: self.slashing, locked_collateral, amount })
    }

    /// Goes on with the locked collateral of the relayer, and with what the slasher `S`
    /// takes for the order's collateral and delay. Whatever that is, the slash that is
    /// then asked for exceeds neither the locked collateral nor the market's limit, if
    /// it has one.
    pub fn resume_with<S: Slasher>(self, locked_collateral: Balance) -> (r: Progress)
        ensures
            exists|dynamic_slash: Balance| r@ == self@.assessed(locked_collateral, dynamic_slash),
            r matches Progress::Slash(slash) && slash@.amount <= locked_collateral && (
            self@.settlement.config.slash_protect matches Some(slash_protect) ==> slash@.amount
                <= slash_protect),
    {
        let dynamic_slash = S::cal_slash_amount(self.locked_collateral(), self.delay());
        self.resume(locked_collateral, dynamic_slash)
    }
}

impl AwaitSlash {
    #[verifier::type_invariant]
    spec fn inv(self) -> bool {
        &&& self.slashing@.wf()
        &&& self.slashing@.position < self.slashing@.misses()
        &&& self.amount <= self.locked_collateral
    }

    /// The relayer that is slashed.
    pub fn relayer(&self) -> (r: AccountId)
        ensures
            r == self@.slashing.relayer(),
    {
        proof {
            use_type_invariant(self);
        }
        self.slashing.order.relayers[self.slashing.position].id
    }

    /// What is taken from the relayer: no more than it has locked.
    pub fn amount(&self) -> (r: Balance)
        ensures
            r == self@.amount,
            r <= self@.locked_collateral,
    {
        proof {
            use_type_invariant(self);
        }
        self.amount
    }

    /// The transfer to make once the relayer's lock is removed: the slash goes from the
    /// relayer to the fund account, and the relayer's account need not survive it.
    pub fn transfer(&self) -> (r: Transfer)
        ensures
            r == (Transfer {
                from: self@.slashing.relayer(),
                to: self@.slashing.settlement.relayer_fund_account,
                amount: self@.amount,
                existence_requirement: ExistenceRequirement::AllowDeath,
            }),
    {
        proof {
            use_type_invariant(self);
        }
        Transfer {
            from: self.slashing.order.relayers[self.slashing.position].id,
            to: self.slashing.settlement.relayer_fund_account,
            amount: self.amount,
            existence_requirement: ExistenceRequirement::AllowDeath,
        }
    }

    /// Goes on with the result of the transfer.
    pub fn resume(self, transferred: bool) -> (r: Progress)
        ensures
            r@ == self@.transferred(transferred),
    {
        proof {
            use_type_invariant(&self);
        }
        let who = self.slashing.order.relayers[self.slashing.position].id;
        let outcome = slash_assigned_relayer(
            &self.slashing.order,
            who,
            self.locked_collateral,
            self.amount,
            transferred,
        );
        let slashed = self.slashing.slashed.saturating_add(outcome.amount);
        Progress::Record(RecordSlash { slashing: Slashing { slashed, ..self.slashing }, outcome })
    }
}

impl RecordSlash {
    #[verifier::type_invariant]
    spec fn inv(self) -> bool {
        &&& self.slashing@.wf()
        &&& self.slashing@.position < self.slashing@.misses()
    }

    /// The relayer that was slashed.
    pub fn relayer(&self) -> (r: AccountId)
        ensures
            r == self@.slashing.relayer(),
    {
        proof {
            use_type_invariant(self);
        }
        self.slashing.order.relayers[self.slashing.position].id
    }

    /// What the relayer still has locked.
    pub fn locked_collateral(&self) -> (r: Balance)
        ensures
            r == self@.outcome.locked_collateral,
    {
        self.outcome.locked_collateral
    }

    /// The report of the slash.
    pub fn report(&self) -> (r: SlashReport)
        ensures
            r == self@.outcome.report,
    {
        self.outcome.report.clone()
    }

    /// Goes on after the record was stored.
    pub fn resume(self) -> (r: Progress)
        ensures
            r@ == self@.slashing.recorded(),
    {
        proof {
            use_type_invariant(&self);
        }
        assert(self.slashing.position < self.slashing.order.relayers.len());
        let position = self.slashing.position + 1;
        let slashing = Slashing { position, ..self.slashing };
        slashing.proceed()
    }
}

impl EmitReward {
    #[verifier::type_invariant]
    spec fn inv(self) -> bool {
        self.settlement@.at_nonce()
    }

    /// The lane of the message.
    pub fn lane(&self) -> (r: LaneId)
        ensures
            r == self@.settlement.lane,
    {
        self.settlement.lane
    }

    /// The nonce of the message whose order was settled.
    pub fn nonce(&self) -> (r: MessageNonce)
        ensures
            r == self@.settlement.nonce,
    {
        self.settlement.nonce
    }

    /// The reward of the order.
    pub fn item(&self) -> (r: &RewardItem)
        ensures
            r@ == self@.item,
    {
        &self.item
    }

    /// Goes on after the reward was announced.
    pub fn resume(self) -> (r: Progress)
        ensures
            r@ == self@.settlement.advance(),
    {
        proof {
            use_type_invariant(&self);
        }
        self.settlement.advance()
    }
}

} // verus!
