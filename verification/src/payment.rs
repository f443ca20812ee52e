//! The transfers that pay fees and rewards.

use crate::relayer::{AccountId, Balance};
use crate::reward::{RewardsBook, RewardsBookView};
use std::collections::BTreeMap;
use vstd::prelude::*;
use vstd::std_specs::btree::increasing_seq;
use vstd::std_specs::cmp::OrdSpec;

verus! {

/// Whether a transfer may take the sender's account out of existence.
#[derive(Clone, Copy, Debug, PartialEq, Eq, Structural)]
pub enum ExistenceRequirement {
    /// The sender's account must stay above its minimum balance.
    KeepAlive,
    /// The sender's account may be removed when it falls to zero.
    AllowDeath,
}

/// A movement of funds that the ledger is asked to make.
#[derive(Clone, Copy, Debug, PartialEq, Eq, Structural)]
pub struct Transfer {
    pub from: AccountId,
    pub to: AccountId,
    pub amount: Balance,
    pub existence_requirement: ExistenceRequirement,
}

/// The transfer that pays `reward` out of `from`: none for a reward of zero, else one
/// that keeps `from` alive.
pub open spec fn reward_transfer(from: AccountId, to: AccountId, reward: Balance) -> Option<Transfer> {
    if reward == 0 {
        None
    } else {
        Some(
            Transfer {
                from,
                to,
                amount: reward,
                existence_requirement: ExistenceRequirement::KeepAlive,
            },
        )
    }
}

/// Decides how a reward is paid.
pub fn do_reward(from: AccountId, to: AccountId, reward: Balance) -> (r: Option<Transfer>)
    ensures
        r == reward_transfer(from, to, reward),
{
    if reward == 0 {
        return None;
    }
    Some(Transfer { from, to, amount: reward, existence_requirement: ExistenceRequirement::KeepAlive })
}

/// Why a fee could not be paid.
#[derive(Clone, Copy, Debug, PartialEq, Eq, Structural)]
pub enum PaymentError {
    /// The message fee is not zero, but nobody is there to pay it.
    NonZeroMessageFeeCantBePaidByNone,
}

impl PaymentError {
    /// The error in words.
    pub fn message(&self) -> (r: &'static str)
        ensures
            r@ == "Non-zero message fee can't be paid by <None>"@,
    {
        "Non-zero message fee can't be paid by <None>"
    }
}

/// The payments of the fee market.
pub struct FeeMarketPayment;

impl FeeMarketPayment {
    /// Decides how the fee of a message is paid: by a transfer from the submitter to the
    /// fund account, which the submitter need not survive; by nothing where there is
    /// neither submitter nor fee; and not at all where a fee is due from nobody.
    pub fn pay_delivery_and_dispatch_fee(
        submitter: Option<AccountId>,
        fee: Balance,
        relayer_fund_account: AccountId,
    ) -> (r: Result<Option<Transfer>, PaymentError>)
        ensures
            r == match submitter {
                Some(submitter_account) => Ok::<Option<Transfer>, PaymentError>(
                    Some(
                        Transfer {
                            from: submitter_account,
                            to: relayer_fund_account,
                            amount: fee,
                            existence_requirement: ExistenceRequirement::AllowDeath,
                        },
                    ),
                ),
                None if fee != 0 => Err(PaymentError::NonZeroMessageFeeCantBePaidByNone),
                None => Ok(None),
            },
    {
        let submitter_account = match submitter {
            Some(submitter_account) => submitter_account,
            None => {
                if fee != 0 {
                    return Err(PaymentError::NonZeroMessageFeeCantBePaidByNone);
                }
                return Ok(None);
            },
        };
        Ok(
            Some(
                Transfer {
                    from: submitter_account,
                    to: relayer_fund_account,
                    amount: fee,
                    existence_requirement: ExistenceRequirement::AllowDeath,
                },
            ),
        )
    }
}

/// `entries` are the entries of `sums`, each once, in the order of their accounts.
pub open spec fn is_ascending(entries: Seq<(AccountId, Balance)>, sums: Map<AccountId, Balance>) -> bool {
    &&& forall|i: int|
        0 <= i < entries.len() ==> sums.contains_key((#[trigger] entries[i]).0) && sums[entries[i].0]
            == entries[i].1
    &&& forall|i: int, j: int|
        0 <= i < j < entries.len() ==> (#[trigger] entries[i]).0 < (#[trigger] entries[j]).0
    &&& forall|k: AccountId| #[trigger]
        sums.contains_key(k) ==> exists|i: int| 0 <= i < entries.len() && (#[trigger] entries[i]).0 == k
}

/// The entries of `sums`, each once, in the order of their accounts.
pub open spec fn ascending_entries(sums: Map<AccountId, Balance>) -> Seq<(AccountId, Balance)> {
    choose|entries: Seq<(AccountId, Balance)>| is_ascending(entries, sums)
}

/// Two ascending lists of the entries of one map agree up to position `i`, as far as
/// both reach.
proof fn lemma_ascending_agree(
    a: Seq<(AccountId, Balance)>,
    b: Seq<(AccountId, Balance)>,
    sums: Map<AccountId, Balance>,
    i: int,
)
    requires
        is_ascending(a, sums),
        is_ascending(b, sums),
        0 <= i < a.len(),
        i < b.len(),
    ensures
        a[i] == b[i],
    decreases i,
{
    if i > 0 {
        lemma_ascending_agree(a, b, sums, i - 1);
    }
    assert forall|j: int| 0 <= j < i implies (#[trigger] a[j]).0 == b[j].0 by {
        lemma_ascending_agree(a, b, sums, j);
    }
    let ka = a[i].0;
    let kb = b[i].0;
    assert(sums.contains_key(ka));
    assert(sums.contains_key(kb));
    let ja = choose|j: int| 0 <= j < b.len() && (#[trigger] b[j]).0 == ka;
    let jb = choose|j: int| 0 <= j < a.len() && (#[trigger] a[j]).0 == kb;
    if ja < i {
        assert(a[ja].0 == b[ja].0);
        assert(a[ja].0 < a[i].0);
    }
    if jb < i {
        assert(a[jb].0 == b[jb].0);
        assert(b[jb].0 < b[i].0);
    }
    if ja > i {
        assert(b[i].0 < b[ja].0);
    }
    if jb > i {
        assert(a[i].0 < a[jb].0);
    }
    assert(ka == kb);
}

/// A map has only one ascending list of its entries.
pub proof fn lemma_ascending_unique(
    a: Seq<(AccountId, Balance)>,
    b: Seq<(AccountId, Balance)>,
    sums: Map<AccountId, Balance>,
)
    requires
        is_ascending(a, sums),
        is_ascending(b, sums),
    ensures
        a == b,
        a == ascending_entries(sums),
{
    if a.len() < b.len() {
        let k = b[a.len() as int].0;
        assert(sums.contains_key(k));
        let j = choose|j: int| 0 <= j < a.len() && (#[trigger] a[j]).0 == k;
        lemma_ascending_agree(a, b, sums, j);
        assert(b[j].0 < b[a.len() as int].0);
    }
    if b.len() < a.len() {
        let k = a[b.len() as int].0;
        assert(sums.contains_key(k));
        let j = choose|j: int| 0 <= j < b.len() && (#[trigger] b[j]).0 == k;
        lemma_ascending_agree(a, b, sums, j);
        assert(a[j].0 < a[b.len() as int].0);
    }
    assert forall|i: int| 0 <= i < a.len() implies a[i] == b[i] by {
        lemma_ascending_agree(a, b, sums, i);
    }
    assert(a =~= b);
    if a != ascending_entries(sums) {
        let c = ascending_entries(sums);
        assert(is_ascending(c, sums));
        if c.len() < a.len() {
            let k = a[c.len() as int].0;
            assert(sums.contains_key(k));
            let j = choose|j: int| 0 <= j < c.len() && (#[trigger] c[j]).0 == k;
            lemma_ascending_agree(a, c, sums, j);
            assert(a[j].0 < a[c.len() as int].0);
        }
        if a.len() < c.len() {
            let k = c[a.len() as int].0;
            assert(sums.contains_key(k));
            let j = choose|j: int| 0 <= j < a.len() && (#[trigger] a[j]).0 == k;
            lemma_ascending_agree(a, c, sums, j);
            assert(c[j].0 < c[a.len() as int].0);
        }
        assert forall|i: int| 0 <= i < a.len() implies a[i] == c[i] by {
            lemma_ascending_agree(a, c, sums, i);
        }
        assert(a =~= c);
    }
}

/// The transfers that pay `rewards` out of `from`, in their order; a reward of zero is
/// passed over.
pub open spec fn reward_transfers(from: AccountId, rewards: Seq<(AccountId, Balance)>) -> Seq<Transfer>
    decreases rewards.len(),
{
    if rewards.len() == 0 {
        Seq::empty()
    } else {
        let before = reward_transfers(from, rewards.drop_last());
        match reward_transfer(from, rewards.last().0, rewards.last().1) {
            Some(transfer) => before.push(transfer),
            None => before,
        }
    }
}

/// The rewards of a book in the order in which they are paid: the relayer who confirmed,
/// the relayers who delivered, the assigned relayers, both by account, and the treasury.
pub open spec fn rewards_in_order(
    book: RewardsBookView,
    confirmation_relayer: AccountId,
    treasury_account: AccountId,
) -> Seq<(AccountId, Balance)> {
    seq![(confirmation_relayer, book.confirm_sum)] + ascending_entries(book.deliver_sum)
        + ascending_entries(book.assigned_relayers_sum) + seq![
        (treasury_account, book.treasury_sum),
    ]
}

/// Adds the transfer of one reward, if it needs one.
fn push_reward(
    transfers: &mut Vec<Transfer>,
    Ghost(rewards): Ghost<Seq<(AccountId, Balance)>>,
    from: AccountId,
    to: AccountId,
    reward: Balance,
)
    requires
        old(transfers)@ == reward_transfers(from, rewards),
    ensures
        final(transfers)@ == reward_transfers(from, rewards.push((to, reward))),
{
    assert(rewards.push((to, reward)).drop_last() == rewards);
    if let Some(transfer) = do_reward(from, to, reward) {
        transfers.push(transfer);
    }
}

/// Adds the transfers of the rewards of `sums`, by account.
fn push_rewards(
    transfers: &mut Vec<Transfer>,
    Ghost(rewards): Ghost<Seq<(AccountId, Balance)>>,
    from: AccountId,
    sums: &BTreeMap<AccountId, Balance>,
)
    requires
        old(transfers)@ == reward_transfers(from, rewards),
    ensures
        final(transfers)@ == reward_transfers(from, rewards + ascending_entries(sums@)),
{
    let ghost entries: Seq<(AccountId, Balance)> = Seq::empty();
    let ghost done: Set<AccountId> = Set::empty();
    let ghost position: Map<AccountId, int> = Map::empty();
    assert(rewards + entries == rewards);
    for entry in it: sums.iter()
        invariant
            increasing_seq(it.seq().map_values(|kv: (&AccountId, &Balance)| *kv.0)),
            it.seq().len() == sums@.dom().len(),
            forall|i: int|
                0 <= i < it.seq().len() ==> sums@.contains_key(*(#[trigger] it.seq()[i]).0)
                    && sums@[*it.seq()[i].0] == *it.seq()[i].1,
            entries.len() == it.index(),
            forall|i: int|
                0 <= i < entries.len() ==> (#[trigger] entries[i]).0 == *it.seq()[i].0
                    && entries[i].1 == *it.seq()[i].1,
            forall|i: int, j: int|
                0 <= i < j < entries.len() ==> (#[trigger] entries[i]).0 < (#[trigger] entries[j]).0,
            forall|k: AccountId| #[trigger]
                done.contains(k) ==> 0 <= position[k] < entries.len() && entries[position[k]].0 == k,
            done.finite(),
            done.len() == it.index(),
            done.subset_of(sums@.dom()),
            transfers@ == reward_transfers(from, rewards + entries),
    {
        let (k, v) = entry;
        proof {
            let keys = it.seq().map_values(|kv: (&AccountId, &Balance)| *kv.0);
            assert(keys[it.index()] == *k);
            assert forall|i: int| 0 <= i < entries.len() implies (#[trigger] entries[i]).0 < *k by {
                assert(keys[i] == entries[i].0);
                assert(keys[i].cmp_spec(&keys[it.index()]) is Less);
            }
            if done.contains(*k) {
                assert(entries[position[*k]].0 < *k);
            }
        }
        push_reward(transfers, Ghost(rewards + entries), from, *k, *v);
        proof {
            assert((rewards + entries).push((*k, *v)) == rewards + entries.push((*k, *v)));
            position = position.insert(*k, it.index());
            done = done.insert(*k);
            entries = entries.push((*k, *v));
        }
    }
    proof {
        vstd::set_lib::lemma_subset_equality(done, sums@.dom());
        assert forall|k: AccountId| #[trigger] sums@.contains_key(k) implies exists|i: int|
            0 <= i < entries.len() && (#[trigger] entries[i]).0 == k by {
            assert(done.contains(k));
            assert(entries[position[k]].0 == k);
        }
        assert(is_ascending(entries, sums@));
        lemma_ascending_unique(entries, entries, sums@);
    }
}

impl FeeMarketPayment {
    /// Lists the transfers that pay out a settled batch from the fund account: to the
    /// relayer who confirmed, to the relayers who delivered, to the assigned relayers and
    /// to the treasury, in this order and within each map by account. Nothing is
    /// transferred for a sum of zero, and the fund account is kept alive.
    pub fn pay_relayers_rewards(
        book: &RewardsBook,
        confirmation_relayer: AccountId,
        relayer_fund_account: AccountId,
        treasury_account: AccountId,
    ) -> (transfers: Vec<Transfer>)
        ensures
            transfers@ == reward_transfers(
                relayer_fund_account,
                rewards_in_order(book@, confirmation_relayer, treasury_account),
            ),
    {
        let mut transfers: Vec<Transfer> = Vec::new();
        let ghost first = seq![(confirmation_relayer, book.confirm_sum)];
        push_reward(
            &mut transfers,
            Ghost(Seq::empty()),
            relayer_fund_account,
            confirmation_relayer,
            book.confirm_sum,
        );
        assert(Seq::<(AccountId, Balance)>::empty().push((confirmation_relayer, book.confirm_sum))
            == first);
        push_rewards(&mut transfers, Ghost(first), relayer_fund_account, &book.deliver_sum);
        let ghost second = first + ascending_entries(book.deliver_sum@);
        push_rewards(
            &mut transfers,
            Ghost(second),
            relayer_fund_account,
            &book.assigned_relayers_sum,
        );
        let ghost third = second + ascending_entries(book.assigned_relayers_sum@);
        push_reward(
            &mut transfers,
            Ghost(third),
            relayer_fund_account,
            treasury_account,
            book.treasury_sum,
        );
        assert(third.push((treasury_account, book.treasury_sum)) == rewards_in_order(
            book@,
            confirmation_relayer,
            treasury_account,
        ));
        transfers
    }
}

} // verus!
