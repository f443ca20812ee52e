//! Enrolled relayers and their ranking.

use core::cmp::Ordering;
use vstd::prelude::*;
use vstd::std_specs::cmp::PartialOrdSpecImpl;

verus! {

/// Identity of an account.
pub type AccountId = u64;

/// Amounts of currency.
pub type Balance = u128;

/// Relayer who has enrolled in the fee market.
#[derive(Debug, Default, PartialEq, Eq, Structural)]
pub struct Relayer {
    pub id: AccountId,
    pub collateral: Balance,
    pub fee: Balance,
}

impl Clone for Relayer {
    fn clone(&self) -> (r: Relayer)
        ensures
            r == *self,
    {
        Relayer { id: self.id, collateral: self.collateral, fee: self.fee }
    }
}

impl Relayer {
    /// The relayer `id`, who has locked `collateral` and asks `fee` for a message.
    pub fn new(id: AccountId, collateral: Balance, fee: Balance) -> (r: Relayer)
        ensures
            r == (Relayer { id, collateral, fee }),
    {
        Relayer { id, collateral, fee }
    }

    /// The rank of `self` against `other`: the lower fee comes first, and among equal
    /// fees the higher collateral.
    pub open spec fn ranking(&self, other: &Relayer) -> Ordering {
        if self.fee < other.fee {
            Ordering::Less
        } else if self.fee > other.fee {
            Ordering::Greater
        } else if self.collateral > other.collateral {
            Ordering::Less
        } else if self.collateral < other.collateral {
            Ordering::Greater
        } else {
            Ordering::Equal
        }
    }

    /// Whether `self` ranks no later than `other`.
    pub open spec fn ranks_before_or_with(&self, other: &Relayer) -> bool {
        self.ranking(other) != Ordering::Greater
    }

    /// Compares two relayers by rank.
    pub fn cmp(&self, other: &Relayer) -> (r: Ordering)
        ensures
            r == self.ranking(other),
    {
        if self.fee < other.fee {
            Ordering::Less
        } else if self.fee > other.fee {
            Ordering::Greater
        } else if self.collateral > other.collateral {
            Ordering::Less
        } else if self.collateral < other.collateral {
            Ordering::Greater
        } else {
            Ordering::Equal
        }
    }
}

impl PartialOrd for Relayer {
    fn partial_cmp(&self, other: &Relayer) -> (r: Option<Ordering>) {
        Some(self.cmp(other))
    }
}

impl PartialOrdSpecImpl for Relayer {
    open spec fn obeys_partial_cmp_spec() -> bool {
        true
    }

    open spec fn partial_cmp_spec(&self, other: &Relayer) -> Option<Ordering> {
        Some(self.ranking(other))
    }
}

/// The reverse of an ordering.
pub open spec fn reversed(o: Ordering) -> Ordering {
    match o {
        Ordering::Less => Ordering::Greater,
        Ordering::Equal => Ordering::Equal,
        Ordering::Greater => Ordering::Less,
    }
}

/// The ranking is total: of two relayers each is ranked against the other, and the two
/// answers are the reverse of one another.
pub proof fn lemma_ranking_total(a: Relayer, b: Relayer)
    ensures
        a.ranking(&b) == reversed(b.ranking(&a)),
        a.ranking(&a) == Ordering::Equal,
{
}

/// Two relayers rank equal exactly when they offer the same fee and hold the same
/// collateral.
pub proof fn lemma_ranking_equal(a: Relayer, b: Relayer)
    ensures
        a.ranking(&b) == Ordering::Equal <==> a.fee == b.fee && a.collateral == b.collateral,
{
}

/// The ranking is transitive.
pub proof fn lemma_ranking_transitive(a: Relayer, b: Relayer, c: Relayer)
    requires
        a.ranks_before_or_with(&b),
        b.ranks_before_or_with(&c),
    ensures
        a.ranks_before_or_with(&c),
        a.ranking(&b) == Ordering::Less || b.ranking(&c) == Ordering::Less ==> a.ranking(&c)
            == Ordering::Less,
{
}

} // verus!
