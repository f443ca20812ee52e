//! Fractions in parts per million, applied to balances.

use crate::relayer::Balance;
use vstd::prelude::*;

verus! {

/// The number of parts that make a whole.
pub const MILLION: u32 = 1_000_000;

/// A fraction between zero and one, in parts per million.
#[derive(Clone, Copy, Debug, PartialEq, Eq, Structural)]
pub struct Ratio {
    pub parts: u32,
}

/// `parts` millionths of `amount`, rounded to the nearest whole number, an exact half
/// down. More than a million parts count as one million.
pub open spec fn ratio_of(parts: u32, amount: Balance) -> Balance {
    let parts = if parts <= MILLION {
        parts
    } else {
        MILLION
    };
    ((amount * parts + 499_999) / 1_000_000) as Balance
}

/// Multiplies `amount` by a `Permill` of `sp_runtime`: `Permill::from_parts(parts) * amount`.
///
/// Not proved, but taken from that crate: `from_parts` takes at most a million parts, and
/// the multiplication of a `Permill` with a balance does not overflow and rounds the exact
/// product to the nearest whole number, an exact half down. It computes the share of
/// the whole millions and of the rest apart; [`lemma_ratio_of_by_parts`] shows that this
/// is what [`ratio_of`] states in one quotient.
#[verifier::external_body]
fn permill_mul(parts: u32, amount: Balance) -> (r: Balance)
    ensures
        r == ratio_of(parts, amount),
{
    sp_runtime::Permill::from_parts(parts) * amount
}

impl Ratio {
    /// The ratio of `parts` millionths, at most one.
    pub fn from_parts(parts: u32) -> (r: Ratio)
        ensures
            r.parts == if parts <= MILLION {
                parts
            } else {
                MILLION
            },
    {
        Ratio { parts: if parts <= MILLION { parts } else { MILLION } }
    }

    /// The ratio's share of `amount`.
    pub fn of(&self, amount: Balance) -> (r: Balance)
        ensures
            r == ratio_of(self.parts, amount),
            r <= amount,
    {
        proof {
            lemma_ratio_of_bounds(self.parts, amount);
        }
        permill_mul(self.parts, amount)
    }
}

/// A share never exceeds the whole, the share of nothing is nothing, no part of an
/// amount is nothing, and a million parts are the whole.
pub proof fn lemma_ratio_of_bounds(parts: u32, amount: Balance)
    ensures
        ratio_of(parts, amount) <= amount,
        ratio_of(parts, 0) == 0,
        ratio_of(0, amount) == 0,
        parts >= MILLION ==> ratio_of(parts, amount) == amount,
        (amount * (if parts <= MILLION {
            parts
        } else {
            MILLION
        }) + 499_999) / 1_000_000 == ratio_of(parts, amount),
{
    let p: int = if parts <= MILLION {
        parts as int
    } else {
        MILLION as int
    };
    let a = amount as int;
    assert(0 <= a * p <= a * 1_000_000) by (nonlinear_arith)
        requires
            0 <= a,
            0 <= p <= 1_000_000,
    ;
    assert((a * p + 499_999) / 1_000_000 <= a) by (nonlinear_arith)
        requires
            0 <= a * p <= a * 1_000_000,
    ;
    assert(0 <= (a * p + 499_999) / 1_000_000) by (nonlinear_arith)
        requires
            0 <= a * p,
    ;
    assert((a * 1_000_000 + 499_999) / 1_000_000 == a) by (nonlinear_arith);
    assert(0 * p == 0) by (nonlinear_arith);
    assert(a * 0 == 0) by (nonlinear_arith);
}

/// The share can be had without a product that leaves the range of balances: the whole
/// millions of the amount give the parts once each, and the rest below a million gives
/// its own share, rounded in the same way.
pub proof fn lemma_ratio_of_by_parts(parts: u32, amount: Balance)
    ensures
        ({
            let p: int = if parts <= MILLION {
                parts as int
            } else {
                MILLION as int
            };
            let rest = (amount % 1_000_000) * p;
            ratio_of(parts, amount) == (amount / 1_000_000) * p + rest / 1_000_000 + if rest
                % 1_000_000 > 500_000 {
                1int
            } else {
                0int
            }
        }),
{
    let p: int = if parts <= MILLION {
        parts as int
    } else {
        MILLION as int
    };
    let a = amount as int;
    let q = a / 1_000_000;
    let r = a % 1_000_000;
    let rest = r * p;
    lemma_ratio_of_bounds(parts, amount);
    assert(a * p == q * p * 1_000_000 + rest) by (nonlinear_arith)
        requires
            a == q * 1_000_000 + r,
            rest == r * p,
    ;
    assert(0 <= rest) by (nonlinear_arith)
        requires
            0 <= r,
            0 <= p,
            rest == r * p,
    ;
    let whole = rest / 1_000_000;
    let frac = rest % 1_000_000;
    let up: int = if frac > 500_000 {
        1
    } else {
        0
    };
    assert((q * p * 1_000_000 + rest + 499_999) / 1_000_000 == q * p + whole + up)
        by (nonlinear_arith)
        requires
            rest == whole * 1_000_000 + frac,
            0 <= frac < 1_000_000,
            up == if frac > 500_000 {
                1int
            } else {
                0int
            },
    ;
}

} // verus!
