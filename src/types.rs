//! Ledger value types shared by the markets and the bets.
use vstd::prelude::*;

verus! {

/// An amount of tokens, counted in the smallest unit.
pub type Amount = u128;

/// A point in time, in microseconds since the epoch.
pub type Timestamp = u64;

/// Largest value any pool may reach. Keeping pools within 64 bits makes the
/// product `stake * total_pool` of a payout fit in an `Amount`.
pub const MAX_POOL: u128 = 18446744073709551615;

/// Lifecycle of a market: `Active` until it is resolved. `Cancelled` is a
/// terminal state that no operation of this engine produces.
#[derive(Clone, Copy, Debug, PartialEq, Eq, Structural)]
pub enum MarketStatus {
    Active,
    Resolved,
    Cancelled,
}

/// The outcome a bet is placed on.
#[derive(Clone, Copy, Debug, PartialEq, Eq, Structural)]
pub enum BetSide {
    Yes,
    No,
}

/// Why an operation was rejected. A rejected operation changes nothing.
#[derive(Clone, Copy, Debug, PartialEq, Eq, Structural)]
pub enum MarketError {
    /// Unknown market or bet id.
    NotFound,
    /// The market is in the wrong status or time window for the operation.
    InvalidState,
    /// A malformed argument: empty text, zero amount, a past end date, or an
    /// amount that would take a pool past `MAX_POOL`.
    InvalidInput,
    /// The caller may not perform the operation.
    Unauthorized,
    /// The bet has already been paid out.
    AlreadyClaimed,
}

/// The side that wins when the oracle reports `final_value`: reaching the
/// target (equality included) resolves `Yes`.
pub open spec fn winning_side(final_value: u64, target_value: u64) -> BetSide {
    if final_value >= target_value {
        BetSide::Yes
    } else {
        BetSide::No
    }
}

/// Decides the outcome of a market from the reported value.
pub fn outcome_for(final_value: u64, target_value: u64) -> (r: BetSide)
    ensures
        r == winning_side(final_value, target_value),
{
    if final_value >= target_value {
        BetSide::Yes
    } else {
        BetSide::No
    }
}

/// The payout owed on a winning stake: its share of the whole pool, rounded
/// down. With no stake on the winning side every stake is refunded.
pub open spec fn payout_of(stake: int, total_pool: int, winning_pool: int) -> int {
    if winning_pool == 0 {
        stake
    } else {
        stake * total_pool / winning_pool
    }
}

/// Computes `payout_of` on amounts within the pool bound.
pub fn compute_payout(stake: Amount, total_pool: Amount, winning_pool: Amount) -> (r: Amount)
    requires
        total_pool <= MAX_POOL,
        stake <= total_pool,
        winning_pool <= total_pool,
    ensures
        r == payout_of(stake as int, total_pool as int, winning_pool as int),
{
    if winning_pool == 0 {
        stake
    } else {
        assert(stake * total_pool <= MAX_POOL * MAX_POOL) by (nonlinear_arith)
            requires
                stake <= total_pool,
                total_pool <= MAX_POOL,
        ;
        (stake * total_pool) / winning_pool
    }
}

} // verus!
