//! Market and bet records, and sums of stakes over a sequence of bets.
use crate::types::{payout_of, winning_side, Amount, BetSide, MarketStatus, Timestamp};
use vstd::prelude::*;

verus! {

/// A yes/no market on whether a reported value reaches `target_value`.
#[derive(Clone, Debug)]
pub struct PredictionMarket {
    pub id: u64,
    pub creator: String,
    pub title: String,
    pub description: String,
    pub category: String,
    pub target_value: u64,
    /// The value reported at resolution; zero before that.
    pub current_value: u64,
    pub end_date: Timestamp,
    pub created_at: Timestamp,
    pub status: MarketStatus,
    pub total_pool: Amount,
    pub yes_pool: Amount,
    pub no_pool: Amount,
    /// Commitment to the oracle report that resolved the market.
    pub report_hash: Option<[u8; 32]>,
    /// Sum of all payouts made on this market so far.
    pub paid_out: Amount,
}

/// A stake on one side of a market.
#[derive(Clone, Debug)]
pub struct Bet {
    pub id: u64,
    pub market_id: u64,
    pub bettor: String,
    pub side: BetSide,
    pub amount: Amount,
    /// The payout multiplier when the bet was admitted, as the exact ratio
    /// `odds_numerator / odds_denominator` (total pool over own side's pool,
    /// this bet included). Informational: payouts are computed at claim time.
    pub odds_numerator: Amount,
    pub odds_denominator: Amount,
    pub timestamp: Timestamp,
    /// Set once the bet has been paid out.
    pub claimed: bool,
}

impl PredictionMarket {
    /// The pool staked on `side`.
    pub open spec fn pool_of(self, side: BetSide) -> int {
        match side {
            BetSide::Yes => self.yes_pool as int,
            BetSide::No => self.no_pool as int,
        }
    }

    /// The side whose bets are paid once the market is resolved: the winning
    /// side, or the losing side (as a refund) when nobody bet on the winner.
    pub open spec fn paying_side(self) -> BetSide {
        let w = winning_side(self.current_value, self.target_value);
        if self.pool_of(w) > 0 {
            w
        } else {
            match w {
                BetSide::Yes => BetSide::No,
                BetSide::No => BetSide::Yes,
            }
        }
    }

    /// The pool of the winning side of a resolved market.
    pub open spec fn winning_pool(self) -> int {
        self.pool_of(winning_side(self.current_value, self.target_value))
    }

    /// A field-by-field copy.
    pub fn duplicate(&self) -> (r: Self)
        ensures
            r == *self,
    {
        PredictionMarket {
            id: self.id,
            creator: self.creator.clone(),
            title: self.title.clone(),
            description: self.description.clone(),
            category: self.category.clone(),
            target_value: self.target_value,
            current_value: self.current_value,
            end_date: self.end_date,
            created_at: self.created_at,
            status: self.status,
            total_pool: self.total_pool,
            yes_pool: self.yes_pool,
            no_pool: self.no_pool,
            report_hash: self.report_hash,
            paid_out: self.paid_out,
        }
    }
}

impl Bet {
    /// A field-by-field copy.
    pub fn duplicate(&self) -> (r: Self)
        ensures
            r == *self,
    {
        Bet {
            id: self.id,
            market_id: self.market_id,
            bettor: self.bettor.clone(),
            side: self.side,
            amount: self.amount,
            odds_numerator: self.odds_numerator,
            odds_denominator: self.odds_denominator,
            timestamp: self.timestamp,
            claimed: self.claimed,
        }
    }
}

/// Sum of the amounts of the bets that `p` selects.
pub open spec fn stake_sum(bets: Seq<Bet>, p: spec_fn(Bet) -> bool) -> int
    decreases bets.len(),
{
    if bets.len() == 0 {
        0
    } else {
        stake_sum(bets.drop_last(), p) + if p(bets.last()) {
            bets.last().amount as int
        } else {
            0
        }
    }
}

/// Selects the bets on `side` of market `market_id`.
pub open spec fn on_side(market_id: u64, side: BetSide) -> spec_fn(Bet) -> bool {
    |b: Bet| b.market_id == market_id && b.side == side
}

/// Selects the bets of market `market_id` that have been paid out.
pub open spec fn claimed_on(market_id: u64) -> spec_fn(Bet) -> bool {
    |b: Bet| b.market_id == market_id && b.claimed
}

/// A sum of stakes is never negative.
pub proof fn lemma_stake_sum_nonneg(bets: Seq<Bet>, p: spec_fn(Bet) -> bool)
    ensures
        stake_sum(bets, p) >= 0,
    decreases bets.len(),
{
    if bets.len() > 0 {
        lemma_stake_sum_nonneg(bets.drop_last(), p);
    }
}

/// Appending a bet adds its amount to every sum that selects it.
pub proof fn lemma_stake_sum_push(bets: Seq<Bet>, b: Bet, p: spec_fn(Bet) -> bool)
    ensures
        stake_sum(bets.push(b), p) == stake_sum(bets, p) + if p(b) {
            b.amount as int
        } else {
            0
        },
{
    assert(bets.push(b).drop_last() =~= bets);
}

/// Replacing one bet swaps its share of a sum for that of the new bet.
pub proof fn lemma_stake_sum_update(bets: Seq<Bet>, j: int, b: Bet, p: spec_fn(Bet) -> bool)
    requires
        0 <= j < bets.len(),
    ensures
        stake_sum(bets.update(j, b), p) == stake_sum(bets, p) - (if p(bets[j]) {
            bets[j].amount as int
        } else {
            0
        }) + (if p(b) {
            b.amount as int
        } else {
            0
        }),
    decreases bets.len(),
{
    let u = bets.update(j, b);
    if j == bets.len() - 1 {
        assert(u.drop_last() =~= bets.drop_last());
    } else {
        assert(u.drop_last() =~= bets.drop_last().update(j, b));
        lemma_stake_sum_update(bets.drop_last(), j, b, p);
    }
}

/// When every bet that `p` selects is also selected by `q`, and `q` selects
/// the bet at `j` while `p` does not, the sum under `q` covers the sum under
/// `p` plus that bet.
pub proof fn lemma_stake_sum_extra(
    bets: Seq<Bet>,
    p: spec_fn(Bet) -> bool,
    q: spec_fn(Bet) -> bool,
    j: int,
)
    requires
        0 <= j < bets.len(),
        forall|k: int| 0 <= k < bets.len() && #[trigger] p(bets[k]) ==> q(bets[k]),
        q(bets[j]),
        !p(bets[j]),
    ensures
        stake_sum(bets, p) + bets[j].amount <= stake_sum(bets, q),
    decreases bets.len(),
{
    let n = bets.len() - 1;
    let d = bets.drop_last();
    if j == n {
        lemma_stake_sum_mono(d, p, q);
    } else {
        assert forall|k: int| 0 <= k < d.len() && #[trigger] p(d[k]) implies q(d[k]) by {
            assert(d[k] == bets[k]);
        }
        lemma_stake_sum_extra(d, p, q, j);
    }
}

/// A sum under `p` is at most the sum under any `q` that selects more.
pub proof fn lemma_stake_sum_mono(bets: Seq<Bet>, p: spec_fn(Bet) -> bool, q: spec_fn(Bet) -> bool)
    requires
        forall|k: int| 0 <= k < bets.len() && #[trigger] p(bets[k]) ==> q(bets[k]),
    ensures
        stake_sum(bets, p) <= stake_sum(bets, q),
    decreases bets.len(),
{
    if bets.len() > 0 {
        let d = bets.drop_last();
        assert forall|k: int| 0 <= k < d.len() && #[trigger] p(d[k]) implies q(d[k]) by {
            assert(d[k] == bets[k]);
        }
        lemma_stake_sum_mono(d, p, q);
    }
}

/// Sum of the payouts of the claimed bets of market `market_id`, whose total
/// pool is `total_pool` and winning pool `winning_pool`.
pub open spec fn payout_sum(bets: Seq<Bet>, market_id: u64, total_pool: int, winning_pool: int) -> int
    decreases bets.len(),
{
    if bets.len() == 0 {
        0
    } else {
        let b = bets.last();
        payout_sum(bets.drop_last(), market_id, total_pool, winning_pool) + if b.market_id == market_id
            && b.claimed {
            payout_of(b.amount as int, total_pool, winning_pool)
        } else {
            0
        }
    }
}

/// Appending an unclaimed bet leaves every payout sum as it was.
pub proof fn lemma_payout_sum_push(bets: Seq<Bet>, b: Bet, market_id: u64, total_pool: int, winning_pool: int)
    requires
        !b.claimed,
    ensures
        payout_sum(bets.push(b), market_id, total_pool, winning_pool) == payout_sum(
            bets,
            market_id,
            total_pool,
            winning_pool,
        ),
{
    assert(bets.push(b).drop_last() =~= bets);
}

/// A market none of whose bets is claimed has paid nothing, whatever its pools.
pub proof fn lemma_payout_sum_unclaimed(bets: Seq<Bet>, market_id: u64, total_pool: int, winning_pool: int)
    requires
        forall|k: int| 0 <= k < bets.len() && (#[trigger] bets[k]).market_id == market_id ==> !bets[k].claimed,
    ensures
        payout_sum(bets, market_id, total_pool, winning_pool) == 0,
    decreases bets.len(),
{
    if bets.len() > 0 {
        let d = bets.drop_last();
        assert forall|k: int| 0 <= k < d.len() && (#[trigger] d[k]).market_id == market_id implies !d[k].claimed by {
            assert(d[k] == bets[k]);
        }
        lemma_payout_sum_unclaimed(d, market_id, total_pool, winning_pool);
    }
}

/// Marking the unclaimed bet at `j` as claimed adds its payout to the sum of
/// its market, and changes no other.
pub proof fn lemma_payout_sum_claim(bets: Seq<Bet>, j: int, market_id: u64, total_pool: int, winning_pool: int)
    requires
        0 <= j < bets.len(),
        !bets[j].claimed,
    ensures
        payout_sum(bets.update(j, Bet { claimed: true, ..bets[j] }), market_id, total_pool, winning_pool)
            == payout_sum(bets, market_id, total_pool, winning_pool) + if bets[j].market_id == market_id {
            payout_of(bets[j].amount as int, total_pool, winning_pool)
        } else {
            0
        },
    decreases bets.len(),
{
    let nb = Bet { claimed: true, ..bets[j] };
    let u = bets.update(j, nb);
    if j == bets.len() - 1 {
        assert(u.drop_last() =~= bets.drop_last());
    } else {
        assert(u.drop_last() =~= bets.drop_last().update(j, nb));
        lemma_payout_sum_claim(bets.drop_last(), j, market_id, total_pool, winning_pool);
    }
}

} // verus!
