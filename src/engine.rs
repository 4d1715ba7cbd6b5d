//! The market store and the settlement engine that advances it.
use crate::market::{
    claimed_on, lemma_payout_sum_claim, lemma_payout_sum_push, lemma_payout_sum_unclaimed,
    lemma_stake_sum_extra, lemma_stake_sum_nonneg, lemma_stake_sum_push, lemma_stake_sum_update,
    on_side, payout_sum, stake_sum, Bet, PredictionMarket,
};
use crate::types::{
    compute_payout, outcome_for, payout_of, winning_side, Amount, BetSide, MarketError,
    MarketStatus, Timestamp, MAX_POOL,
};
use vstd::prelude::*;

verus! {

/// All markets and bets of one chain. Market `i` sits at index `i` of
/// `markets`, and bet `j` at index `j` of `bets`, so ids are allocated in
/// order and never reused. Only `oracle` may resolve markets.
#[derive(Clone, Debug)]
pub struct MarketStore {
    pub markets: Vec<PredictionMarket>,
    pub bets: Vec<Bet>,
    pub oracle: String,
}

/// The market as it stands after a stake of `amount` on `side`.
pub open spec fn with_stake(m: PredictionMarket, side: BetSide, amount: Amount) -> PredictionMarket {
    PredictionMarket {
        total_pool: (m.total_pool + amount) as Amount,
        yes_pool: if side == BetSide::Yes {
            (m.yes_pool + amount) as Amount
        } else {
            m.yes_pool
        },
        no_pool: if side == BetSide::No {
            (m.no_pool + amount) as Amount
        } else {
            m.no_pool
        },
        ..m
    }
}

/// The market as it stands after resolution on `final_value`.
pub open spec fn with_resolution(m: PredictionMarket, final_value: u64, hash: [u8; 32]) -> PredictionMarket {
    PredictionMarket {
        status: MarketStatus::Resolved,
        current_value: final_value,
        report_hash: Some(hash),
        ..m
    }
}

/// A fresh, active market with empty pools.
pub open spec fn new_market(
    id: u64,
    creator: String,
    title: String,
    description: String,
    category: String,
    target_value: u64,
    end_date: Timestamp,
    now: Timestamp,
) -> PredictionMarket {
    PredictionMarket {
        id,
        creator,
        title,
        description,
        category,
        target_value,
        current_value: 0,
        end_date,
        created_at: now,
        status: MarketStatus::Active,
        total_pool: 0,
        yes_pool: 0,
        no_pool: 0,
        report_hash: None,
        paid_out: 0,
    }
}

impl MarketStore {
    /// Market `i` is consistent with the bets: ids match positions, each pool
    /// is the sum of the stakes on its side, the total is their sum, and
    /// payouts never exceed the total.
    pub open spec fn market_wf(&self, i: int) -> bool {
        let m = self.markets@[i];
        let bets = self.bets@;
        let claimed = stake_sum(bets, claimed_on(m.id));
        &&& m.id == i
        &&& m.total_pool == m.yes_pool + m.no_pool
        &&& m.total_pool <= MAX_POOL
        &&& m.yes_pool == stake_sum(bets, on_side(m.id, BetSide::Yes))
        &&& m.no_pool == stake_sum(bets, on_side(m.id, BetSide::No))
        &&& m.status != MarketStatus::Cancelled
        &&& m.paid_out <= m.total_pool
        &&& m.paid_out == payout_sum(bets, m.id, m.total_pool as int, m.winning_pool())
        &&& m.status == MarketStatus::Active ==> m.paid_out == 0 && claimed == 0
        &&& m.status == MarketStatus::Resolved ==> {
            if m.winning_pool() == 0 {
                m.paid_out == claimed
            } else {
                m.paid_out * m.winning_pool() <= claimed * m.total_pool
            }
        }
    }

    /// Bet `j` is consistent: its id matches its position, its market exists,
    /// its stake is positive, and it was paid only from a resolved market on
    /// that market's paying side.
    pub open spec fn bet_wf(&self, j: int) -> bool {
        let b = self.bets@[j];
        &&& b.id == j
        &&& b.market_id < self.markets@.len()
        &&& b.amount > 0
        &&& b.claimed ==> {
            let m = self.markets@[b.market_id as int];
            m.status == MarketStatus::Resolved && b.side == m.paying_side()
        }
    }

    /// The store's invariant, which every operation preserves.
    pub open spec fn wf(&self) -> bool {
        &&& forall|i: int| 0 <= i < self.markets@.len() ==> #[trigger] self.market_wf(i)
        &&& forall|j: int| 0 <= j < self.bets@.len() ==> #[trigger] self.bet_wf(j)
    }

    /// An empty store whose markets may be resolved by `oracle` alone.
    pub fn new(oracle: String) -> (r: Self)
        ensures
            r.wf(),
            r.markets@.len() == 0,
            r.bets@.len() == 0,
            r.oracle == oracle,
    {
        MarketStore { markets: Vec::new(), bets: Vec::new(), oracle }
    }

    /// Why `create_market` would be rejected, if it would.
    pub open spec fn create_check(&self, title: String, description: String, end_date: Timestamp, now: Timestamp) -> Option<MarketError> {
        if title@.len() == 0 || description@.len() == 0 || end_date <= now {
            Some(MarketError::InvalidInput)
        } else if self.markets@.len() >= u64::MAX {
            Some(MarketError::InvalidState)
        } else {
            None
        }
    }

    /// `after` is this store with a new market appended under the next id.
    pub open spec fn created(
        self,
        after: Self,
        creator: String,
        title: String,
        description: String,
        category: String,
        target_value: u64,
        end_date: Timestamp,
        now: Timestamp,
    ) -> bool {
        &&& after.markets@ == self.markets@.push(
            new_market(
                self.markets@.len() as u64,
                creator,
                title,
                description,
                category,
                target_value,
                end_date,
                now,
            ),
        )
        &&& after.bets@ == self.bets@
        &&& after.oracle == self.oracle
    }

    /// Opens a new market under the next market id and returns that id.
    pub fn create_market(
        &mut self,
        creator: String,
        title: String,
        description: String,
        category: String,
        target_value: u64,
        end_date: Timestamp,
        now: Timestamp,
    ) -> (r: Result<u64, MarketError>)
        requires
            old(self).wf(),
        ensures
            final(self).wf(),
            match old(self).create_check(title, description, end_date, now) {
                Some(e) => r == Err::<u64, MarketError>(e) && *final(self) == *old(self),
                None => {
                    &&& r == Ok::<u64, MarketError>(old(self).markets@.len() as u64)
                    &&& old(self).created(
                        *final(self),
                        creator,
                        title,
                        description,
                        category,
                        target_value,
                        end_date,
                        now,
                    )
                },
            },
    {
        if title.as_str().is_empty() || description.as_str().is_empty() || end_date <= now {
            return Err(MarketError::InvalidInput);
        }
        let n = self.markets.len();
        if n as u64 == u64::MAX {
            return Err(MarketError::InvalidState);
        }
        let id = n as u64;
        let m = PredictionMarket {
            id,
            creator,
            title,
            description,
            category,
            target_value,
            current_value: 0,
            end_date,
            created_at: now,
            status: MarketStatus::Active,
            total_pool: 0,
            yes_pool: 0,
            no_pool: 0,
            report_hash: None,
            paid_out: 0,
        };
        self.markets.push(m);
        proof {
            assert forall|i: int| 0 <= i < self.markets@.len() implies #[trigger] self.market_wf(i) by {
                if i == n {
                    assert forall|j: int| 0 <= j < self.bets@.len() implies (
                    #[trigger] self.bets@[j]).market_id < id by {
                        assert(old(self).bet_wf(j));
                    }
                    lemma_no_stake_on_new_market(self.bets@, id);
                    lemma_payout_sum_unclaimed(self.bets@, id, 0, self.markets@[i].winning_pool());
                } else {
                    assert(old(self).market_wf(i));
                }
            }
            assert forall|j: int| 0 <= j < self.bets@.len() implies #[trigger] self.bet_wf(j) by {
                assert(old(self).bet_wf(j));
            }
        }
        Ok(id)
    }

    /// Why `place_bet` would be rejected, if it would.
    pub open spec fn place_check(&self, market_id: u64, amount: Amount, now: Timestamp) -> Option<MarketError> {
        if market_id >= self.markets@.len() {
            Some(MarketError::NotFound)
        } else {
            let m = self.markets@[market_id as int];
            if m.status != MarketStatus::Active || now >= m.end_date {
                Some(MarketError::InvalidState)
            } else if amount == 0 || m.total_pool + amount > MAX_POOL {
                Some(MarketError::InvalidInput)
            } else if self.bets@.len() >= u64::MAX {
                Some(MarketError::InvalidState)
            } else {
                None
            }
        }
    }

    /// The bet that `place_bet` records; its odds count the bet itself.
    pub open spec fn placed_bet(&self, bettor: String, market_id: u64, side: BetSide, amount: Amount, now: Timestamp) -> Bet {
        let m = self.markets@[market_id as int];
        Bet {
            id: self.bets@.len() as u64,
            market_id,
            bettor,
            side,
            amount,
            odds_numerator: (m.total_pool + amount) as Amount,
            odds_denominator: (m.pool_of(side) + amount) as Amount,
            timestamp: now,
            claimed: false,
        }
    }

    /// `after` is this store with the bet recorded and its stake added to
    /// the market's pools.
    pub open spec fn bet_placed(
        self,
        after: Self,
        bettor: String,
        market_id: u64,
        side: BetSide,
        amount: Amount,
        now: Timestamp,
    ) -> bool {
        &&& after.bets@ == self.bets@.push(self.placed_bet(bettor, market_id, side, amount, now))
        &&& after.markets@ == self.markets@.update(
            market_id as int,
            with_stake(self.markets@[market_id as int], side, amount),
        )
        &&& after.oracle == self.oracle
    }

    /// Stakes `amount` on `side` of an active market before its end date and
    /// returns the new bet's id.
    pub fn place_bet(
        &mut self,
        bettor: String,
        market_id: u64,
        side: BetSide,
        amount: Amount,
        now: Timestamp,
    ) -> (r: Result<u64, MarketError>)
        requires
            old(self).wf(),
        ensures
            final(self).wf(),
            match old(self).place_check(market_id, amount, now) {
                Some(e) => r == Err::<u64, MarketError>(e) && *final(self) == *old(self),
                None => {
                    &&& r == Ok::<u64, MarketError>(old(self).bets@.len() as u64)
                    &&& old(self).bet_placed(*final(self), bettor, market_id, side, amount, now)
                },
            },
    {
        if market_id as usize >= self.markets.len() || market_id >= self.markets.len() as u64 {
            return Err(MarketError::NotFound);
        }
        let idx = market_id as usize;
        let m = &self.markets[idx];
        proof {
            assert(self.market_wf(idx as int));
        }
        if m.status != MarketStatus::Active || now >= m.end_date {
            return Err(MarketError::InvalidState);
        }
        if amount == 0 || amount > MAX_POOL - m.total_pool {
            return Err(MarketError::InvalidInput);
        }
        let n = self.bets.len();
        if n as u64 == u64::MAX {
            return Err(MarketError::InvalidState);
        }
        proof {
            assert(self.market_wf(idx as int));
        }
        let total = m.total_pool + amount;
        let own = match side {
            BetSide::Yes => m.yes_pool + amount,
            BetSide::No => m.no_pool + amount,
        };
        let b = Bet {
            id: n as u64,
            market_id,
            bettor,
            side,
            amount,
            odds_numerator: total,
            odds_denominator: own,
            timestamp: now,
            claimed: false,
        };
        let ghost b_spec = b;
        match side {
            BetSide::Yes => self.markets[idx].yes_pool = own,
            BetSide::No => self.markets[idx].no_pool = own,
        }
        self.markets[idx].total_pool = total;
        self.bets.push(b);
        proof {
            assert(self.markets@ =~= old(self).markets@.update(
                idx as int,
                with_stake(old(self).markets@[idx as int], side, amount),
            ));
            assert forall|i: int| 0 <= i < self.markets@.len() implies #[trigger] self.market_wf(i) by {
                assert(old(self).market_wf(i));
                let id = self.markets@[i].id;
                lemma_stake_sum_push(old(self).bets@, b_spec, on_side(id, BetSide::Yes));
                lemma_stake_sum_push(old(self).bets@, b_spec, on_side(id, BetSide::No));
                lemma_stake_sum_push(old(self).bets@, b_spec, claimed_on(id));
                let m = self.markets@[i];
                lemma_payout_sum_push(old(self).bets@, b_spec, id, m.total_pool as int, m.winning_pool());
                if i == idx {
                    assert forall|k: int| 0 <= k < old(self).bets@.len() && (#[trigger] old(self).bets@[k]).market_id == id
                    implies !old(self).bets@[k].claimed by {
                        assert(old(self).bet_wf(k));
                    }
                    let om = old(self).markets@[i];
                    lemma_payout_sum_unclaimed(old(self).bets@, id, m.total_pool as int, m.winning_pool());
                    lemma_payout_sum_unclaimed(old(self).bets@, id, om.total_pool as int, om.winning_pool());
                }
            }
            assert forall|j: int| 0 <= j < self.bets@.len() implies #[trigger] self.bet_wf(j) by {
                if j < n {
                    assert(old(self).bet_wf(j));
                }
            }
        }
        Ok(n as u64)
    }

    /// Why `resolve_market` would be rejected, if it would.
    pub open spec fn resolve_check(&self, caller: String, market_id: u64, now: Timestamp) -> Option<MarketError> {
        if caller@ != self.oracle@ {
            Some(MarketError::Unauthorized)
        } else if market_id >= self.markets@.len() {
            Some(MarketError::NotFound)
        } else {
            let m = self.markets@[market_id as int];
            if m.status != MarketStatus::Active || now < m.end_date {
                Some(MarketError::InvalidState)
            } else {
                None
            }
        }
    }

    /// `after` is this store with market `market_id` resolved on
    /// `final_value`.
    pub open spec fn resolved(self, after: Self, market_id: u64, final_value: u64, hash: [u8; 32]) -> bool {
        &&& after.markets@ == self.markets@.update(
            market_id as int,
            with_resolution(self.markets@[market_id as int], final_value, hash),
        )
        &&& after.bets@ == self.bets@
        &&& after.oracle == self.oracle
    }

    /// Resolves an active market whose end date has come, on the value the
    /// oracle reports, and returns the winning side: `Yes` when `final_value`
    /// reaches the target, equality included.
    pub fn resolve_market(
        &mut self,
        caller: &String,
        market_id: u64,
        final_value: u64,
        oracle_report_hash: [u8; 32],
        now: Timestamp,
    ) -> (r: Result<BetSide, MarketError>)
        requires
            old(self).wf(),
        ensures
            final(self).wf(),
            match old(self).resolve_check(*caller, market_id, now) {
                Some(e) => r == Err::<BetSide, MarketError>(e) && *final(self) == *old(self),
                None => {
                    &&& r == Ok::<BetSide, MarketError>(
                        winning_side(final_value, old(self).markets@[market_id as int].target_value),
                    )
                    &&& old(self).resolved(*final(self), market_id, final_value, oracle_report_hash)
                },
            },
    {
        if *caller != self.oracle {
            return Err(MarketError::Unauthorized);
        }
        if market_id as usize >= self.markets.len() || market_id >= self.markets.len() as u64 {
            return Err(MarketError::NotFound);
        }
        let idx = market_id as usize;
        let m = &self.markets[idx];
        if m.status != MarketStatus::Active || now < m.end_date {
            return Err(MarketError::InvalidState);
        }
        let side = outcome_for(final_value, m.target_value);
        proof {
            assert(self.market_wf(idx as int));
        }
        self.markets[idx].status = MarketStatus::Resolved;
        self.markets[idx].current_value = final_value;
        self.markets[idx].report_hash = Some(oracle_report_hash);
        proof {
            assert(self.markets@ =~= old(self).markets@.update(
                idx as int,
                with_resolution(old(self).markets@[idx as int], final_value, oracle_report_hash),
            ));
            assert forall|i: int| 0 <= i < self.markets@.len() implies #[trigger] self.market_wf(i) by {
                assert(old(self).market_wf(i));
                if i == idx {
                    let w = self.markets@[i].winning_pool();
                    let t = self.markets@[i].total_pool;
                    assert(0 * w <= 0 * t) by (nonlinear_arith);
                    let om = old(self).markets@[i];
                    assert forall|k: int| 0 <= k < self.bets@.len() && (#[trigger] self.bets@[k]).market_id == om.id
                    implies !self.bets@[k].claimed by {
                        assert(old(self).bet_wf(k));
                    }
                    lemma_payout_sum_unclaimed(self.bets@, om.id, t as int, w);
                    lemma_payout_sum_unclaimed(self.bets@, om.id, om.total_pool as int, om.winning_pool());
                }
            }
            assert forall|j: int| 0 <= j < self.bets@.len() implies #[trigger] self.bet_wf(j) by {
                assert(old(self).bet_wf(j));
            }
        }
        Ok(side)
    }

    /// Why `claim_winnings` would be rejected, if it would.
    pub open spec fn claim_check(&self, caller: String, bet_id: u64) -> Option<MarketError> {
        if bet_id >= self.bets@.len() {
            Some(MarketError::NotFound)
        } else {
            let b = self.bets@[bet_id as int];
            let m = self.markets@[b.market_id as int];
            if b.bettor@ != caller@ {
                Some(MarketError::Unauthorized)
            } else if m.status != MarketStatus::Resolved {
                Some(MarketError::InvalidState)
            } else if b.claimed {
                Some(MarketError::AlreadyClaimed)
            } else if b.side != m.paying_side() {
                Some(MarketError::InvalidState)
            } else {
                None
            }
        }
    }

    /// What claiming bet `bet_id` pays.
    pub open spec fn claim_payout(&self, bet_id: u64) -> int {
        let b = self.bets@[bet_id as int];
        let m = self.markets@[b.market_id as int];
        payout_of(b.amount as int, m.total_pool as int, m.winning_pool())
    }

    /// `after` is this store with bet `bet_id` marked as paid and its payout
    /// added to its market's `paid_out`.
    pub open spec fn claimed(self, after: Self, bet_id: u64) -> bool {
        let b = self.bets@[bet_id as int];
        let m = self.markets@[b.market_id as int];
        &&& after.bets@ == self.bets@.update(bet_id as int, Bet { claimed: true, ..b })
        &&& after.markets@ == self.markets@.update(
            b.market_id as int,
            PredictionMarket { paid_out: (m.paid_out + self.claim_payout(bet_id)) as Amount, ..m },
        )
        &&& after.oracle == self.oracle
    }

    /// Pays out a bet of its caller on the paying side of a resolved market,
    /// once, and returns the payout: the stake's share of the whole pool,
    /// rounded down, or the stake itself when nobody bet on the winner.
    pub fn claim_winnings(&mut self, caller: &String, bet_id: u64) -> (r: Result<Amount, MarketError>)
        requires
            old(self).wf(),
        ensures
            final(self).wf(),
            match old(self).claim_check(*caller, bet_id) {
                Some(e) => r == Err::<Amount, MarketError>(e) && *final(self) == *old(self),
                None => {
                    &&& r == Ok::<Amount, MarketError>(old(self).claim_payout(bet_id) as Amount)
                    &&& old(self).claimed(*final(self), bet_id)
                },
            },
    {
        if bet_id as usize >= self.bets.len() || bet_id >= self.bets.len() as u64 {
            return Err(MarketError::NotFound);
        }
        let j = bet_id as usize;
        proof {
            assert(self.bet_wf(j as int));
        }
        let b = &self.bets[j];
        let n_markets = self.markets.len();
        proof {
            assert(b.market_id < n_markets);
        }
        let idx = b.market_id as usize;
        let m = &self.markets[idx];
        if !(b.bettor == *caller) {
            return Err(MarketError::Unauthorized);
        }
        if m.status != MarketStatus::Resolved {
            return Err(MarketError::InvalidState);
        }
        if b.claimed {
            return Err(MarketError::AlreadyClaimed);
        }
        let winner = outcome_for(m.current_value, m.target_value);
        let winning_pool = match winner {
            BetSide::Yes => m.yes_pool,
            BetSide::No => m.no_pool,
        };
        let paying = if winning_pool > 0 {
            winner
        } else {
            match winner {
                BetSide::Yes => BetSide::No,
                BetSide::No => BetSide::Yes,
            }
        };
        if b.side != paying {
            return Err(MarketError::InvalidState);
        }
        let ghost old_bets = self.bets@;
        let ghost mi = idx as int;
        let ghost mid = b.market_id;
        let ghost bs = *b;
        let ghost ms = *m;
        proof {
            assert(self.market_wf(mi));
            assert forall|k: int| 0 <= k < old_bets.len() && #[trigger] claimed_on(mid)(
                old_bets[k],
            ) implies on_side(mid, paying)(old_bets[k]) by {
                assert(self.bet_wf(k));
            }
            lemma_stake_sum_extra(old_bets, claimed_on(mid), on_side(mid, paying), j as int);
            lemma_stake_sum_nonneg(old_bets, claimed_on(mid));
        }
        let payout = compute_payout(b.amount, m.total_pool, winning_pool);
        let ghost claimed = stake_sum(old_bets, claimed_on(mid));
        proof {
            let a = bs.amount as int;
            let t = ms.total_pool as int;
            let w = winning_pool as int;
            let p = ms.paid_out as int;
            if w > 0 {
                assert(payout * w <= a * t) by (nonlinear_arith)
                    requires
                        payout == a * t / w,
                        w > 0,
                ;
                assert((p + payout) * w <= (claimed + a) * t) by (nonlinear_arith)
                    requires
                        p * w <= claimed * t,
                        payout * w <= a * t,
                ;
                assert(p + payout <= t) by (nonlinear_arith)
                    requires
                        (p + payout) * w <= (claimed + a) * t,
                        claimed + a <= w,
                        w > 0,
                        t >= 0,
                ;
            }
        }
        let paid = m.paid_out + payout;
        self.markets[idx].paid_out = paid;
        self.bets[j].claimed = true;
        proof {
            let nb = Bet { claimed: true, ..bs };
            assert(self.bets@ =~= old_bets.update(j as int, nb));
            assert(self.markets@ =~= old(self).markets@.update(
                mi,
                PredictionMarket { paid_out: paid, ..ms },
            ));
            assert forall|i: int| 0 <= i < self.markets@.len() implies #[trigger] self.market_wf(i) by {
                assert(old(self).market_wf(i));
                let id = self.markets@[i].id;
                lemma_stake_sum_update(old_bets, j as int, nb, on_side(id, BetSide::Yes));
                lemma_stake_sum_update(old_bets, j as int, nb, on_side(id, BetSide::No));
                lemma_stake_sum_update(old_bets, j as int, nb, claimed_on(id));
                let m = self.markets@[i];
                lemma_payout_sum_claim(old_bets, j as int, id, m.total_pool as int, m.winning_pool());
            }
            assert forall|k: int| 0 <= k < self.bets@.len() implies #[trigger] self.bet_wf(k) by {
                assert(old(self).bet_wf(k));
            }
        }
        Ok(payout)
    }
}

/// No bet refers to a market id that no market holds yet, so every sum over
/// such an id is zero.
proof fn lemma_no_stake_on_new_market(bets: Seq<Bet>, id: u64)
    requires
        forall|j: int| 0 <= j < bets.len() ==> (#[trigger] bets[j]).market_id < id,
    ensures
        stake_sum(bets, on_side(id, BetSide::Yes)) == 0,
        stake_sum(bets, on_side(id, BetSide::No)) == 0,
        stake_sum(bets, claimed_on(id)) == 0,
    decreases bets.len(),
{
    if bets.len() > 0 {
        let d = bets.drop_last();
        assert forall|j: int| 0 <= j < d.len() implies (#[trigger] d[j]).market_id < id by {
            assert(d[j] == bets[j]);
        }
        lemma_no_stake_on_new_market(d, id);
    }
}

} // verus!
