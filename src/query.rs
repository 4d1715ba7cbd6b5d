//! Read-only projections of the market store.
use crate::engine::MarketStore;
use crate::market::{Bet, PredictionMarket};
use vstd::prelude::*;

verus! {

/// The bets that `p` selects, in their order in `bets`.
pub open spec fn select(bets: Seq<Bet>, p: spec_fn(Bet) -> bool) -> Seq<Bet>
    decreases bets.len(),
{
    if bets.len() == 0 {
        Seq::empty()
    } else if p(bets.last()) {
        select(bets.drop_last(), p).push(bets.last())
    } else {
        select(bets.drop_last(), p)
    }
}

/// Selects the bets on market `market_id`.
pub open spec fn of_market(market_id: u64) -> spec_fn(Bet) -> bool {
    |b: Bet| b.market_id == market_id
}

/// Selects the bets placed by `user`.
pub open spec fn of_bettor(user: Seq<char>) -> spec_fn(Bet) -> bool {
    |b: Bet| b.bettor@ == user
}

/// `b` occurs in `r`, and no other entry of `r` carries its id.
pub open spec fn listed_once(r: Seq<Bet>, b: Bet) -> bool {
    &&& exists|k: int| 0 <= k < r.len() && r[k] == b
    &&& forall|k1: int, k2: int|
        0 <= k1 < r.len() && 0 <= k2 < r.len() && r[k1].id == b.id && r[k2].id == b.id ==> k1 == k2
}

/// The market with id `id`, if there is one.
pub open spec fn market_lookup(store: MarketStore, id: u64) -> Option<PredictionMarket> {
    if id < store.markets@.len() {
        Some(store.markets@[id as int])
    } else {
        None
    }
}

impl MarketStore {
    /// All markets, in id order.
    pub fn get_markets(&self) -> (r: Vec<PredictionMarket>)
        ensures
            r@ == self.markets@,
    {
        let mut r: Vec<PredictionMarket> = Vec::new();
        let mut i: usize = 0;
        while i < self.markets.len()
            invariant
                i <= self.markets@.len(),
                r@ == self.markets@.subrange(0, i as int),
            decreases self.markets@.len() - i,
        {
            r.push(self.markets[i].duplicate());
            i = i + 1;
            assert(r@ =~= self.markets@.subrange(0, i as int));
        }
        assert(self.markets@.subrange(0, i as int) =~= self.markets@);
        r
    }

    /// The market with id `id`, or `None` when there is no such market.
    pub fn get_market(&self, id: u64) -> (r: Option<PredictionMarket>)
        ensures
            r == market_lookup(*self, id),
    {
        if id >= self.markets.len() as u64 || id as usize >= self.markets.len() {
            None
        } else {
            Some(self.markets[id as usize].duplicate())
        }
    }

    /// The bets on market `market_id`, in the order they were placed.
    pub fn get_bets(&self, market_id: u64) -> (r: Vec<Bet>)
        ensures
            r@ == select(self.bets@, of_market(market_id)),
    {
        let mut r: Vec<Bet> = Vec::new();
        let mut i: usize = 0;
        while i < self.bets.len()
            invariant
                i <= self.bets@.len(),
                r@ == select(self.bets@.subrange(0, i as int), of_market(market_id)),
            decreases self.bets@.len() - i,
        {
            if self.bets[i].market_id == market_id {
                r.push(self.bets[i].duplicate());
            }
            assert(self.bets@.subrange(0, i + 1).drop_last() =~= self.bets@.subrange(0, i as int));
            i = i + 1;
        }
        assert(self.bets@.subrange(0, i as int) =~= self.bets@);
        r
    }

    /// The bets placed by `user`, in the order they were placed.
    pub fn get_user_bets(&self, user: &String) -> (r: Vec<Bet>)
        ensures
            r@ == select(self.bets@, of_bettor(user@)),
    {
        let mut r: Vec<Bet> = Vec::new();
        let mut i: usize = 0;
        while i < self.bets.len()
            invariant
                i <= self.bets@.len(),
                r@ == select(self.bets@.subrange(0, i as int), of_bettor(user@)),
            decreases self.bets@.len() - i,
        {
            if self.bets[i].bettor == *user {
                r.push(self.bets[i].duplicate());
            }
            assert(self.bets@.subrange(0, i + 1).drop_last() =~= self.bets@.subrange(0, i as int));
            i = i + 1;
        }
        assert(self.bets@.subrange(0, i as int) =~= self.bets@);
        r
    }
}

} // verus!
