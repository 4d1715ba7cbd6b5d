//! Properties that hold across operations of the settlement engine.
use crate::engine::{new_market, MarketStore};
use crate::market::{payout_sum, Bet};
use crate::query::{listed_once, market_lookup, of_bettor, of_market, select};
use crate::types::{MarketError, MarketStatus, Timestamp};
use vstd::prelude::*;

verus! {

/// In every well-formed store, and so after every operation, each market's
/// total pool is the sum of its two side pools.
pub proof fn lemma_pools_balanced(store: MarketStore)
    requires
        store.wf(),
    ensures
        forall|i: int|
            0 <= i < store.markets@.len() ==> #[trigger] store.markets@[i].total_pool
                == store.markets@[i].yes_pool + store.markets@[i].no_pool,
{
    assert forall|i: int| 0 <= i < store.markets@.len() implies #[trigger] store.markets@[i].total_pool
        == store.markets@[i].yes_pool + store.markets@[i].no_pool by {
        assert(store.market_wf(i));
    }
}

/// The payouts made on a market, summed over its claimed bets, never exceed
/// its total pool; `paid_out` keeps that sum. The pools no longer change once
/// the market is resolved.
pub proof fn lemma_payouts_within_pool(store: MarketStore)
    requires
        store.wf(),
    ensures
        forall|i: int|
            0 <= i < store.markets@.len() ==> {
                let m = #[trigger] store.markets@[i];
                &&& payout_sum(store.bets@, m.id, m.total_pool as int, m.winning_pool()) == m.paid_out
                &&& m.paid_out <= m.total_pool
            },
{
    assert forall|i: int| 0 <= i < store.markets@.len() implies {
        let m = #[trigger] store.markets@[i];
        &&& payout_sum(store.bets@, m.id, m.total_pool as int, m.winning_pool()) == m.paid_out
        &&& m.paid_out <= m.total_pool
    } by {
        assert(store.market_wf(i));
    }
}

/// Claiming a bet a second time fails with `AlreadyClaimed`: `after` is the
/// store as a successful claim of `bet_id` by `caller` leaves `before`.
pub proof fn lemma_second_claim_fails(before: MarketStore, after: MarketStore, caller: String, bet_id: u64)
    requires
        before.wf(),
        before.claim_check(caller, bet_id) is None,
        before.claimed(after, bet_id),
    ensures
        after.claim_check(caller, bet_id) == Some(MarketError::AlreadyClaimed),
{
    assert(before.bet_wf(bet_id as int));
}

/// A market created in `before`, giving `after`, is found under its new id
/// with exactly the fields it was created with.
pub proof fn lemma_created_market_found(
    before: MarketStore,
    after: MarketStore,
    creator: String,
    title: String,
    description: String,
    category: String,
    target_value: u64,
    end_date: Timestamp,
    now: Timestamp,
)
    requires
        before.create_check(title, description, end_date, now) is None,
        before.created(
            after,
            creator,
            title,
            description,
            category,
            target_value,
            end_date,
            now,
        ),
    ensures
        market_lookup(after, before.markets@.len() as u64) == Some(
            new_market(
                before.markets@.len() as u64,
                creator,
                title,
                description,
                category,
                target_value,
                end_date,
                now,
            ),
        ),
        market_lookup(after, before.markets@.len() as u64).unwrap().status == MarketStatus::Active,
{
}

/// Every bet of a store is listed exactly once among the bets of its market
/// and exactly once among the bets of its bettor.
pub proof fn lemma_bet_listed_once(store: MarketStore, j: int)
    requires
        store.wf(),
        0 <= j < store.bets@.len(),
    ensures
        listed_once(select(store.bets@, of_market(store.bets@[j].market_id)), store.bets@[j]),
        listed_once(select(store.bets@, of_bettor(store.bets@[j].bettor@)), store.bets@[j]),
{
    let s = store.bets@;
    assert forall|k: int| 0 <= k < s.len() implies (#[trigger] s[k]).id == k by {
        assert(store.bet_wf(k));
    }
    lemma_select_in_id_order(s, of_market(s[j].market_id), j);
    lemma_select_in_id_order(s, of_bettor(s[j].bettor@), j);
}

/// When each bet's id is its position, a selection lists its bets with
/// strictly increasing ids, and lists each selected bet once.
proof fn lemma_select_in_id_order(s: Seq<Bet>, p: spec_fn(Bet) -> bool, j: int)
    requires
        forall|k: int| 0 <= k < s.len() ==> (#[trigger] s[k]).id == k,
        0 <= j < s.len(),
        p(s[j]),
    ensures
        forall|a: int| 0 <= a < select(s, p).len() ==> (#[trigger] select(s, p)[a]).id < s.len(),
        forall|a: int, b: int|
            0 <= a < b < select(s, p).len() ==> (#[trigger] select(s, p)[a]).id < (
            #[trigger] select(s, p)[b]).id,
        listed_once(select(s, p), s[j]),
    decreases s.len(),
{
    let n = s.len() - 1;
    let d = s.drop_last();
    let r = select(s, p);
    let rd = select(d, p);
    assert forall|k: int| 0 <= k < d.len() implies (#[trigger] d[k]).id == k by {
        assert(d[k] == s[k]);
    }
    if j == n {
        lemma_select_ids_below(d, p);
        assert(r == rd.push(s[j]));
        assert(r[rd.len() as int] == s[j]);
    } else {
        assert(d[j] == s[j]);
        lemma_select_in_id_order(d, p, j);
        let k = choose|k: int| 0 <= k < rd.len() && rd[k] == s[j];
        if p(s.last()) {
            assert(r == rd.push(s.last()));
            assert(r[k] == s[j]);
        } else {
            assert(r == rd);
        }
    }
    lemma_select_ids_below(s, p);
}

/// When each bet's id is its position, a selection lists ids below the
/// sequence's length, in strictly increasing order.
proof fn lemma_select_ids_below(s: Seq<Bet>, p: spec_fn(Bet) -> bool)
    requires
        forall|k: int| 0 <= k < s.len() ==> (#[trigger] s[k]).id == k,
    ensures
        forall|a: int| 0 <= a < select(s, p).len() ==> (#[trigger] select(s, p)[a]).id < s.len(),
        forall|a: int, b: int|
            0 <= a < b < select(s, p).len() ==> (#[trigger] select(s, p)[a]).id < (
            #[trigger] select(s, p)[b]).id,
    decreases s.len(),
{
    if s.len() > 0 {
        let d = s.drop_last();
        assert forall|k: int| 0 <= k < d.len() implies (#[trigger] d[k]).id == k by {
            assert(d[k] == s[k]);
        }
        lemma_select_ids_below(d, p);
        assert(s.last().id == s.len() - 1);
    }
}

} // verus!
