//! The boundary of the engine: operations and messages in, queries out.
use crate::engine::MarketStore;
use crate::market::{Bet, PredictionMarket};
use crate::query::{market_lookup, of_bettor, of_market, select};
use crate::types::{Amount, BetSide, MarketError, Timestamp};
use vstd::prelude::*;

verus! {

/// An operation on the engine, from a local user or another chain.
#[derive(Clone, Debug)]
pub enum Message {
    CreateMarket {
        title: String,
        description: String,
        category: String,
        target_value: u64,
        end_date: Timestamp,
    },
    PlaceBet { market_id: u64, side: BetSide, amount: Amount },
    ResolveMarket { market_id: u64, final_value: u64, oracle_report_hash: [u8; 32] },
    ClaimWinnings { bet_id: u64 },
}

/// What an accepted operation produced. `BetPlaced` asks the transfer
/// mechanism to keep the stake in escrow; `WinningsPaid` asks it to pay the
/// amount to the caller.
#[derive(Clone, Copy, Debug, PartialEq, Eq, Structural)]
pub enum Outcome {
    MarketCreated(u64),
    BetPlaced(u64),
    MarketResolved(BetSide),
    WinningsPaid(Amount),
}

/// A read-only request.
#[derive(Clone, Debug)]
pub enum Query {
    GetMarkets,
    GetMarket { id: u64 },
    GetBets { market_id: u64 },
    GetUserBets { user: String },
}

/// The answer to a `Query`.
#[derive(Clone, Debug)]
pub enum QueryResponse {
    Markets(Vec<PredictionMarket>),
    Market(Option<PredictionMarket>),
    Bets(Vec<Bet>),
    UserBets(Vec<Bet>),
}

/// Applying `op` from `caller` at time `now` took `before` to `after` and
/// returned `r`: a rejection changes nothing, an acceptance makes the change
/// that the engine's operation describes.
pub open spec fn applied(
    before: MarketStore,
    after: MarketStore,
    caller: String,
    now: Timestamp,
    op: Message,
    r: Result<Outcome, MarketError>,
) -> bool {
    match op {
        Message::CreateMarket { title, description, category, target_value, end_date } => {
            match before.create_check(title, description, end_date, now) {
                Some(e) => r == Err::<Outcome, MarketError>(e) && after == before,
                None => {
                    &&& r == Ok::<Outcome, MarketError>(Outcome::MarketCreated(before.markets@.len() as u64))
                    &&& before.created(after, caller, title, description, category, target_value, end_date, now)
                },
            }
        },
        Message::PlaceBet { market_id, side, amount } => {
            match before.place_check(market_id, amount, now) {
                Some(e) => r == Err::<Outcome, MarketError>(e) && after == before,
                None => {
                    &&& r == Ok::<Outcome, MarketError>(Outcome::BetPlaced(before.bets@.len() as u64))
                    &&& before.bet_placed(after, caller, market_id, side, amount, now)
                },
            }
        },
        Message::ResolveMarket { market_id, final_value, oracle_report_hash } => {
            match before.resolve_check(caller, market_id, now) {
                Some(e) => r == Err::<Outcome, MarketError>(e) && after == before,
                None => {
                    &&& r == Ok::<Outcome, MarketError>(
                        Outcome::MarketResolved(
                            crate::types::winning_side(final_value, before.markets@[market_id as int].target_value),
                        ),
                    )
                    &&& before.resolved(after, market_id, final_value, oracle_report_hash)
                },
            }
        },
        Message::ClaimWinnings { bet_id } => {
            match before.claim_check(caller, bet_id) {
                Some(e) => r == Err::<Outcome, MarketError>(e) && after == before,
                None => {
                    &&& r == Ok::<Outcome, MarketError>(Outcome::WinningsPaid(before.claim_payout(bet_id) as Amount))
                    &&& before.claimed(after, bet_id)
                },
            }
        },
    }
}

/// `r` is the answer to `query` over `store`.
pub open spec fn answers(store: MarketStore, query: Query, r: QueryResponse) -> bool {
    match query {
        Query::GetMarkets => match r {
            QueryResponse::Markets(v) => v@ == store.markets@,
            _ => false,
        },
        Query::GetMarket { id } => match r {
            QueryResponse::Market(m) => m == market_lookup(store, id),
            _ => false,
        },
        Query::GetBets { market_id } => match r {
            QueryResponse::Bets(v) => v@ == select(store.bets@, of_market(market_id)),
            _ => false,
        },
        Query::GetUserBets { user } => match r {
            QueryResponse::UserBets(v) => v@ == select(store.bets@, of_bettor(user@)),
            _ => false,
        },
    }
}

/// The state machine of one chain: it applies operations and messages, one
/// at a time, to the market store.
pub struct PredictionMarketContract {
    pub state: MarketStore,
}

impl PredictionMarketContract {
    /// Resumes from a stored state.
    pub fn load(state: MarketStore) -> (r: Self)
        requires
            state.wf(),
        ensures
            r.state == state,
    {
        PredictionMarketContract { state }
    }

    /// A fresh contract whose markets `oracle` alone may resolve.
    pub fn instantiate(oracle: String) -> (r: Self)
        ensures
            r.state.wf(),
            r.state.markets@.len() == 0,
            r.state.bets@.len() == 0,
            r.state.oracle == oracle,
    {
        PredictionMarketContract { state: MarketStore::new(oracle) }
    }

    /// Applies an operation signed by `caller` at chain time `now`.
    pub fn execute_operation(&mut self, caller: &String, now: Timestamp, op: Message) -> (r: Result<Outcome, MarketError>)
        requires
            old(self).state.wf(),
        ensures
            final(self).state.wf(),
            applied(old(self).state, final(self).state, *caller, now, op, r),
    {
        match op {
            Message::CreateMarket { title, description, category, target_value, end_date } => {
                match self.state.create_market(
                    caller.clone(),
                    title,
                    description,
                    category,
                    target_value,
                    end_date,
                    now,
                ) {
                    Ok(id) => Ok(Outcome::MarketCreated(id)),
                    Err(e) => Err(e),
                }
            },
            Message::PlaceBet { market_id, side, amount } => {
                match self.state.place_bet(caller.clone(), market_id, side, amount, now) {
                    Ok(id) => Ok(Outcome::BetPlaced(id)),
                    Err(e) => Err(e),
                }
            },
            Message::ResolveMarket { market_id, final_value, oracle_report_hash } => {
                match self.state.resolve_market(caller, market_id, final_value, oracle_report_hash, now) {
                    Ok(side) => Ok(Outcome::MarketResolved(side)),
                    Err(e) => Err(e),
                }
            },
            Message::ClaimWinnings { bet_id } => {
                match self.state.claim_winnings(caller, bet_id) {
                    Ok(amount) => Ok(Outcome::WinningsPaid(amount)),
                    Err(e) => Err(e),
                }
            },
        }
    }

    /// Applies a message delivered from another chain, sent by `caller`;
    /// messages carry the same operations and are applied alike.
    pub fn execute_message(&mut self, caller: &String, now: Timestamp, msg: Message) -> (r: Result<Outcome, MarketError>)
        requires
            old(self).state.wf(),
        ensures
            final(self).state.wf(),
            applied(old(self).state, final(self).state, *caller, now, msg, r),
    {
        self.execute_operation(caller, now, msg)
    }

    /// Hands the state over for persistence.
    pub fn store(self) -> (r: MarketStore)
        ensures
            r == self.state,
    {
        self.state
    }
}

/// Answers read-only queries over a snapshot of the market store.
pub struct PredictionMarketService {
    pub state: MarketStore,
}

impl PredictionMarketService {
    /// A service over `state`.
    pub fn new(state: MarketStore) -> (r: Self)
        ensures
            r.state == state,
    {
        PredictionMarketService { state }
    }

    /// Answers `query`.
    pub fn handle_query(&self, query: Query) -> (r: QueryResponse)
        ensures
            answers(self.state, query, r),
    {
        match query {
            Query::GetMarkets => QueryResponse::Markets(self.state.get_markets()),
            Query::GetMarket { id } => QueryResponse::Market(self.state.get_market(id)),
            Query::GetBets { market_id } => QueryResponse::Bets(self.state.get_bets(market_id)),
            Query::GetUserBets { user } => QueryResponse::UserBets(self.state.get_user_bets(&user)),
        }
    }
}

} // verus!
