use prediction_market::bond_factory::{
    BondFactoryContract, BondFactoryService, Query as BondQuery, QueryResponse as BondResponse,
};
use prediction_market::engine::MarketStore;
use prediction_market::prediction_market::{
    Message, Outcome, PredictionMarketContract, PredictionMarketService, Query, QueryResponse,
};
use prediction_market::types::{compute_payout, outcome_for, BetSide, MarketError, MarketStatus, MAX_POOL};

const T: u64 = 1_000_000;

fn s(x: &str) -> String {
    x.to_string()
}

fn store_with_market(target: u64) -> MarketStore {
    let mut st = MarketStore::new(s("oracle"));
    let id = st
        .create_market(s("alice"), s("BTC above target"), s("Reported price"), s("crypto"), target, T + 10, T)
        .unwrap();
    assert_eq!(id, 0);
    st
}

#[test]
fn scenario_yes_wins_and_exhausts_pool() {
    let mut st = store_with_market(100);
    assert_eq!(st.place_bet(s("bob"), 0, BetSide::Yes, 100, T + 1), Ok(0));
    assert_eq!(st.place_bet(s("carol"), 0, BetSide::No, 50, T + 2), Ok(1));
    assert_eq!(st.resolve_market(&s("oracle"), 0, 150, [7u8; 32], T + 11), Ok(BetSide::Yes));
    assert_eq!(st.claim_winnings(&s("bob"), 0), Ok(150));
    assert_eq!(st.claim_winnings(&s("carol"), 1), Err(MarketError::InvalidState));
    let m = st.get_market(0).unwrap();
    assert_eq!(m.paid_out, 150);
    assert_eq!(m.total_pool, 150);
    assert_eq!(m.status, MarketStatus::Resolved);
    assert_eq!(m.current_value, 150);
    assert_eq!(m.report_hash, Some([7u8; 32]));
}

#[test]
fn tie_resolves_yes() {
    let mut st = store_with_market(100);
    assert_eq!(st.resolve_market(&s("oracle"), 0, 100, [0u8; 32], T + 10), Ok(BetSide::Yes));
    let mut st2 = store_with_market(100);
    assert_eq!(st2.resolve_market(&s("oracle"), 0, 99, [0u8; 32], T + 10), Ok(BetSide::No));
    assert_eq!(outcome_for(100, 100), BetSide::Yes);
    assert_eq!(outcome_for(99, 100), BetSide::No);
}

#[test]
fn bet_after_end_or_on_resolved_market_is_invalid_state() {
    let mut st = store_with_market(100);
    assert_eq!(st.place_bet(s("bob"), 0, BetSide::Yes, 10, T + 1), Ok(0));
    assert_eq!(st.place_bet(s("bob"), 0, BetSide::Yes, 10, T + 10), Err(MarketError::InvalidState));
    let m = st.get_market(0).unwrap();
    assert_eq!((m.total_pool, m.yes_pool, m.no_pool), (10, 10, 0));
    assert_eq!(st.resolve_market(&s("oracle"), 0, 1, [0u8; 32], T + 10), Ok(BetSide::No));
    assert_eq!(st.place_bet(s("bob"), 0, BetSide::No, 10, T + 5), Err(MarketError::InvalidState));
    let m = st.get_market(0).unwrap();
    assert_eq!((m.total_pool, m.yes_pool, m.no_pool), (10, 10, 0));
    assert_eq!(st.bets.len(), 1);
}

#[test]
fn second_claim_fails_with_already_claimed() {
    let mut st = store_with_market(100);
    st.place_bet(s("bob"), 0, BetSide::Yes, 40, T + 1).unwrap();
    st.place_bet(s("dan"), 0, BetSide::Yes, 20, T + 1).unwrap();
    st.place_bet(s("carol"), 0, BetSide::No, 30, T + 1).unwrap();
    st.resolve_market(&s("oracle"), 0, 200, [1u8; 32], T + 20).unwrap();
    assert_eq!(st.claim_winnings(&s("bob"), 0), Ok(60));
    assert_eq!(st.claim_winnings(&s("bob"), 0), Err(MarketError::AlreadyClaimed));
    assert_eq!(st.get_market(0).unwrap().paid_out, 60);
    assert_eq!(st.claim_winnings(&s("dan"), 1), Ok(30));
    assert_eq!(st.get_market(0).unwrap().paid_out, 90);
}

#[test]
fn payouts_round_down_and_stay_within_pool() {
    let mut st = store_with_market(100);
    st.place_bet(s("a"), 0, BetSide::Yes, 1, T + 1).unwrap();
    st.place_bet(s("b"), 0, BetSide::Yes, 1, T + 1).unwrap();
    st.place_bet(s("c"), 0, BetSide::Yes, 1, T + 1).unwrap();
    st.place_bet(s("d"), 0, BetSide::No, 7, T + 1).unwrap();
    st.resolve_market(&s("oracle"), 0, 100, [1u8; 32], T + 10).unwrap();
    let mut total = 0u128;
    for (who, id) in [("a", 0u64), ("b", 1), ("c", 2)] {
        let p = st.claim_winnings(&s(who), id).unwrap();
        assert_eq!(p, 3);
        total += p;
    }
    assert_eq!(total, 9);
    assert!(total <= st.get_market(0).unwrap().total_pool);
    assert_eq!(compute_payout(1, 3, 2), 1);
    assert_eq!(compute_payout(100, 150, 100), 150);
    assert_eq!(compute_payout(25, 80, 0), 25);
}

#[test]
fn no_winning_stake_refunds_everyone() {
    let mut st = store_with_market(100);
    st.place_bet(s("bob"), 0, BetSide::No, 30, T + 1).unwrap();
    st.place_bet(s("carol"), 0, BetSide::No, 20, T + 2).unwrap();
    assert_eq!(st.resolve_market(&s("oracle"), 0, 500, [2u8; 32], T + 10), Ok(BetSide::Yes));
    let a = st.claim_winnings(&s("bob"), 0).unwrap();
    let b = st.claim_winnings(&s("carol"), 1).unwrap();
    assert_eq!((a, b), (30, 20));
    let m = st.get_market(0).unwrap();
    assert_eq!(a + b, m.total_pool);
    assert_eq!(m.paid_out, 50);
}

#[test]
fn created_markets_and_placed_bets_are_found_again() {
    let mut st = store_with_market(100);
    let id = st.create_market(s("erin"), s("Rain"), s("Rain tomorrow"), s("weather"), 5, T + 99, T + 3).unwrap();
    assert_eq!(id, 1);
    let m = st.get_market(1).unwrap();
    assert_eq!(m.id, 1);
    assert_eq!(m.creator, "erin");
    assert_eq!(m.title, "Rain");
    assert_eq!(m.description, "Rain tomorrow");
    assert_eq!(m.category, "weather");
    assert_eq!(m.target_value, 5);
    assert_eq!(m.current_value, 0);
    assert_eq!(m.end_date, T + 99);
    assert_eq!(m.created_at, T + 3);
    assert_eq!(m.status, MarketStatus::Active);
    assert_eq!((m.total_pool, m.yes_pool, m.no_pool, m.paid_out), (0, 0, 0, 0));
    assert!(st.get_market(2).is_none());
    assert_eq!(st.get_markets().len(), 2);

    st.place_bet(s("bob"), 0, BetSide::Yes, 5, T + 1).unwrap();
    st.place_bet(s("carol"), 1, BetSide::No, 6, T + 4).unwrap();
    st.place_bet(s("bob"), 1, BetSide::Yes, 7, T + 5).unwrap();
    let on1: Vec<u64> = st.get_bets(1).iter().map(|b| b.id).collect();
    assert_eq!(on1, vec![1, 2]);
    let by_bob: Vec<u64> = st.get_user_bets(&s("bob")).iter().map(|b| b.id).collect();
    assert_eq!(by_bob, vec![0, 2]);
    assert!(st.get_user_bets(&s("zed")).is_empty());
    let b = &st.get_bets(1)[1];
    assert_eq!((b.market_id, b.bettor.as_str(), b.side, b.amount, b.timestamp, b.claimed), (1, "bob", BetSide::Yes, 7, T + 5, false));
}

#[test]
fn odds_are_recorded_as_exact_ratios() {
    let mut st = store_with_market(100);
    st.place_bet(s("bob"), 0, BetSide::Yes, 100, T + 1).unwrap();
    st.place_bet(s("carol"), 0, BetSide::No, 50, T + 2).unwrap();
    assert_eq!((st.bets[0].odds_numerator, st.bets[0].odds_denominator), (100, 100));
    assert_eq!((st.bets[1].odds_numerator, st.bets[1].odds_denominator), (150, 50));
}

#[test]
fn create_rejects_bad_input_without_using_an_id() {
    let mut st = MarketStore::new(s("oracle"));
    assert_eq!(st.create_market(s("a"), s(""), s("d"), s("c"), 1, T + 1, T), Err(MarketError::InvalidInput));
    assert_eq!(st.create_market(s("a"), s("t"), s(""), s("c"), 1, T + 1, T), Err(MarketError::InvalidInput));
    assert_eq!(st.create_market(s("a"), s("t"), s("d"), s("c"), 1, T, T), Err(MarketError::InvalidInput));
    assert_eq!(st.create_market(s("a"), s("t"), s("d"), s(""), 1, T + 1, T), Ok(0));
}

#[test]
fn place_bet_errors() {
    let mut st = store_with_market(100);
    assert_eq!(st.place_bet(s("bob"), 3, BetSide::Yes, 1, T), Err(MarketError::NotFound));
    assert_eq!(st.place_bet(s("bob"), 0, BetSide::Yes, 0, T), Err(MarketError::InvalidInput));
    assert_eq!(st.place_bet(s("bob"), 0, BetSide::Yes, MAX_POOL, T), Ok(0));
    assert_eq!(st.place_bet(s("bob"), 0, BetSide::No, 1, T), Err(MarketError::InvalidInput));
    assert_eq!(st.bets.len(), 1);
}

#[test]
fn resolve_errors() {
    let mut st = store_with_market(100);
    assert_eq!(st.resolve_market(&s("mallory"), 0, 1, [0u8; 32], T + 10), Err(MarketError::Unauthorized));
    assert_eq!(st.resolve_market(&s("oracle"), 9, 1, [0u8; 32], T + 10), Err(MarketError::NotFound));
    assert_eq!(st.resolve_market(&s("oracle"), 0, 1, [0u8; 32], T + 9), Err(MarketError::InvalidState));
    assert_eq!(st.resolve_market(&s("oracle"), 0, 1, [0u8; 32], T + 10), Ok(BetSide::No));
    assert_eq!(st.resolve_market(&s("oracle"), 0, 1, [0u8; 32], T + 11), Err(MarketError::InvalidState));
}

#[test]
fn claim_errors() {
    let mut st = store_with_market(100);
    st.place_bet(s("bob"), 0, BetSide::Yes, 10, T + 1).unwrap();
    assert_eq!(st.claim_winnings(&s("bob"), 5), Err(MarketError::NotFound));
    assert_eq!(st.claim_winnings(&s("bob"), 0), Err(MarketError::InvalidState));
    st.resolve_market(&s("oracle"), 0, 100, [0u8; 32], T + 10).unwrap();
    assert_eq!(st.claim_winnings(&s("carol"), 0), Err(MarketError::Unauthorized));
    assert_eq!(st.claim_winnings(&s("bob"), 0), Ok(10));
}

#[test]
fn contract_and_service_dispatch() {
    let mut c = PredictionMarketContract::instantiate(s("oracle"));
    let op = Message::CreateMarket {
        title: s("t"),
        description: s("d"),
        category: s("c"),
        target_value: 100,
        end_date: T + 10,
    };
    assert_eq!(c.execute_operation(&s("alice"), T, op), Ok(Outcome::MarketCreated(0)));
    let bet = Message::PlaceBet { market_id: 0, side: BetSide::Yes, amount: 100 };
    assert_eq!(c.execute_operation(&s("bob"), T + 1, bet), Ok(Outcome::BetPlaced(0)));
    let bet = Message::PlaceBet { market_id: 0, side: BetSide::No, amount: 50 };
    assert_eq!(c.execute_message(&s("carol"), T + 2, bet), Ok(Outcome::BetPlaced(1)));
    let res = Message::ResolveMarket { market_id: 0, final_value: 150, oracle_report_hash: [3u8; 32] };
    assert_eq!(c.execute_operation(&s("oracle"), T + 11, res), Ok(Outcome::MarketResolved(BetSide::Yes)));
    assert_eq!(c.execute_operation(&s("bob"), T + 12, Message::ClaimWinnings { bet_id: 0 }), Ok(Outcome::WinningsPaid(150)));
    assert_eq!(
        c.execute_operation(&s("bob"), T + 13, Message::ClaimWinnings { bet_id: 0 }),
        Err(MarketError::AlreadyClaimed)
    );
    let svc = PredictionMarketService::new(c.store());
    match svc.handle_query(Query::GetMarket { id: 0 }) {
        QueryResponse::Market(Some(m)) => assert_eq!((m.creator.as_str(), m.paid_out), ("alice", 150)),
        other => panic!("unexpected {:?}", other),
    }
    match svc.handle_query(Query::GetUserBets { user: s("carol") }) {
        QueryResponse::UserBets(v) => assert_eq!(v.len(), 1),
        other => panic!("unexpected {:?}", other),
    }
    match svc.handle_query(Query::GetBets { market_id: 0 }) {
        QueryResponse::Bets(v) => assert_eq!(v.len(), 2),
        other => panic!("unexpected {:?}", other),
    }
    match svc.handle_query(Query::GetMarkets) {
        QueryResponse::Markets(v) => assert_eq!(v.len(), 1),
        other => panic!("unexpected {:?}", other),
    }
}

#[test]
fn bond_factory_lists_nothing() {
    let svc = BondFactoryService;
    match svc.handle_query(BondQuery::GetBonds) {
        Ok(BondResponse::Bonds(v)) => assert!(v.is_empty()),
        Err(e) => panic!("unexpected {:?}", e),
    }
    let mut c = BondFactoryContract;
    let op = prediction_market::bond_factory::Message::CreateBond {
        creator: s("a"),
        total_supply: 10,
        revenue_share_percent: 5,
        maturity_date: T,
        initial_price: 1,
        category: s("c"),
    };
    assert_eq!(c.execute_operation(op), Ok(()));
}

#[test]
fn pools_stay_balanced_after_every_operation() {
    let mut st = store_with_market(100);
    st.create_market(s("erin"), s("t"), s("d"), s("c"), 7, T + 50, T).unwrap();
    let balanced = |st: &MarketStore| st.get_markets().iter().all(|m| m.total_pool == m.yes_pool + m.no_pool);
    assert!(balanced(&st));
    st.place_bet(s("bob"), 0, BetSide::Yes, 11, T + 1).unwrap();
    assert!(balanced(&st));
    st.place_bet(s("carol"), 1, BetSide::No, 13, T + 1).unwrap();
    st.place_bet(s("dan"), 0, BetSide::No, 17, T + 2).unwrap();
    assert!(balanced(&st));
    let _ = st.place_bet(s("dan"), 0, BetSide::No, 0, T + 2);
    assert!(balanced(&st));
    st.resolve_market(&s("oracle"), 0, 3, [0u8; 32], T + 10).unwrap();
    st.claim_winnings(&s("dan"), 2).unwrap();
    assert!(balanced(&st));
    let m = st.get_market(0).unwrap();
    assert_eq!((m.total_pool, m.yes_pool, m.no_pool, m.paid_out), (28, 11, 17, 28));
}
