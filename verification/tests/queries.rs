use lynora::service::{bet_to_ql, decimal_string, market_to_ql};
use lynora::{BetOption, LynoraState, MarketStatus, MutationRoot, QueryRoot, ServiceError};

const CREATOR: u64 = 7;
const CHAIN: u64 = 3;
const ALICE: u64 = 100;
const BOB: u64 = 200;

fn sample_state() -> LynoraState {
    let mut s = LynoraState::new();
    s.create_market(
        Some(CREATOR),
        CHAIN,
        50,
        "First?".to_string(),
        "first market".to_string(),
        0,
    )
    .unwrap();
    s.create_market(
        Some(CREATOR),
        CHAIN,
        60,
        "Second?".to_string(),
        "second market".to_string(),
        10,
    )
    .unwrap();
    s.place_bet(Some(ALICE), 70, 1, BetOption::Up, 100).unwrap();
    s.place_bet(Some(BOB), 80, 1, BetOption::Down, 300).unwrap();
    s.place_bet(Some(ALICE), 90, 2, BetOption::Down, 40).unwrap();
    s.resolve_market(Some(CREATOR), 95, 1, BetOption::Up, 12345).unwrap();
    s
}

#[test]
fn decimal_rendering() {
    assert_eq!(decimal_string(0), "0");
    assert_eq!(decimal_string(7), "7");
    assert_eq!(decimal_string(42), "42");
    assert_eq!(decimal_string(1_000_000), "1000000");
    assert_eq!(decimal_string(u64::MAX), "18446744073709551615");
}

#[test]
fn default_state_is_empty_placeholder() {
    let s = LynoraState::default();
    assert_eq!(s.markets.len(), 0);
    assert_eq!(s.bets.len(), 0);
    assert_eq!(s.next_market_id, 0);
    let s2 = LynoraState::new();
    assert_eq!(s2.next_market_id, 1);
}

#[test]
fn get_market_and_bets() {
    let s = sample_state();
    assert_eq!(s.get_market(1).unwrap().id, 1);
    assert_eq!(s.get_market(2).unwrap().question, "Second?");
    assert!(s.get_market(3).is_none());

    let alice_bets = s.get_user_bets(ALICE);
    assert_eq!(alice_bets.len(), 2);
    assert_eq!(alice_bets[0].market_id, 1);
    assert_eq!(alice_bets[1].market_id, 2);

    let market_bets = s.get_market_bets(1);
    assert_eq!(market_bets.len(), 2);
    assert_eq!(market_bets[0].user, ALICE);
    assert_eq!(market_bets[1].user, BOB);

    assert!(s.get_user_bet(2, BOB).is_none());
    assert_eq!(s.get_user_bet(2, ALICE).unwrap().amount, 40);
}

#[test]
fn active_markets_listing() {
    let s = sample_state();
    let active = s.active_markets();
    assert_eq!(active.len(), 1);
    assert_eq!(active[0].id, 2);
}

#[test]
fn market_projection_fields() {
    let s = sample_state();
    let q = market_to_ql(s.get_market(1).unwrap());
    assert_eq!(q.id, 1);
    assert_eq!(q.creator, "7");
    assert_eq!(q.creator_chain, "3");
    assert_eq!(q.question, "First?");
    assert_eq!(q.description, "first market");
    assert_eq!(q.end_time, 50);
    assert_eq!(q.status, "Resolved");
    assert_eq!(q.total_up_bets, "100");
    assert_eq!(q.total_down_bets, "300");
    assert_eq!(q.total_pool, "400");
    assert_eq!(q.winning_option, Some("Up".to_string()));
    assert_eq!(q.created_at, 50);
    assert_eq!(q.resolution_price, Some(12345));

    let q2 = market_to_ql(s.get_market(2).unwrap());
    assert_eq!(q2.status, "Active");
    assert_eq!(q2.winning_option, None);
    assert_eq!(q2.resolution_price, None);
}

#[test]
fn bet_projection_fields() {
    let s = sample_state();
    let b = bet_to_ql(s.get_user_bet(1, BOB).unwrap());
    assert_eq!(b.market_id, 1);
    assert_eq!(b.user, "200");
    assert_eq!(b.option, "Down");
    assert_eq!(b.amount, "300");
    assert_eq!(b.timestamp, 80);
    assert!(!b.claimed);
}

#[test]
fn query_root_surface() {
    let s = sample_state();
    let root = QueryRoot;

    let all = root.markets(&s);
    assert_eq!(all.len(), 2);
    assert_eq!(all[0].id, 1);
    assert_eq!(all[1].id, 2);

    let one = root.market(&s, 2).unwrap();
    assert_eq!(one.question, "Second?");
    assert!(root.market(&s, 9).is_none());

    let active = root.active_markets(&s);
    assert_eq!(active.len(), 1);
    assert_eq!(active[0].id, 2);

    let alice = root.user_bets(&s, ALICE);
    assert_eq!(alice.len(), 2);
    assert_eq!(alice[0].amount, "100");
    assert_eq!(alice[1].amount, "40");

    let bets = root.market_bets(&s, 1);
    assert_eq!(bets.len(), 2);

    assert_eq!(root.calculate_reward(&s, 1, ALICE), Some("400".to_string()));
    assert_eq!(root.calculate_reward(&s, 1, BOB), Some("0".to_string()));
    assert_eq!(root.calculate_reward(&s, 2, ALICE), None);

    assert!(MutationRoot.dummy());
}

#[test]
fn service_error_message() {
    assert_eq!(ServiceError::MarketNotFound.message(), "Market not found");
}

#[test]
fn markets_status_labels() {
    let s = sample_state();
    assert_eq!(s.get_market(1).unwrap().status, MarketStatus::Resolved);
    assert_eq!(s.get_market(2).unwrap().status, MarketStatus::Active);
}
