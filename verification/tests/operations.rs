use lynora::{BetOption, LynoraError, LynoraState, MarketStatus, Message, Operation};

const CREATOR: u64 = 7;
const CHAIN: u64 = 1;
const ALICE: u64 = 100;
const BOB: u64 = 200;
const CAROL: u64 = 300;
const DAVE: u64 = 400;

fn market_with_bets(duration_minutes: u64) -> LynoraState {
    let mut s = LynoraState::new();
    let id = s
        .create_market(
            Some(CREATOR),
            CHAIN,
            0,
            "Will it go up?".to_string(),
            "A question".to_string(),
            duration_minutes,
        )
        .unwrap();
    assert_eq!(id, 1);
    s
}

#[test]
fn market_ids_assigned_in_order() {
    let mut s = LynoraState::new();
    for expected in 1..=3u64 {
        let id = s
            .create_market(Some(CREATOR), CHAIN, 0, "q".to_string(), "d".to_string(), 5)
            .unwrap();
        assert_eq!(id, expected);
    }
    // A failed operation consumes no identifier.
    let err = s.create_market(None, CHAIN, 0, "q".to_string(), "d".to_string(), 5);
    assert_eq!(err, Err(LynoraError::OnlyCreator));
    let id = s
        .create_market(Some(CREATOR), CHAIN, 0, "q".to_string(), "d".to_string(), 5)
        .unwrap();
    assert_eq!(id, 4);
}

#[test]
fn create_market_fields() {
    let mut s = LynoraState::new();
    s.create_market(
        Some(CREATOR),
        CHAIN,
        1_000,
        "q".to_string(),
        "d".to_string(),
        2,
    )
    .unwrap();
    let m = s.get_market(1).unwrap();
    assert_eq!(m.creator, CREATOR);
    assert_eq!(m.creator_chain, CHAIN);
    assert_eq!(m.end_time, 1_000 + 2 * 60_000_000);
    assert_eq!(m.created_at, 1_000);
    assert_eq!(m.status, MarketStatus::Active);
    assert_eq!(m.total_up_bets, 0);
    assert_eq!(m.total_down_bets, 0);
    assert_eq!(m.winning_option, None);
    assert_eq!(m.resolution_price, None);
}

#[test]
fn create_market_end_time_saturates() {
    let mut s = LynoraState::new();
    s.create_market(
        Some(CREATOR),
        CHAIN,
        5,
        "q".to_string(),
        "d".to_string(),
        u64::MAX,
    )
    .unwrap();
    assert_eq!(s.get_market(1).unwrap().end_time, u64::MAX);
}

#[test]
fn place_bet_updates_pools() {
    let mut s = market_with_bets(10);
    assert_eq!(s.place_bet(Some(ALICE), 1, 1, BetOption::Up, 100), Ok(()));
    assert_eq!(s.place_bet(Some(BOB), 2, 1, BetOption::Down, 300), Ok(()));
    let m = s.get_market(1).unwrap();
    assert_eq!(m.total_up_bets, 100);
    assert_eq!(m.total_down_bets, 300);
    assert_eq!(m.total_pool(), 400);
    let b = s.get_user_bet(1, ALICE).unwrap();
    assert_eq!(b.option, BetOption::Up);
    assert_eq!(b.amount, 100);
    assert_eq!(b.timestamp, 1);
    assert!(!b.claimed);
}

#[test]
fn place_bet_zero_amount_rejected() {
    let mut s = market_with_bets(10);
    assert_eq!(
        s.place_bet(Some(ALICE), 1, 1, BetOption::Up, 0),
        Err(LynoraError::InvalidBetAmount)
    );
    assert_eq!(s.bets.len(), 0);
}

#[test]
fn place_bet_requires_signer() {
    let mut s = market_with_bets(10);
    assert_eq!(
        s.place_bet(None, 1, 1, BetOption::Up, 10),
        Err(LynoraError::OnlyCreator)
    );
}

#[test]
fn place_bet_twice_rejected() {
    let mut s = market_with_bets(10);
    assert_eq!(s.place_bet(Some(ALICE), 1, 1, BetOption::Up, 100), Ok(()));
    // A second bet is rejected regardless of the chosen option.
    assert_eq!(
        s.place_bet(Some(ALICE), 2, 1, BetOption::Down, 50),
        Err(LynoraError::AlreadyBet)
    );
    let m = s.get_market(1).unwrap();
    assert_eq!(m.total_up_bets, 100);
    assert_eq!(m.total_down_bets, 0);
    assert_eq!(s.bets.len(), 1);
}

#[test]
fn place_bet_unknown_market_rejected() {
    let mut s = market_with_bets(10);
    assert_eq!(
        s.place_bet(Some(ALICE), 1, 9, BetOption::Up, 10),
        Err(LynoraError::MarketNotFound)
    );
}

#[test]
fn place_bet_on_inactive_market_rejected() {
    let mut s = market_with_bets(0);
    assert_eq!(s.place_bet(Some(ALICE), 0, 1, BetOption::Up, 100), Ok(()));
    assert_eq!(s.resolve_market(Some(CREATOR), 1, 1, BetOption::Up, 42), Ok(()));
    // The market is resolved: betting fails and every total is unchanged.
    assert_eq!(
        s.place_bet(Some(BOB), 2, 1, BetOption::Down, 300),
        Err(LynoraError::MarketNotActive)
    );
    let m = s.get_market(1).unwrap();
    assert_eq!(m.total_up_bets, 100);
    assert_eq!(m.total_down_bets, 0);
    assert_eq!(s.bets.len(), 1);
}

#[test]
fn pool_totals_saturate() {
    let mut s = market_with_bets(10);
    assert_eq!(
        s.place_bet(Some(ALICE), 1, 1, BetOption::Up, u64::MAX - 5),
        Ok(())
    );
    assert_eq!(s.place_bet(Some(BOB), 2, 1, BetOption::Up, 100), Ok(()));
    let m = s.get_market(1).unwrap();
    assert_eq!(m.total_up_bets, u64::MAX);
    assert_eq!(m.total_pool(), u64::MAX);
}

#[test]
fn resolve_before_expiry_rejected() {
    let mut s = market_with_bets(10);
    assert_eq!(
        s.resolve_market(Some(CREATOR), 5, 1, BetOption::Up, 42),
        Err(LynoraError::MarketNotEnded)
    );
    assert_eq!(s.get_market(1).unwrap().status, MarketStatus::Active);
}

#[test]
fn resolve_twice_rejected() {
    let mut s = market_with_bets(0);
    assert_eq!(s.resolve_market(Some(CREATOR), 1, 1, BetOption::Up, 42), Ok(()));
    let before = s.get_market(1).unwrap().winning_option;
    assert_eq!(
        s.resolve_market(Some(CREATOR), 2, 1, BetOption::Down, 99),
        Err(LynoraError::MarketAlreadyResolved)
    );
    let m = s.get_market(1).unwrap();
    // The failed second call changed nothing.
    assert_eq!(m.winning_option, before);
    assert_eq!(m.winning_option, Some(BetOption::Up));
    assert_eq!(m.resolution_price, Some(42));
}

#[test]
fn resolve_by_non_creator_rejected() {
    let mut s = market_with_bets(0);
    assert_eq!(
        s.resolve_market(Some(ALICE), 1, 1, BetOption::Up, 42),
        Err(LynoraError::OnlyCreator)
    );
    assert_eq!(
        s.resolve_market(None, 1, 1, BetOption::Up, 42),
        Err(LynoraError::OnlyCreator)
    );
    assert_eq!(
        s.resolve_market(Some(CREATOR), 1, 9, BetOption::Up, 42),
        Err(LynoraError::MarketNotFound)
    );
}

#[test]
fn resolve_sets_fields() {
    let mut s = market_with_bets(0);
    assert_eq!(s.resolve_market(Some(CREATOR), 7, 1, BetOption::Down, 55), Ok(()));
    let m = s.get_market(1).unwrap();
    assert_eq!(m.status, MarketStatus::Resolved);
    assert_eq!(m.winning_option, Some(BetOption::Down));
    assert_eq!(m.resolution_price, Some(55));
    assert!(m.is_resolved());
    assert!(!m.is_active());
}

#[test]
fn proportional_payout_scenario() {
    // Market with duration 0; A bets 100 on Up, B bets 300 on Down; the
    // creator resolves Up after expiry.
    let mut s = market_with_bets(0);
    assert_eq!(s.place_bet(Some(ALICE), 0, 1, BetOption::Up, 100), Ok(()));
    assert_eq!(s.place_bet(Some(BOB), 0, 1, BetOption::Down, 300), Ok(()));
    assert_eq!(s.resolve_market(Some(CREATOR), 1, 1, BetOption::Up, 42), Ok(()));

    // A's computed reward is floor(100 * 400 / 100) = 400.
    assert_eq!(s.calculate_reward(1, ALICE), Some(400));
    // B is on the losing side: computed reward 0, classified NoReward.
    assert_eq!(s.calculate_reward(1, BOB), Some(0));
    assert_eq!(s.claim_reward(Some(BOB), 1), Err(LynoraError::NoReward));
    assert!(!s.get_user_bet(1, BOB).unwrap().claimed);

    assert_eq!(s.claim_reward(Some(ALICE), 1), Ok(()));
    assert!(s.get_user_bet(1, ALICE).unwrap().claimed);
}

#[test]
fn claim_twice_rejected() {
    let mut s = market_with_bets(0);
    assert_eq!(s.place_bet(Some(ALICE), 0, 1, BetOption::Up, 100), Ok(()));
    assert_eq!(s.resolve_market(Some(CREATOR), 1, 1, BetOption::Up, 42), Ok(()));
    assert_eq!(s.claim_reward(Some(ALICE), 1), Ok(()));
    let bets_before = s.bets.clone();
    assert_eq!(s.claim_reward(Some(ALICE), 1), Err(LynoraError::AlreadyClaimed));
    assert_eq!(s.bets, bets_before);
}

#[test]
fn claim_error_paths() {
    let mut s = market_with_bets(0);
    assert_eq!(s.place_bet(Some(ALICE), 0, 1, BetOption::Up, 100), Ok(()));
    assert_eq!(s.claim_reward(None, 1), Err(LynoraError::OnlyCreator));
    assert_eq!(s.claim_reward(Some(ALICE), 9), Err(LynoraError::MarketNotFound));
    // Not yet resolved.
    assert_eq!(s.claim_reward(Some(ALICE), 1), Err(LynoraError::MarketNotActive));
    assert_eq!(s.resolve_market(Some(CREATOR), 1, 1, BetOption::Up, 42), Ok(()));
    // No bet by this caller.
    assert_eq!(s.claim_reward(Some(BOB), 1), Err(LynoraError::NoReward));
}

#[test]
fn empty_winning_pool_strands_funds() {
    // Nobody bet the winning side: every claim is NoReward, whatever was
    // bet on the losing side.
    let mut s = market_with_bets(0);
    assert_eq!(s.place_bet(Some(ALICE), 0, 1, BetOption::Down, 1_000_000), Ok(()));
    assert_eq!(s.place_bet(Some(BOB), 0, 1, BetOption::Down, 5), Ok(()));
    assert_eq!(s.resolve_market(Some(CREATOR), 1, 1, BetOption::Up, 42), Ok(()));
    assert_eq!(s.calculate_reward(1, ALICE), Some(0));
    assert_eq!(s.calculate_reward(1, BOB), Some(0));
    assert_eq!(s.claim_reward(Some(ALICE), 1), Err(LynoraError::NoReward));
    assert_eq!(s.claim_reward(Some(BOB), 1), Err(LynoraError::NoReward));
    assert!(!s.get_user_bet(1, ALICE).unwrap().claimed);
}

#[test]
fn rounding_dust_is_accepted() {
    // Three winners with 1 each against a losing pool of 1: the pool is 4,
    // each reward is floor(1 * 4 / 3) = 1, and 4 - 3 = 1 is lost to
    // rounding.
    let mut s = market_with_bets(0);
    assert_eq!(s.place_bet(Some(ALICE), 0, 1, BetOption::Up, 1), Ok(()));
    assert_eq!(s.place_bet(Some(BOB), 0, 1, BetOption::Up, 1), Ok(()));
    assert_eq!(s.place_bet(Some(CAROL), 0, 1, BetOption::Up, 1), Ok(()));
    assert_eq!(s.place_bet(Some(DAVE), 0, 1, BetOption::Down, 1), Ok(()));
    assert_eq!(s.resolve_market(Some(CREATOR), 1, 1, BetOption::Up, 42), Ok(()));
    let mut total = 0u64;
    for user in [ALICE, BOB, CAROL] {
        let r = s.calculate_reward(1, user).unwrap();
        assert_eq!(r, 1);
        total += r;
        assert_eq!(s.claim_reward(Some(user), 1), Ok(()));
    }
    assert_eq!(total, 3);
    assert!(total < 4);
}

#[test]
fn reward_intermediate_product_is_wide() {
    // amount * pool exceeds the amount range; the quotient still fits.
    let mut s = market_with_bets(0);
    let big = 1 << 40;
    assert_eq!(s.place_bet(Some(ALICE), 0, 1, BetOption::Up, big), Ok(()));
    assert_eq!(s.place_bet(Some(BOB), 0, 1, BetOption::Down, 3 * big), Ok(()));
    assert_eq!(s.resolve_market(Some(CREATOR), 1, 1, BetOption::Up, 42), Ok(()));
    assert_eq!(s.calculate_reward(1, ALICE), Some(4 * big));
}

#[test]
fn calculate_reward_is_pure_and_guarded() {
    let mut s = market_with_bets(0);
    assert_eq!(s.calculate_reward(9, ALICE), None);
    assert_eq!(s.calculate_reward(1, ALICE), None);
    assert_eq!(s.place_bet(Some(ALICE), 0, 1, BetOption::Up, 100), Ok(()));
    // Unresolved market: nothing claimable yet.
    assert_eq!(s.calculate_reward(1, ALICE), None);
    assert_eq!(s.resolve_market(Some(CREATOR), 1, 1, BetOption::Up, 42), Ok(()));
    assert_eq!(s.calculate_reward(1, ALICE), Some(100));
    assert_eq!(s.claim_reward(Some(ALICE), 1), Ok(()));
    // Claimed already: nothing claimable again.
    assert_eq!(s.calculate_reward(1, ALICE), None);
}

#[test]
fn execute_operation_dispatches() {
    let mut s = LynoraState::new();
    assert_eq!(
        s.execute_operation(
            Some(CREATOR),
            CHAIN,
            0,
            Operation::CreateMarket {
                question: "q".to_string(),
                description: "d".to_string(),
                duration_minutes: 0,
            },
        ),
        Ok(())
    );
    assert_eq!(
        s.execute_operation(
            Some(ALICE),
            CHAIN,
            0,
            Operation::PlaceBet { market_id: 1, option: BetOption::Up, amount: 100 },
        ),
        Ok(())
    );
    assert_eq!(
        s.execute_operation(
            Some(CREATOR),
            CHAIN,
            1,
            Operation::ResolveMarket {
                market_id: 1,
                winning_option: BetOption::Up,
                resolution_price: 42,
            },
        ),
        Ok(())
    );
    assert_eq!(
        s.execute_operation(Some(ALICE), CHAIN, 2, Operation::ClaimReward { market_id: 1 }),
        Ok(())
    );
    assert!(s.get_user_bet(1, ALICE).unwrap().claimed);
}

#[test]
fn execute_message_is_noop() {
    let mut s = market_with_bets(10);
    let markets_before = s.markets.len();
    let r = s.execute_message(Message::MarketCreated { market_id: 5, creator_chain: 9 });
    assert_eq!(r, Ok(()));
    assert_eq!(s.markets.len(), markets_before);
    assert_eq!(s.bets.len(), 0);
    assert_eq!(s.next_market_id, 2);
}

#[test]
fn error_messages() {
    assert_eq!(LynoraError::MarketNotFound.message(), "Market not found");
    assert_eq!(LynoraError::MarketNotActive.message(), "Market is not active");
    assert_eq!(
        LynoraError::MarketAlreadyResolved.message(),
        "Market already resolved"
    );
    assert_eq!(LynoraError::InvalidBetAmount.message(), "Invalid bet amount");
    assert_eq!(
        LynoraError::AlreadyBet.message(),
        "User already bet on this market"
    );
    assert_eq!(LynoraError::NoReward.message(), "No reward to claim");
    assert_eq!(LynoraError::AlreadyClaimed.message(), "Reward already claimed");
    assert_eq!(
        LynoraError::OnlyCreator.message(),
        "Only creator can resolve market"
    );
    assert_eq!(LynoraError::MarketNotEnded.message(), "Market not ended yet");
    assert_eq!(
        LynoraError::InsufficientBalance.message(),
        "Insufficient balance"
    );
}
