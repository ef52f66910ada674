//! The library's guarantees, stated and proved as standalone laws over the
//! operation contracts and the well-formedness invariant.

use vstd::prelude::*;

use crate::contract::{
    claim_reward_error, claim_reward_post, claimed_bet, create_market_success, place_bet_post,
    resolve_market_post, LynoraError,
};
use crate::state::{
    bet_index_of, has_bet, spec_calculate_reward, spec_reward, sum_amounts, BetOption, LynoraState,
    MarketStatus,
};

verus! {

/// Market identifiers are assigned 1, 2, 3, ... in creation order: in every
/// well-formed state the market at position `i` carries identifier `i + 1`,
/// and the next identifier to assign follows the last one assigned.
pub proof fn law_market_ids_sequential(s: LynoraState, i: int)
    requires
        s.wf(),
        0 <= i < s.markets@.len(),
    ensures
        s.markets@[i].id == i + 1,
        s.next_market_id == s.markets@.len() + 1,
{
}

/// A successful creation assigns exactly the next identifier and leaves
/// every existing market (and its identifier) in place, so identifiers are
/// never reused.
pub proof fn law_create_assigns_next_id(
    pre: LynoraState,
    post: LynoraState,
    creator: u64,
    chain_id: u64,
    now: u64,
    question: String,
    description: String,
    duration_minutes: u64,
)
    requires
        create_market_success(
            pre,
            post,
            creator,
            chain_id,
            now,
            question,
            description,
            duration_minutes,
        ),
    ensures
        post.markets@.len() == pre.markets@.len() + 1,
        post.markets@[pre.markets@.len() as int].id == pre.next_market_id,
        post.next_market_id == pre.next_market_id + 1,
        forall|i: int| 0 <= i < pre.markets@.len() ==> post.markets@[i] == pre.markets@[i],
{
}

/// Each market's recorded pool total equals the sum of the amounts of the
/// recorded bets on that market and option, whenever that sum lies within
/// the amount range (beyond it the stored total saturates at the ceiling).
pub proof fn law_pool_total_matches_bets(s: LynoraState, i: int, option: BetOption)
    requires
        s.wf(),
        0 <= i < s.markets@.len(),
        sum_amounts(s.bets@, s.markets@[i].id, option) <= u64::MAX,
    ensures
        option == BetOption::Up ==> s.markets@[i].total_up_bets == sum_amounts(
            s.bets@,
            s.markets@[i].id,
            option,
        ),
        option == BetOption::Down ==> s.markets@[i].total_down_bets == sum_amounts(
            s.bets@,
            s.markets@[i].id,
            option,
        ),
{
    assert(s.markets@[i].consistent_with(s.bets@));
}

/// No two recorded bets share the same (market, bettor) pair.
pub proof fn law_one_bet_per_user_per_market(s: LynoraState, i: int, j: int)
    requires
        s.wf(),
        0 <= i < s.bets@.len(),
        0 <= j < s.bets@.len(),
        i != j,
    ensures
        !(s.bets@[i].market_id == s.bets@[j].market_id && s.bets@[i].user == s.bets@[j].user),
{
}

/// Betting on a market that is no longer active always fails with
/// MarketNotActive and leaves the state — every pool total included —
/// unchanged. (The earlier checks must pass, or their error comes first.)
pub proof fn law_place_bet_inactive_rejected(
    pre: LynoraState,
    post: LynoraState,
    r: Result<(), LynoraError>,
    signer: Option<u64>,
    now: u64,
    market_id: u64,
    option: BetOption,
    amount: u64,
)
    requires
        place_bet_post(pre, post, r, signer, now, market_id, option, amount),
        amount != 0,
        signer is Some,
        !has_bet(pre.bets@, market_id, signer.unwrap()),
        pre.market_known(market_id),
        pre.market_at(market_id).status != MarketStatus::Active,
    ensures
        r == Err::<(), LynoraError>(LynoraError::MarketNotActive),
        post == pre,
{
}

/// Resolving before expiry fails with MarketNotEnded and changes nothing.
pub proof fn law_resolve_before_expiry_rejected(
    pre: LynoraState,
    post: LynoraState,
    r: Result<(), LynoraError>,
    signer: Option<u64>,
    now: u64,
    market_id: u64,
    winning_option: BetOption,
    resolution_price: u64,
)
    requires
        resolve_market_post(pre, post, r, signer, now, market_id, winning_option, resolution_price),
        signer is Some,
        pre.market_known(market_id),
        pre.market_at(market_id).creator == signer.unwrap(),
        pre.market_at(market_id).status != MarketStatus::Resolved,
        now < pre.market_at(market_id).end_time,
    ensures
        r == Err::<(), LynoraError>(LynoraError::MarketNotEnded),
        post == pre,
{
}

/// Resolving an already resolved market fails with MarketAlreadyResolved
/// and changes nothing; in particular the recorded winning option stands.
pub proof fn law_resolve_twice_rejected(
    pre: LynoraState,
    post: LynoraState,
    r: Result<(), LynoraError>,
    signer: Option<u64>,
    now: u64,
    market_id: u64,
    winning_option: BetOption,
    resolution_price: u64,
)
    requires
        resolve_market_post(pre, post, r, signer, now, market_id, winning_option, resolution_price),
        signer is Some,
        pre.market_known(market_id),
        pre.market_at(market_id).creator == signer.unwrap(),
        pre.market_at(market_id).status == MarketStatus::Resolved,
    ensures
        r == Err::<(), LynoraError>(LynoraError::MarketAlreadyResolved),
        post == pre,
        post.market_at(market_id).winning_option == pre.market_at(market_id).winning_option,
{
}

/// A bet on the losing side computes a reward of exactly zero, and claiming
/// it is classified NoReward: the claimed flag — like all other state — is
/// never touched.
pub proof fn law_losing_bet_no_reward(
    pre: LynoraState,
    post: LynoraState,
    r: Result<(), LynoraError>,
    signer: Option<u64>,
    market_id: u64,
)
    requires
        pre.wf(),
        claim_reward_post(pre, post, r, signer, market_id),
        signer is Some,
        pre.market_known(market_id),
        pre.market_at(market_id).status == MarketStatus::Resolved,
        has_bet(pre.bets@, market_id, signer.unwrap()),
        !pre.bet_of(market_id, signer.unwrap()).claimed,
        pre.bet_of(market_id, signer.unwrap()).option != pre.market_at(
            market_id,
        ).winning_option.unwrap(),
    ensures
        spec_reward(pre.market_at(market_id), pre.bet_of(market_id, signer.unwrap())) == 0,
        spec_calculate_reward(pre, market_id, signer.unwrap()) == Some(0u64),
        r == Err::<(), LynoraError>(LynoraError::NoReward),
        post == pre,
{
    assert(pre.market_at(market_id).consistent_with(pre.bets@));
}

/// Claiming an already claimed bet always fails with AlreadyClaimed and
/// changes nothing.
pub proof fn law_claim_twice_rejected(
    pre: LynoraState,
    post: LynoraState,
    r: Result<(), LynoraError>,
    signer: Option<u64>,
    market_id: u64,
)
    requires
        claim_reward_post(pre, post, r, signer, market_id),
        signer is Some,
        pre.market_known(market_id),
        pre.market_at(market_id).status == MarketStatus::Resolved,
        has_bet(pre.bets@, market_id, signer.unwrap()),
        pre.bet_of(market_id, signer.unwrap()).claimed,
    ensures
        r == Err::<(), LynoraError>(LynoraError::AlreadyClaimed),
        post == pre,
{
}

/// Idempotence across two calls: after any successful claim, a second claim
/// of the same bet by the same caller always fails with AlreadyClaimed and
/// changes nothing.
pub proof fn law_claim_idempotent(
    pre: LynoraState,
    mid: LynoraState,
    post: LynoraState,
    r2: Result<(), LynoraError>,
    signer: Option<u64>,
    market_id: u64,
)
    requires
        pre.wf(),
        claim_reward_post(pre, mid, Ok::<(), LynoraError>(()), signer, market_id),
        claim_reward_post(mid, post, r2, signer, market_id),
    ensures
        r2 == Err::<(), LynoraError>(LynoraError::AlreadyClaimed),
        post == mid,
{
    let user = signer.unwrap();
    let j = bet_index_of(pre.bets@, market_id, user);
    assert(claim_reward_error(pre, signer, market_id) is None);
    assert(0 <= j < pre.bets@.len() && pre.bets@[j].market_id == market_id && pre.bets@[j].user
        == user);
    assert(mid.bets@[j] == claimed_bet(pre.bets@[j]));
    assert(has_bet(mid.bets@, market_id, user));
    let k = bet_index_of(mid.bets@, market_id, user);
    assert(0 <= k < mid.bets@.len() && mid.bets@[k].market_id == market_id && mid.bets@[k].user
        == user);
    if k != j {
        assert(mid.bets@[k] == pre.bets@[k]);
        assert(!(pre.bets@[j].market_id == pre.bets@[k].market_id && pre.bets@[j].user
            == pre.bets@[k].user));
        assert(false);
    }
    assert(mid.bet_of(market_id, user).claimed);
}

} // verus!
