//! The command surface: the four operations that mutate the state, each a
//! single transaction that either commits in full or rejects with an error
//! and no state change.
//!
//! The host supplies the authenticated signer, the current time and the
//! chain identifier; they enter every operation as explicit parameters.

use vstd::prelude::*;

use crate::state::{
    bet_contribution, bet_index_of, clamp_u64, has_bet, lemma_reward_fits, lemma_sum_absent,
    lemma_sum_nonneg, lemma_sum_push, lemma_sum_update, spec_reward, Bet, BetOption, LynoraState,
    Market, MarketStatus,
};

verus! {

/// Errors an operation can reject with. Every error leaves the state
/// exactly as it was.
#[derive(Debug, Clone, Copy, PartialEq, Eq, Structural)]
pub enum LynoraError {
    MarketNotFound,
    MarketNotActive,
    MarketAlreadyResolved,
    InvalidBetAmount,
    AlreadyBet,
    NoReward,
    AlreadyClaimed,
    OnlyCreator,
    MarketNotEnded,
    InsufficientBalance,
}

impl LynoraError {
    /// Human-readable description of each error.
    pub open spec fn spec_message(self) -> Seq<char> {
        match self {
            LynoraError::MarketNotFound => "Market not found"@,
            LynoraError::MarketNotActive => "Market is not active"@,
            LynoraError::MarketAlreadyResolved => "Market already resolved"@,
            LynoraError::InvalidBetAmount => "Invalid bet amount"@,
            LynoraError::AlreadyBet => "User already bet on this market"@,
            LynoraError::NoReward => "No reward to claim"@,
            LynoraError::AlreadyClaimed => "Reward already claimed"@,
            LynoraError::OnlyCreator => "Only creator can resolve market"@,
            LynoraError::MarketNotEnded => "Market not ended yet"@,
            LynoraError::InsufficientBalance => "Insufficient balance"@,
        }
    }

    pub fn message(&self) -> (m: &'static str)
        ensures
            m@ == self.spec_message(),
    {
        match self {
            LynoraError::MarketNotFound => "Market not found",
            LynoraError::MarketNotActive => "Market is not active",
            LynoraError::MarketAlreadyResolved => "Market already resolved",
            LynoraError::InvalidBetAmount => "Invalid bet amount",
            LynoraError::AlreadyBet => "User already bet on this market",
            LynoraError::NoReward => "No reward to claim",
            LynoraError::AlreadyClaimed => "Reward already claimed",
            LynoraError::OnlyCreator => "Only creator can resolve market",
            LynoraError::MarketNotEnded => "Market not ended yet",
            LynoraError::InsufficientBalance => "Insufficient balance",
        }
    }
}

/// The commands the transaction layer can submit.
#[derive(Debug)]
pub enum Operation {
    /// Create a new prediction market.
    CreateMarket { question: String, description: String, duration_minutes: u64 },
    /// Place a bet on a market.
    PlaceBet { market_id: u64, option: BetOption, amount: u64 },
    /// Resolve a market.
    ResolveMarket { market_id: u64, winning_option: BetOption, resolution_price: u64 },
    /// Claim reward from a resolved market.
    ClaimReward { market_id: u64 },
}

/// Cross-chain notifications. Consumed as no-ops: state is unaffected.
#[derive(Debug, Clone, Copy, PartialEq, Eq, Structural)]
pub enum Message {
    /// Cross-chain market discovery announcement.
    MarketCreated { market_id: u64, creator_chain: u64 },
}

/// Marker type tying the operation surface to the host's dispatch.
pub struct LynoraAbi;

/// Number of time units (microseconds) in one whole minute.
pub const MICROS_PER_MINUTE: u64 = 60 * 1_000_000;

/// Expiry timestamp of a market created at `now` lasting `duration_minutes`,
/// converted with saturation so the conversion cannot overflow.
pub open spec fn market_end_time(now: u64, duration_minutes: u64) -> int {
    clamp_u64(now + duration_minutes * MICROS_PER_MINUTE)
}

/// The record a successful `create_market` appends.
pub open spec fn fresh_market(
    id: u64,
    creator: u64,
    chain_id: u64,
    question: String,
    description: String,
    now: u64,
    duration_minutes: u64,
) -> Market {
    Market {
        id,
        creator,
        creator_chain: chain_id,
        question,
        description,
        end_time: market_end_time(now, duration_minutes) as u64,
        status: MarketStatus::Active,
        total_up_bets: 0,
        total_down_bets: 0,
        winning_option: None,
        created_at: now,
        resolution_price: None,
    }
}

/// The market record after `amount` joins the pool of `option`, saturating
/// at the amount ceiling.
pub open spec fn market_with_bet(m: Market, option: BetOption, amount: u64) -> Market {
    match option {
        BetOption::Up => Market {
            total_up_bets: clamp_u64(m.total_up_bets + amount) as u64,
            ..m
        },
        BetOption::Down => Market {
            total_down_bets: clamp_u64(m.total_down_bets + amount) as u64,
            ..m
        },
    }
}

/// The bet record a successful `place_bet` appends.
pub open spec fn fresh_bet(
    market_id: u64,
    user: u64,
    option: BetOption,
    amount: u64,
    now: u64,
) -> Bet {
    Bet { market_id, user, option, amount, timestamp: now, claimed: false }
}

/// The rejection `place_bet` answers with, if any, checked in this order:
/// a zero amount, a missing caller, a repeated bet, an unknown market, and
/// a market no longer active.
pub open spec fn place_bet_error(
    s: LynoraState,
    signer: Option<u64>,
    market_id: u64,
    option: BetOption,
    amount: u64,
) -> Option<LynoraError> {
    if amount == 0 {
        Some(LynoraError::InvalidBetAmount)
    } else if signer is None {
        Some(LynoraError::OnlyCreator)
    } else if has_bet(s.bets@, market_id, signer.unwrap()) {
        Some(LynoraError::AlreadyBet)
    } else if !s.market_known(market_id) {
        Some(LynoraError::MarketNotFound)
    } else if s.market_at(market_id).status != MarketStatus::Active {
        Some(LynoraError::MarketNotActive)
    } else {
        None
    }
}

/// The market record after resolution: status, winning option and the
/// externally supplied reference price are set; nothing else changes.
pub open spec fn resolved_market(m: Market, winning_option: BetOption, price: u64) -> Market {
    Market {
        status: MarketStatus::Resolved,
        winning_option: Some(winning_option),
        resolution_price: Some(price),
        ..m
    }
}

/// The rejection `resolve_market` answers with, if any, checked in this
/// order: a missing caller, an unknown market, a caller other than the
/// creator, a market already resolved, and a resolution before expiry.
pub open spec fn resolve_market_error(
    s: LynoraState,
    signer: Option<u64>,
    now: u64,
    market_id: u64,
) -> Option<LynoraError> {
    if signer is None {
        Some(LynoraError::OnlyCreator)
    } else if !s.market_known(market_id) {
        Some(LynoraError::MarketNotFound)
    } else if s.market_at(market_id).creator != signer.unwrap() {
        Some(LynoraError::OnlyCreator)
    } else if s.market_at(market_id).status == MarketStatus::Resolved {
        Some(LynoraError::MarketAlreadyResolved)
    } else if now < s.market_at(market_id).end_time {
        Some(LynoraError::MarketNotEnded)
    } else {
        None
    }
}

/// The same bet with its claimed flag set; the flag only ever goes from
/// false to true.
pub open spec fn claimed_bet(b: Bet) -> Bet {
    Bet { claimed: true, ..b }
}

/// The rejection `claim_reward` answers with, if any, checked in this
/// order: a missing caller, an unknown market, a market not yet resolved,
/// no bet by this caller, a bet already claimed, and a computed payout of
/// zero (a losing bet, or an empty winning pool).
pub open spec fn claim_reward_error(
    s: LynoraState,
    signer: Option<u64>,
    market_id: u64,
) -> Option<LynoraError> {
    if signer is None {
        Some(LynoraError::OnlyCreator)
    } else if !s.market_known(market_id) {
        Some(LynoraError::MarketNotFound)
    } else if s.market_at(market_id).status != MarketStatus::Resolved {
        Some(LynoraError::MarketNotActive)
    } else if !has_bet(s.bets@, market_id, signer.unwrap()) {
        Some(LynoraError::NoReward)
    } else if s.bet_of(market_id, signer.unwrap()).claimed {
        Some(LynoraError::AlreadyClaimed)
    } else if spec_reward(s.market_at(market_id), s.bet_of(market_id, signer.unwrap())) == 0 {
        Some(LynoraError::NoReward)
    } else {
        None
    }
}

/// The state change of a successful `create_market`: one fresh market is
/// appended, the identifier counter advances, bets are untouched.
pub open spec fn create_market_success(
    pre: LynoraState,
    post: LynoraState,
    creator: u64,
    chain_id: u64,
    now: u64,
    question: String,
    description: String,
    duration_minutes: u64,
) -> bool {
    &&& post.next_market_id == pre.next_market_id + 1
    &&& post.bets@ == pre.bets@
    &&& post.markets@ == pre.markets@.push(
        fresh_market(
            pre.next_market_id,
            creator,
            chain_id,
            question,
            description,
            now,
            duration_minutes,
        ),
    )
}

/// Everything `place_bet` does: either the matching rejection with the
/// state untouched, or the bet appended and the chosen pool grown by its
/// amount, both together.
pub open spec fn place_bet_post(
    pre: LynoraState,
    post: LynoraState,
    r: Result<(), LynoraError>,
    signer: Option<u64>,
    now: u64,
    market_id: u64,
    option: BetOption,
    amount: u64,
) -> bool {
    match place_bet_error(pre, signer, market_id, option, amount) {
        Some(e) => r == Err::<(), LynoraError>(e) && post == pre,
        None => {
            &&& r == Ok::<(), LynoraError>(())
            &&& post.next_market_id == pre.next_market_id
            &&& post.bets@ == pre.bets@.push(
                fresh_bet(market_id, signer.unwrap(), option, amount, now),
            )
            &&& post.markets@ == pre.markets@.update(
                market_id - 1,
                market_with_bet(pre.market_at(market_id), option, amount),
            )
        },
    }
}

/// Everything `resolve_market` does: either the matching rejection with the
/// state untouched, or exactly the resolution fields of that market set.
pub open spec fn resolve_market_post(
    pre: LynoraState,
    post: LynoraState,
    r: Result<(), LynoraError>,
    signer: Option<u64>,
    now: u64,
    market_id: u64,
    winning_option: BetOption,
    resolution_price: u64,
) -> bool {
    match resolve_market_error(pre, signer, now, market_id) {
        Some(e) => r == Err::<(), LynoraError>(e) && post == pre,
        None => {
            &&& r == Ok::<(), LynoraError>(())
            &&& post.next_market_id == pre.next_market_id
            &&& post.bets@ == pre.bets@
            &&& post.markets@ == pre.markets@.update(
                market_id - 1,
                resolved_market(pre.market_at(market_id), winning_option, resolution_price),
            )
        },
    }
}

/// Everything `claim_reward` does: either the matching rejection with the
/// state untouched, or exactly the caller's bet marked claimed.
pub open spec fn claim_reward_post(
    pre: LynoraState,
    post: LynoraState,
    r: Result<(), LynoraError>,
    signer: Option<u64>,
    market_id: u64,
) -> bool {
    match claim_reward_error(pre, signer, market_id) {
        Some(e) => r == Err::<(), LynoraError>(e) && post == pre,
        None => {
            &&& r == Ok::<(), LynoraError>(())
            &&& post.next_market_id == pre.next_market_id
            &&& post.markets@ == pre.markets@
            &&& post.bets@ == pre.bets@.update(
                bet_index_of(pre.bets@, market_id, signer.unwrap()),
                claimed_bet(pre.bet_of(market_id, signer.unwrap())),
            )
        },
    }
}

impl LynoraState {
    /// Create a new market. The caller's identity becomes the creator; the
    /// next identifier (1, 2, 3, ...) is assigned and returned. The only
    /// failure is the absence of an authenticated caller.
    pub fn create_market(
        &mut self,
        signer: Option<u64>,
        chain_id: u64,
        now: u64,
        question: String,
        description: String,
        duration_minutes: u64,
    ) -> (r: Result<u64, LynoraError>)
        requires
            old(self).wf(),
            old(self).next_market_id < u64::MAX,
        ensures
            final(self).wf(),
            signer is None ==> r == Err::<u64, LynoraError>(LynoraError::OnlyCreator)
                && *final(self) == *old(self),
            signer is Some ==> r == Ok::<u64, LynoraError>(old(self).next_market_id)
                && create_market_success(
                *old(self),
                *final(self),
                signer.unwrap(),
                chain_id,
                now,
                question,
                description,
                duration_minutes,
            ),
    {
        let creator = match signer {
            None => { return Err(LynoraError::OnlyCreator); },
            Some(s) => s,
        };

        let end_time = match duration_minutes.checked_mul(MICROS_PER_MINUTE) {
            Some(micros) => now.saturating_add(micros),
            None => u64::MAX,
        };

        let market_id = self.next_market_id;
        self.next_market_id = self.next_market_id + 1;

        let market = Market {
            id: market_id,
            creator,
            creator_chain: chain_id,
            question,
            description,
            end_time,
            status: MarketStatus::Active,
            total_up_bets: 0,
            total_down_bets: 0,
            winning_option: None,
            created_at: now,
            resolution_price: None,
        };

        self.markets.push(market);

        proof {
            let pre = *old(self);
            let post = *self;
            let m = fresh_market(
                market_id,
                creator,
                chain_id,
                question,
                description,
                now,
                duration_minutes,
            );
            assert(post.markets@ == pre.markets@.push(m));
            assert forall|i: int|
                0 <= i < pre.bets@.len() implies (#[trigger] pre.bets@[i]).market_id
                != market_id by {
                assert(1 <= pre.bets@[i].market_id <= pre.markets@.len());
            }
            lemma_sum_absent(post.bets@, market_id, BetOption::Up);
            lemma_sum_absent(post.bets@, market_id, BetOption::Down);
            assert forall|i: int|
                0 <= i < post.markets@.len() implies (#[trigger] post.markets@[i]).consistent_with(
                post.bets@,
            ) by {
                if i < pre.markets@.len() {
                    assert(pre.markets@[i].consistent_with(pre.bets@));
                }
            }
        }

        Ok(market_id)
    }

    /// Place a bet: after the checks of `place_bet_error` pass, add the
    /// amount to the chosen pool and record the bet, both together. On any
    /// rejection the state is exactly as before.
    pub fn place_bet(
        &mut self,
        signer: Option<u64>,
        now: u64,
        market_id: u64,
        option: BetOption,
        amount: u64,
    ) -> (r: Result<(), LynoraError>)
        requires
            old(self).wf(),
        ensures
            final(self).wf(),
            place_bet_post(*old(self), *final(self), r, signer, now, market_id, option, amount),
    {
        if amount == 0 {
            return Err(LynoraError::InvalidBetAmount);
        }

        let user = match signer {
            None => { return Err(LynoraError::OnlyCreator); },
            Some(s) => s,
        };

        if self.get_bet_index(market_id, user).is_some() {
            return Err(LynoraError::AlreadyBet);
        }

        let mi = match self.get_market_index(market_id) {
            None => { return Err(LynoraError::MarketNotFound); },
            Some(i) => i,
        };

        if self.markets[mi].status != MarketStatus::Active {
            return Err(LynoraError::MarketNotActive);
        }

        let ghost pre = *self;

        let market = &mut self.markets[mi];
        match option {
            BetOption::Up => {
                market.total_up_bets = market.total_up_bets.saturating_add(amount);
            },
            BetOption::Down => {
                market.total_down_bets = market.total_down_bets.saturating_add(amount);
            },
        }

        let bet = Bet { market_id, user, option, amount, timestamp: now, claimed: false };
        self.bets.push(bet);

        proof {
            let post = *self;
            let b = fresh_bet(market_id, user, option, amount, now);
            let m = pre.market_at(market_id);
            assert(post.markets@ == pre.markets@.update(
                market_id - 1,
                market_with_bet(m, option, amount),
            ));
            assert(post.bets@ == pre.bets@.push(b));
            assert forall|k: int|
                0 <= k < post.markets@.len() implies (#[trigger] post.markets@[k]).consistent_with(
                post.bets@,
            ) by {
                let mk = post.markets@[k];
                let old_mk = pre.markets@[k];
                assert(old_mk.consistent_with(pre.bets@));
                lemma_sum_push(pre.bets@, b, old_mk.id, BetOption::Up);
                lemma_sum_push(pre.bets@, b, old_mk.id, BetOption::Down);
                if k == market_id - 1 {
                    lemma_sum_nonneg(pre.bets@, market_id, BetOption::Up);
                    lemma_sum_nonneg(pre.bets@, market_id, BetOption::Down);
                } else {
                    assert(old_mk.id == k + 1);
                    assert(bet_contribution(b, old_mk.id, BetOption::Up) == 0);
                    assert(bet_contribution(b, old_mk.id, BetOption::Down) == 0);
                    assert(mk == old_mk);
                }
            }
        }

        Ok(())
    }

    /// Resolve a market: record the winning option and the reference price,
    /// irrevocably, and mark the market resolved. No other field changes.
    pub fn resolve_market(
        &mut self,
        signer: Option<u64>,
        now: u64,
        market_id: u64,
        winning_option: BetOption,
        resolution_price: u64,
    ) -> (r: Result<(), LynoraError>)
        requires
            old(self).wf(),
        ensures
            final(self).wf(),
            resolve_market_post(
                *old(self),
                *final(self),
                r,
                signer,
                now,
                market_id,
                winning_option,
                resolution_price,
            ),
    {
        let caller = match signer {
            None => { return Err(LynoraError::OnlyCreator); },
            Some(s) => s,
        };

        let mi = match self.get_market_index(market_id) {
            None => { return Err(LynoraError::MarketNotFound); },
            Some(i) => i,
        };

        if self.markets[mi].creator != caller {
            return Err(LynoraError::OnlyCreator);
        }

        if self.markets[mi].is_resolved() {
            return Err(LynoraError::MarketAlreadyResolved);
        }

        if now < self.markets[mi].end_time {
            return Err(LynoraError::MarketNotEnded);
        }

        let ghost pre = *self;

        let market = &mut self.markets[mi];
        market.status = MarketStatus::Resolved;
        market.winning_option = Some(winning_option);
        market.resolution_price = Some(resolution_price);

        proof {
            let post = *self;
            assert(post.markets@ == pre.markets@.update(
                market_id - 1,
                resolved_market(pre.market_at(market_id), winning_option, resolution_price),
            ));
            assert forall|k: int|
                0 <= k < post.markets@.len() implies (#[trigger] post.markets@[k]).consistent_with(
                post.bets@,
            ) by {
                assert(pre.markets@[k].consistent_with(pre.bets@));
            }
        }

        Ok(())
    }

    /// Claim the reward for the caller's bet on a resolved market. The sole
    /// durable effect of success is the bet's claimed flag turning true; the
    /// actual value transfer is the host's, invoked once after this commits.
    pub fn claim_reward(&mut self, signer: Option<u64>, market_id: u64) -> (r: Result<
        (),
        LynoraError,
    >)
        requires
            old(self).wf(),
        ensures
            final(self).wf(),
            claim_reward_post(*old(self), *final(self), r, signer, market_id),
    {
        let user = match signer {
            None => { return Err(LynoraError::OnlyCreator); },
            Some(s) => s,
        };

        let mi = match self.get_market_index(market_id) {
            None => { return Err(LynoraError::MarketNotFound); },
            Some(i) => i,
        };

        if !self.markets[mi].is_resolved() {
            return Err(LynoraError::MarketNotActive);
        }

        let bi = match self.get_bet_index(market_id, user) {
            None => { return Err(LynoraError::NoReward); },
            Some(i) => i,
        };

        if self.bets[bi].claimed {
            return Err(LynoraError::AlreadyClaimed);
        }

        let reward = match self.calculate_reward(market_id, user) {
            None => { return Err(LynoraError::NoReward); },
            Some(x) => x,
        };

        if reward == 0 {
            proof {
                lemma_reward_fits(*self, market_id, user);
            }
            return Err(LynoraError::NoReward);
        }

        let ghost pre = *self;

        let bet = &mut self.bets[bi];
        bet.claimed = true;

        proof {
            let post = *self;
            let old_b = pre.bet_of(market_id, user);
            let new_b = claimed_bet(old_b);
            lemma_reward_fits(pre, market_id, user);
            assert(post.bets@ == pre.bets@.update(bi as int, new_b));
            assert forall|k: int|
                0 <= k < post.markets@.len() implies (#[trigger] post.markets@[k]).consistent_with(
                post.bets@,
            ) by {
                let mk = post.markets@[k];
                assert(pre.markets@[k].consistent_with(pre.bets@));
                lemma_sum_update(pre.bets@, bi as int, new_b, mk.id, BetOption::Up);
                lemma_sum_update(pre.bets@, bi as int, new_b, mk.id, BetOption::Down);
            }
        }

        Ok(())
    }

    /// Dispatch one submitted command. Exactly one operation's rules apply;
    /// the state change is that operation's, atomically or not at all.
    pub fn execute_operation(
        &mut self,
        signer: Option<u64>,
        chain_id: u64,
        now: u64,
        operation: Operation,
    ) -> (r: Result<(), LynoraError>)
        requires
            old(self).wf(),
            old(self).next_market_id < u64::MAX,
        ensures
            final(self).wf(),
            match operation {
                Operation::CreateMarket { question, description, duration_minutes } => {
                    &&& signer is None ==> r == Err::<(), LynoraError>(LynoraError::OnlyCreator)
                        && *final(self) == *old(self)
                    &&& signer is Some ==> r == Ok::<(), LynoraError>(()) && create_market_success(
                        *old(self),
                        *final(self),
                        signer.unwrap(),
                        chain_id,
                        now,
                        question,
                        description,
                        duration_minutes,
                    )
                },
                Operation::PlaceBet { market_id, option, amount } => place_bet_post(
                    *old(self),
                    *final(self),
                    r,
                    signer,
                    now,
                    market_id,
                    option,
                    amount,
                ),
                Operation::ResolveMarket { market_id, winning_option, resolution_price } => resolve_market_post(
                    *old(self),
                    *final(self),
                    r,
                    signer,
                    now,
                    market_id,
                    winning_option,
                    resolution_price,
                ),
                Operation::ClaimReward { market_id } => claim_reward_post(
                    *old(self),
                    *final(self),
                    r,
                    signer,
                    market_id,
                ),
            },
    {
        match operation {
            Operation::CreateMarket { question, description, duration_minutes } => {
                match self.create_market(signer, chain_id, now, question, description,
                    duration_minutes) {
                    Ok(_) => Ok(()),
                    Err(e) => Err(e),
                }
            },
            Operation::PlaceBet { market_id, option, amount } => {
                self.place_bet(signer, now, market_id, option, amount)
            },
            Operation::ResolveMarket { market_id, winning_option, resolution_price } => {
                self.resolve_market(signer, now, market_id, winning_option, resolution_price)
            },
            Operation::ClaimReward { market_id } => self.claim_reward(signer, market_id),
        }
    }

    /// Consume a cross-chain notification. By contract a no-op: the state is
    /// unaffected whatever the message says.
    pub fn execute_message(&mut self, _message: Message) -> (r: Result<(), LynoraError>)
        ensures
            *final(self) == *old(self),
            r == Ok::<(), LynoraError>(()),
    {
        Ok(())
    }
}

} // verus!
