//! Core state of the prediction market: markets, bets, and the
//! well-formedness invariant tying pool totals to recorded bets.

use vstd::prelude::*;
use vstd::arithmetic::div_mod::{lemma_div_is_ordered, lemma_div_multiples_vanish};
use vstd::arithmetic::mul::lemma_mul_inequality;

verus! {

/// The two directions a market question can settle.
#[derive(Debug, Clone, Copy, PartialEq, Eq, Structural)]
pub enum BetOption {
    Up,
    Down,
}

/// Lifecycle of a market.
#[derive(Debug, Clone, Copy, PartialEq, Eq, Structural)]
pub enum MarketStatus {
    Active,
    Locked,
    Resolved,
}

/// A single prediction market.
///
/// Identities (creator) and chain identifiers are plain integers handed in
/// by the host; timestamps are microseconds; amounts are plain token units.
#[derive(Debug)]
pub struct Market {
    pub id: u64,
    pub creator: u64,
    pub creator_chain: u64,
    pub question: String,
    pub description: String,
    pub end_time: u64,
    pub status: MarketStatus,
    pub total_up_bets: u64,
    pub total_down_bets: u64,
    pub winning_option: Option<BetOption>,
    pub created_at: u64,
    pub resolution_price: Option<u64>,
}

/// A user's bet on a market. At most one bet per (market, user) pair.
#[derive(Debug, Clone, Copy, PartialEq, Eq, Structural)]
pub struct Bet {
    pub market_id: u64,
    pub user: u64,
    pub option: BetOption,
    pub amount: u64,
    pub timestamp: u64,
    pub claimed: bool,
}

/// Clamp a mathematical integer into the `u64` range from above.
pub open spec fn clamp_u64(n: int) -> int {
    if n > u64::MAX { u64::MAX as int } else { n }
}

/// What a bet contributes to the pool of `option` on market `market_id`.
pub open spec fn bet_contribution(b: Bet, market_id: u64, option: BetOption) -> int {
    if b.market_id == market_id && b.option == option {
        b.amount as int
    } else {
        0
    }
}

/// Sum of the amounts of all bets on `market_id` choosing `option`.
pub open spec fn sum_amounts(bets: Seq<Bet>, market_id: u64, option: BetOption) -> int
    decreases bets.len(),
{
    if bets.len() == 0 {
        0
    } else {
        sum_amounts(bets.drop_last(), market_id, option)
            + bet_contribution(bets.last(), market_id, option)
    }
}

/// Appending a bet extends the sum by exactly that bet's contribution.
pub proof fn lemma_sum_push(bets: Seq<Bet>, b: Bet, market_id: u64, option: BetOption)
    ensures
        sum_amounts(bets.push(b), market_id, option) == sum_amounts(bets, market_id, option)
            + bet_contribution(b, market_id, option),
{
    assert(bets.push(b).drop_last() =~= bets);
}

/// Pool sums are never negative.
pub proof fn lemma_sum_nonneg(bets: Seq<Bet>, market_id: u64, option: BetOption)
    ensures
        sum_amounts(bets, market_id, option) >= 0,
    decreases bets.len(),
{
    if bets.len() > 0 {
        lemma_sum_nonneg(bets.drop_last(), market_id, option);
    }
}

/// Replacing one bet shifts the sum by the difference of the contributions.
pub proof fn lemma_sum_update(bets: Seq<Bet>, j: int, b: Bet, market_id: u64, option: BetOption)
    requires
        0 <= j < bets.len(),
    ensures
        sum_amounts(bets.update(j, b), market_id, option) == sum_amounts(bets, market_id, option)
            - bet_contribution(bets[j], market_id, option) + bet_contribution(b, market_id, option),
    decreases bets.len(),
{
    let upd = bets.update(j, b);
    if j == bets.len() - 1 {
        assert(upd.drop_last() =~= bets.drop_last());
    } else {
        assert(upd.drop_last() =~= bets.drop_last().update(j, b));
        assert(upd.last() == bets.last());
        lemma_sum_update(bets.drop_last(), j, b, market_id, option);
    }
}

/// A bet on the given market and option never exceeds that pool's sum.
pub proof fn lemma_sum_member_bound(bets: Seq<Bet>, i: int, market_id: u64, option: BetOption)
    requires
        0 <= i < bets.len(),
        bets[i].market_id == market_id,
        bets[i].option == option,
    ensures
        bets[i].amount <= sum_amounts(bets, market_id, option),
    decreases bets.len(),
{
    if i == bets.len() - 1 {
        lemma_sum_nonneg(bets.drop_last(), market_id, option);
    } else {
        lemma_sum_member_bound(bets.drop_last(), i, market_id, option);
    }
}

/// A market no bet refers to has an empty pool.
pub proof fn lemma_sum_absent(bets: Seq<Bet>, market_id: u64, option: BetOption)
    requires
        forall|i: int| 0 <= i < bets.len() ==> (#[trigger] bets[i]).market_id != market_id,
    ensures
        sum_amounts(bets, market_id, option) == 0,
    decreases bets.len(),
{
    if bets.len() > 0 {
        lemma_sum_absent(bets.drop_last(), market_id, option);
    }
}

impl Market {
    /// Consistency of one market record with the full bet list: each pool
    /// total is the (saturated) sum of the matching bets, and resolution
    /// data is present exactly on resolved markets.
    pub open spec fn consistent_with(self, bets: Seq<Bet>) -> bool {
        &&& self.total_up_bets == clamp_u64(sum_amounts(bets, self.id, BetOption::Up))
        &&& self.total_down_bets == clamp_u64(sum_amounts(bets, self.id, BetOption::Down))
        &&& (self.status == MarketStatus::Resolved <==> self.winning_option is Some)
        &&& (self.status == MarketStatus::Resolved <==> self.resolution_price is Some)
    }

    /// Combined size of both pools, saturating at the amount ceiling.
    pub fn total_pool(&self) -> (r: u64)
        ensures
            r == clamp_u64(self.total_up_bets + self.total_down_bets),
    {
        self.total_up_bets.saturating_add(self.total_down_bets)
    }

    pub fn is_active(&self) -> (r: bool)
        ensures
            r == (self.status == MarketStatus::Active),
    {
        self.status == MarketStatus::Active
    }

    pub fn is_resolved(&self) -> (r: bool)
        ensures
            r == (self.status == MarketStatus::Resolved),
    {
        self.status == MarketStatus::Resolved
    }
}

/// Whether some bet by `user` on `market_id` is recorded.
pub open spec fn has_bet(bets: Seq<Bet>, market_id: u64, user: u64) -> bool {
    exists|i: int|
        0 <= i < bets.len() && (#[trigger] bets[i]).market_id == market_id && bets[i].user == user
}

/// The index of the bet by `user` on `market_id`; under `wf` it is unique.
pub open spec fn bet_index_of(bets: Seq<Bet>, market_id: u64, user: u64) -> int {
    choose|i: int|
        0 <= i < bets.len() && (#[trigger] bets[i]).market_id == market_id && bets[i].user == user
}

/// The application state: every market and every bet ever recorded.
#[derive(Debug)]
pub struct LynoraState {
    /// All markets created, in creation order.
    pub markets: Vec<Market>,
    /// All bets placed, in arrival order.
    pub bets: Vec<Bet>,
    /// Next market identifier to assign.
    pub next_market_id: u64,
}

impl LynoraState {
    /// Well-formedness invariant, established by `new` and preserved by
    /// every operation:
    /// - market identifiers are 1, 2, 3, ... in creation order;
    /// - each market's pool totals match the recorded bets;
    /// - every bet names an existing market and a positive amount;
    /// - no two bets share a (market, user) pair.
    pub open spec fn wf(self) -> bool {
        &&& self.next_market_id == self.markets@.len() + 1
        &&& forall|i: int|
            0 <= i < self.markets@.len() ==> (#[trigger] self.markets@[i]).id == i + 1
        &&& forall|i: int|
            0 <= i < self.markets@.len()
                ==> (#[trigger] self.markets@[i]).consistent_with(self.bets@)
        &&& forall|i: int|
            0 <= i < self.bets@.len()
                ==> 1 <= (#[trigger] self.bets@[i]).market_id <= self.markets@.len()
        &&& forall|i: int| 0 <= i < self.bets@.len() ==> (#[trigger] self.bets@[i]).amount > 0
        &&& forall|i: int, j: int|
            0 <= i < j < self.bets@.len()
                ==> !((#[trigger] self.bets@[i]).market_id == (#[trigger] self.bets@[j]).market_id
                    && self.bets@[i].user == self.bets@[j].user)
    }

    /// Under `wf`, a market with identifier `market_id` exists exactly when
    /// the identifier lies in the assigned range 1 ..= number of markets.
    pub open spec fn market_known(self, market_id: u64) -> bool {
        1 <= market_id <= self.markets@.len()
    }

    /// Under `wf`, the record of the market with identifier `market_id`.
    pub open spec fn market_at(self, market_id: u64) -> Market {
        self.markets@[market_id - 1]
    }

    /// Under `wf`, the bet by `user` on `market_id` (when `has_bet` holds).
    pub open spec fn bet_of(self, market_id: u64, user: u64) -> Bet {
        self.bets@[bet_index_of(self.bets@, market_id, user)]
    }

    /// Index of the first market whose identifier is `market_id`.
    pub fn get_market_index(&self, market_id: u64) -> (r: Option<usize>)
        ensures
            match r {
                Some(i) => i < self.markets@.len() && self.markets@[i as int].id == market_id
                    && forall|j: int| 0 <= j < i ==> (#[trigger] self.markets@[j]).id != market_id,
                None => forall|j: int|
                    0 <= j < self.markets@.len() ==> (#[trigger] self.markets@[j]).id != market_id,
            },
            self.wf() ==> (r is Some <==> self.market_known(market_id)),
            self.wf() && self.market_known(market_id) ==> r == Some((market_id - 1) as usize),
    {
        let n = self.markets.len();
        let mut i: usize = 0;
        while i < n
            invariant
                n == self.markets@.len(),
                i <= n,
                forall|j: int| 0 <= j < i ==> (#[trigger] self.markets@[j]).id != market_id,
            decreases n - i,
        {
            if self.markets[i].id == market_id {
                proof {
                    if self.wf() {
                        assert(self.markets@[i as int].id == i + 1);
                    }
                }
                return Some(i);
            }
            i += 1;
        }
        proof {
            if self.wf() && self.market_known(market_id) {
                assert(self.markets@[market_id - 1].id == market_id);
            }
        }
        None
    }

    /// Index of the first bet by `user` on `market_id`.
    pub fn get_bet_index(&self, market_id: u64, user: u64) -> (r: Option<usize>)
        ensures
            match r {
                Some(i) => i < self.bets@.len() && self.bets@[i as int].market_id == market_id
                    && self.bets@[i as int].user == user,
                None => !has_bet(self.bets@, market_id, user),
            },
            r is Some <==> has_bet(self.bets@, market_id, user),
            self.wf() && has_bet(self.bets@, market_id, user) ==> r == Some(
                bet_index_of(self.bets@, market_id, user) as usize,
            ),
    {
        let n = self.bets.len();
        let mut i: usize = 0;
        while i < n
            invariant
                n == self.bets@.len(),
                i <= n,
                forall|j: int|
                    0 <= j < i ==> !((#[trigger] self.bets@[j]).market_id == market_id
                        && self.bets@[j].user == user),
            decreases n - i,
        {
            if self.bets[i].market_id == market_id && self.bets[i].user == user {
                proof {
                    if self.wf() {
                        let k = bet_index_of(self.bets@, market_id, user);
                        assert(0 <= k < self.bets@.len() && self.bets@[k].market_id == market_id
                            && self.bets@[k].user == user);
                        assert(k == i);
                    }
                }
                return Some(i);
            }
            i += 1;
        }
        None
    }

    /// Fresh state: no markets, no bets, identifiers start at 1.
    pub fn new() -> (s: Self)
        ensures
            s.wf(),
            s.markets@.len() == 0,
            s.bets@.len() == 0,
            s.next_market_id == 1,
    {
        LynoraState { markets: Vec::new(), bets: Vec::new(), next_market_id: 1 }
    }
}

/// The payout a bet receives from a resolved market, before eligibility
/// checks: zero for a bet on the losing side, zero when nobody bet the
/// winning side (stranded pool), and otherwise the bettor's proportional
/// share of the whole pool, floor(amount * pool / winning_pool).
pub open spec fn spec_reward(m: Market, b: Bet) -> int
    recommends
        m.winning_option is Some,
{
    let w = m.winning_option.unwrap();
    if b.option != w {
        0
    } else {
        let pool = clamp_u64(m.total_up_bets + m.total_down_bets);
        let winning_pool: int = if w == BetOption::Up {
            m.total_up_bets as int
        } else {
            m.total_down_bets as int
        };
        if winning_pool == 0 {
            0
        } else {
            (b.amount * pool) / winning_pool
        }
    }
}

/// What `calculate_reward` returns: `None` when the market or the bet is
/// missing, the market is unresolved, or the bet is already claimed;
/// otherwise the computed payout.
pub open spec fn spec_calculate_reward(s: LynoraState, market_id: u64, user: u64) -> Option<u64> {
    if !s.market_known(market_id) {
        None
    } else if !has_bet(s.bets@, market_id, user) {
        None
    } else {
        let m = s.market_at(market_id);
        let b = s.bet_of(market_id, user);
        if m.status != MarketStatus::Resolved || b.claimed {
            None
        } else if m.winning_option is None {
            None
        } else {
            Some(spec_reward(m, b) as u64)
        }
    }
}

/// In a well-formed state, a bet on the winning side never exceeds the
/// winning pool, so its payout never exceeds the whole pool and fits the
/// amount range.
pub proof fn lemma_reward_fits(s: LynoraState, market_id: u64, user: u64)
    requires
        s.wf(),
        s.market_known(market_id),
        has_bet(s.bets@, market_id, user),
        s.bet_of(market_id, user).market_id == market_id,
        s.market_at(market_id).winning_option is Some,
    ensures
        0 <= spec_reward(s.market_at(market_id), s.bet_of(market_id, user)) <= clamp_u64(
            s.market_at(market_id).total_up_bets + s.market_at(market_id).total_down_bets,
        ),
{
    let m = s.market_at(market_id);
    let b = s.bet_of(market_id, user);
    assert(m.id == market_id);
    assert(m.consistent_with(s.bets@));
    let w = m.winning_option.unwrap();
    if b.option == w {
        let pool = clamp_u64(m.total_up_bets + m.total_down_bets);
        let wp: int = if w == BetOption::Up {
            m.total_up_bets as int
        } else {
            m.total_down_bets as int
        };
        if wp != 0 {
            let bi = bet_index_of(s.bets@, market_id, user);
            lemma_sum_member_bound(s.bets@, bi, market_id, w);
            assert(b.amount <= wp);
            lemma_mul_inequality(b.amount as int, wp, pool);
            lemma_div_is_ordered(b.amount * pool, wp * pool, wp);
            lemma_div_multiples_vanish(pool, wp);
            lemma_div_is_ordered(0, b.amount * pool, wp);
        }
    }
}

impl LynoraState {
    /// The reward `user` would receive for their bet on `market_id` if they
    /// claimed now: `None` when nothing is claimable (no market, no bet, an
    /// unresolved market, or an already claimed bet). Pure: no side effects.
    pub fn calculate_reward(&self, market_id: u64, user: u64) -> (r: Option<u64>)
        requires
            self.wf(),
        ensures
            r == spec_calculate_reward(*self, market_id, user),
    {
        let mi = match self.get_market_index(market_id) {
            None => { return None; },
            Some(i) => i,
        };
        let bi = match self.get_bet_index(market_id, user) {
            None => { return None; },
            Some(i) => i,
        };

        let bet = self.bets[bi];

        if !self.markets[mi].is_resolved() || bet.claimed {
            return None;
        }

        let winning_option = match self.markets[mi].winning_option {
            None => { return None; },
            Some(w) => w,
        };

        if bet.option != winning_option {
            return Some(0);
        }

        let total_pool = self.markets[mi].total_pool();
        let winning_pool = match winning_option {
            BetOption::Up => self.markets[mi].total_up_bets,
            BetOption::Down => self.markets[mi].total_down_bets,
        };

        if winning_pool == 0 {
            return Some(0);
        }

        proof {
            lemma_reward_fits(*self, market_id, user);
            lemma_mul_inequality(bet.amount as int, u64::MAX as int, total_pool as int);
            lemma_mul_inequality(total_pool as int, u64::MAX as int, u64::MAX as int);
        }
        let reward: u128 = (bet.amount as u128) * (total_pool as u128) / (winning_pool as u128);

        Some(reward as u64)
    }
}

impl LynoraState {
    /// Look up a market by identifier.
    pub fn get_market(&self, market_id: u64) -> (r: Option<&Market>)
        ensures
            match r {
                Some(m) => m.id == market_id,
                None => forall|j: int|
                    0 <= j < self.markets@.len() ==> (#[trigger] self.markets@[j]).id != market_id,
            },
            self.wf() ==> (r is Some <==> self.market_known(market_id)),
            self.wf() && self.market_known(market_id) ==> r == Some(&self.market_at(market_id)),
    {
        match self.get_market_index(market_id) {
            Some(i) => Some(&self.markets[i]),
            None => None,
        }
    }

    /// Look up the one bet `user` placed on `market_id`, if any.
    pub fn get_user_bet(&self, market_id: u64, user: u64) -> (r: Option<&Bet>)
        ensures
            r is Some <==> has_bet(self.bets@, market_id, user),
            match r {
                Some(b) => b.market_id == market_id && b.user == user,
                None => true,
            },
            self.wf() && has_bet(self.bets@, market_id, user) ==> r == Some(
                &self.bet_of(market_id, user),
            ),
    {
        match self.get_bet_index(market_id, user) {
            Some(i) => Some(&self.bets[i]),
            None => None,
        }
    }

    /// All bets placed by `user`, in arrival order.
    #[verifier::loop_isolation(false)]
    pub fn get_user_bets(&self, user: u64) -> (r: Vec<&Bet>)
        ensures
            r@.len() == self.bets@.filter(|b: Bet| b.user == user).len(),
            forall|k: int|
                0 <= k < r@.len() ==> *(#[trigger] r@[k]) == self.bets@.filter(
                    |b: Bet| b.user == user,
                )[k],
    {
        let ghost pred = |b: Bet| b.user == user;
        let n = self.bets.len();
        let mut result: Vec<&Bet> = Vec::new();
        let mut i: usize = 0;
        while i < n
            invariant
                n == self.bets@.len(),
                i <= n,
                result@.len() == self.bets@.subrange(0, i as int).filter(pred).len(),
                forall|k: int|
                    0 <= k < result@.len() ==> *(#[trigger] result@[k]) == self.bets@.subrange(
                        0,
                        i as int,
                    ).filter(pred)[k],
            decreases n - i,
        {
            proof {
                let prefix = self.bets@.subrange(0, i as int);
                assert(self.bets@.subrange(0, i as int + 1) =~= prefix.push(
                    self.bets@[i as int],
                ));
                prefix.lemma_filter_push(self.bets@[i as int], pred);
            }
            if self.bets[i].user == user {
                result.push(&self.bets[i]);
            }
            i += 1;
        }
        proof {
            assert(self.bets@.subrange(0, n as int) =~= self.bets@);
        }
        result
    }

    /// All bets on `market_id`, in arrival order.
    #[verifier::loop_isolation(false)]
    pub fn get_market_bets(&self, market_id: u64) -> (r: Vec<&Bet>)
        ensures
            r@.len() == self.bets@.filter(|b: Bet| b.market_id == market_id).len(),
            forall|k: int|
                0 <= k < r@.len() ==> *(#[trigger] r@[k]) == self.bets@.filter(
                    |b: Bet| b.market_id == market_id,
                )[k],
    {
        let ghost pred = |b: Bet| b.market_id == market_id;
        let n = self.bets.len();
        let mut result: Vec<&Bet> = Vec::new();
        let mut i: usize = 0;
        while i < n
            invariant
                n == self.bets@.len(),
                i <= n,
                result@.len() == self.bets@.subrange(0, i as int).filter(pred).len(),
                forall|k: int|
                    0 <= k < result@.len() ==> *(#[trigger] result@[k]) == self.bets@.subrange(
                        0,
                        i as int,
                    ).filter(pred)[k],
            decreases n - i,
        {
            proof {
                let prefix = self.bets@.subrange(0, i as int);
                assert(self.bets@.subrange(0, i as int + 1) =~= prefix.push(
                    self.bets@[i as int],
                ));
                prefix.lemma_filter_push(self.bets@[i as int], pred);
            }
            if self.bets[i].market_id == market_id {
                result.push(&self.bets[i]);
            }
            i += 1;
        }
        proof {
            assert(self.bets@.subrange(0, n as int) =~= self.bets@);
        }
        result
    }

    /// All markets still accepting bets, in creation order.
    #[verifier::loop_isolation(false)]
    pub fn active_markets(&self) -> (r: Vec<&Market>)
        ensures
            r@.len() == self.markets@.filter(
                |m: Market| m.status == MarketStatus::Active,
            ).len(),
            forall|k: int|
                0 <= k < r@.len() ==> *(#[trigger] r@[k]) == self.markets@.filter(
                    |m: Market| m.status == MarketStatus::Active,
                )[k],
    {
        let ghost pred = |m: Market| m.status == MarketStatus::Active;
        let n = self.markets.len();
        let mut result: Vec<&Market> = Vec::new();
        let mut i: usize = 0;
        while i < n
            invariant
                n == self.markets@.len(),
                i <= n,
                result@.len() == self.markets@.subrange(0, i as int).filter(pred).len(),
                forall|k: int|
                    0 <= k < result@.len() ==> *(#[trigger] result@[k]) == self.markets@.subrange(
                        0,
                        i as int,
                    ).filter(pred)[k],
            decreases n - i,
        {
            proof {
                let prefix = self.markets@.subrange(0, i as int);
                assert(self.markets@.subrange(0, i as int + 1) =~= prefix.push(
                    self.markets@[i as int],
                ));
                prefix.lemma_filter_push(self.markets@[i as int], pred);
            }
            if self.markets[i].is_active() {
                result.push(&self.markets[i]);
            }
            i += 1;
        }
        proof {
            assert(self.markets@.subrange(0, n as int) =~= self.markets@);
        }
        result
    }
}

impl Default for LynoraState {
    /// The all-empty value, as field-wise defaults give it. Unlike `new`,
    /// the identifier counter is zero, so this value is not well-formed;
    /// it exists only as a storage placeholder before initialization.
    fn default() -> (s: Self)
        ensures
            s.markets@.len() == 0,
            s.bets@.len() == 0,
            s.next_market_id == 0,
    {
        LynoraState { markets: Vec::new(), bets: Vec::new(), next_market_id: 0 }
    }
}

} // verus!
