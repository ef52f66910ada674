//! Read-only projection of the state for the query layer: plain records
//! with every number rendered in decimal, computed without side effects.

use vstd::prelude::*;

use crate::state::{
    clamp_u64, spec_calculate_reward, Bet, BetOption, LynoraState, Market, MarketStatus,
};

verus! {

/// Errors of the query layer.
#[derive(Debug, Clone, Copy, PartialEq, Eq, Structural)]
pub enum ServiceError {
    MarketNotFound,
}

impl ServiceError {
    /// Human-readable description of each error.
    pub open spec fn spec_message(self) -> Seq<char> {
        match self {
            ServiceError::MarketNotFound => "Market not found"@,
        }
    }

    pub fn message(&self) -> (m: &'static str)
        ensures
            m@ == self.spec_message(),
    {
        "Market not found"
    }
}

/// The decimal digit character for `d`.
pub open spec fn digit_char(d: int) -> char
    recommends
        0 <= d <= 9,
{
    if d == 0 {
        '0'
    } else if d == 1 {
        '1'
    } else if d == 2 {
        '2'
    } else if d == 3 {
        '3'
    } else if d == 4 {
        '4'
    } else if d == 5 {
        '5'
    } else if d == 6 {
        '6'
    } else if d == 7 {
        '7'
    } else if d == 8 {
        '8'
    } else {
        '9'
    }
}

/// The decimal rendering of `n`, most significant digit first, with no
/// leading zeroes (a single zero for zero itself).
pub open spec fn spec_decimal(n: nat) -> Seq<char>
    decreases n,
{
    if n < 10 {
        seq![digit_char(n as int)]
    } else {
        spec_decimal(n / 10) + seq![digit_char((n % 10) as int)]
    }
}

/// The one-character string for the digit `d`.
fn decimal_digit_str(d: u64) -> (r: &'static str)
    requires
        d <= 9,
    ensures
        r@ == seq![digit_char(d as int)],
{
    if d == 0 {
        proof {
            reveal_strlit("0");
        }
        assert("0"@ =~= seq![digit_char(0)]);
        "0"
    } else if d == 1 {
        proof {
            reveal_strlit("1");
        }
        assert("1"@ =~= seq![digit_char(1)]);
        "1"
    } else if d == 2 {
        proof {
            reveal_strlit("2");
        }
        assert("2"@ =~= seq![digit_char(2)]);
        "2"
    } else if d == 3 {
        proof {
            reveal_strlit("3");
        }
        assert("3"@ =~= seq![digit_char(3)]);
        "3"
    } else if d == 4 {
        proof {
            reveal_strlit("4");
        }
        assert("4"@ =~= seq![digit_char(4)]);
        "4"
    } else if d == 5 {
        proof {
            reveal_strlit("5");
        }
        assert("5"@ =~= seq![digit_char(5)]);
        "5"
    } else if d == 6 {
        proof {
            reveal_strlit("6");
        }
        assert("6"@ =~= seq![digit_char(6)]);
        "6"
    } else if d == 7 {
        proof {
            reveal_strlit("7");
        }
        assert("7"@ =~= seq![digit_char(7)]);
        "7"
    } else if d == 8 {
        proof {
            reveal_strlit("8");
        }
        assert("8"@ =~= seq![digit_char(8)]);
        "8"
    } else {
        proof {
            reveal_strlit("9");
        }
        assert("9"@ =~= seq![digit_char(9)]);
        "9"
    }
}

/// Render `n` in decimal.
pub fn decimal_string(n: u64) -> (s: String)
    ensures
        s@ == spec_decimal(n as nat),
    decreases n,
{
    if n < 10 {
        String::from_str(decimal_digit_str(n))
    } else {
        let mut s = decimal_string(n / 10);
        s.append(decimal_digit_str(n % 10));
        s
    }
}

/// The label of a market status.
pub open spec fn status_label(s: MarketStatus) -> Seq<char> {
    match s {
        MarketStatus::Active => "Active"@,
        MarketStatus::Locked => "Locked"@,
        MarketStatus::Resolved => "Resolved"@,
    }
}

/// The label of a bet option.
pub open spec fn option_label(o: BetOption) -> Seq<char> {
    match o {
        BetOption::Up => "Up"@,
        BetOption::Down => "Down"@,
    }
}

/// A market as the query layer shows it.
#[derive(Debug)]
pub struct MarketQL {
    pub id: u64,
    pub creator: String,
    pub creator_chain: String,
    pub question: String,
    pub description: String,
    pub end_time: u64,
    pub status: String,
    pub total_up_bets: String,
    pub total_down_bets: String,
    pub total_pool: String,
    pub winning_option: Option<String>,
    pub created_at: u64,
    pub resolution_price: Option<u64>,
}

/// A bet as the query layer shows it.
#[derive(Debug)]
pub struct BetQL {
    pub market_id: u64,
    pub user: String,
    pub option: String,
    pub amount: String,
    pub timestamp: u64,
    pub claimed: bool,
}

/// Field-by-field correspondence of a projected market with its record.
pub open spec fn is_market_ql(q: MarketQL, m: Market) -> bool {
    &&& q.id == m.id
    &&& q.creator@ == spec_decimal(m.creator as nat)
    &&& q.creator_chain@ == spec_decimal(m.creator_chain as nat)
    &&& q.question@ == m.question@
    &&& q.description@ == m.description@
    &&& q.end_time == m.end_time
    &&& q.status@ == status_label(m.status)
    &&& q.total_up_bets@ == spec_decimal(m.total_up_bets as nat)
    &&& q.total_down_bets@ == spec_decimal(m.total_down_bets as nat)
    &&& q.total_pool@ == spec_decimal(clamp_u64(m.total_up_bets + m.total_down_bets) as nat)
    &&& match m.winning_option {
        None => q.winning_option is None,
        Some(o) => q.winning_option is Some && q.winning_option.unwrap()@ == option_label(o),
    }
    &&& q.created_at == m.created_at
    &&& q.resolution_price == m.resolution_price
}

/// Field-by-field correspondence of a projected bet with its record.
pub open spec fn is_bet_ql(q: BetQL, b: Bet) -> bool {
    &&& q.market_id == b.market_id
    &&& q.user@ == spec_decimal(b.user as nat)
    &&& q.option@ == option_label(b.option)
    &&& q.amount@ == spec_decimal(b.amount as nat)
    &&& q.timestamp == b.timestamp
    &&& q.claimed == b.claimed
}

/// Project one market record.
pub fn market_to_ql(market: &Market) -> (q: MarketQL)
    ensures
        is_market_ql(q, *market),
{
    let status = match market.status {
        MarketStatus::Active => String::from_str("Active"),
        MarketStatus::Locked => String::from_str("Locked"),
        MarketStatus::Resolved => String::from_str("Resolved"),
    };
    let winning_option = match market.winning_option {
        None => None,
        Some(BetOption::Up) => Some(String::from_str("Up")),
        Some(BetOption::Down) => Some(String::from_str("Down")),
    };
    MarketQL {
        id: market.id,
        creator: decimal_string(market.creator),
        creator_chain: decimal_string(market.creator_chain),
        question: market.question.clone(),
        description: market.description.clone(),
        end_time: market.end_time,
        status,
        total_up_bets: decimal_string(market.total_up_bets),
        total_down_bets: decimal_string(market.total_down_bets),
        total_pool: decimal_string(market.total_pool()),
        winning_option,
        created_at: market.created_at,
        resolution_price: market.resolution_price,
    }
}

/// Project one bet record.
pub fn bet_to_ql(bet: &Bet) -> (q: BetQL)
    ensures
        is_bet_ql(q, *bet),
{
    let option = match bet.option {
        BetOption::Up => String::from_str("Up"),
        BetOption::Down => String::from_str("Down"),
    };
    BetQL {
        market_id: bet.market_id,
        user: decimal_string(bet.user),
        option,
        amount: decimal_string(bet.amount),
        timestamp: bet.timestamp,
        claimed: bet.claimed,
    }
}

/// Entry points of the read-only query surface. Each method is a pure
/// function of the state handed in by the host.
pub struct QueryRoot;

impl QueryRoot {
    /// Every market, projected, in creation order.
    #[verifier::loop_isolation(false)]
    pub fn markets(&self, state: &LynoraState) -> (r: Vec<MarketQL>)
        ensures
            r@.len() == state.markets@.len(),
            forall|i: int|
                0 <= i < r@.len() ==> is_market_ql(#[trigger] r@[i], state.markets@[i]),
    {
        let n = state.markets.len();
        let mut result: Vec<MarketQL> = Vec::new();
        let mut i: usize = 0;
        while i < n
            invariant
                i <= n,
                result@.len() == i,
                forall|k: int|
                    0 <= k < i ==> is_market_ql(#[trigger] result@[k], state.markets@[k]),
            decreases n - i,
        {
            result.push(market_to_ql(&state.markets[i]));
            i += 1;
        }
        result
    }

    /// One market, projected.
    pub fn market(&self, state: &LynoraState, market_id: u64) -> (r: Option<MarketQL>)
        ensures
            match r {
                Some(q) => q.id == market_id,
                None => forall|j: int|
                    0 <= j < state.markets@.len() ==> (#[trigger] state.markets@[j]).id
                        != market_id,
            },
            state.wf() ==> (r is Some <==> state.market_known(market_id)),
            state.wf() && state.market_known(market_id) ==> is_market_ql(
                r.unwrap(),
                state.market_at(market_id),
            ),
    {
        match state.get_market(market_id) {
            Some(m) => Some(market_to_ql(m)),
            None => None,
        }
    }

    /// Markets still accepting bets, projected, in creation order.
    #[verifier::loop_isolation(false)]
    pub fn active_markets(&self, state: &LynoraState) -> (r: Vec<MarketQL>)
        ensures
            r@.len() == state.markets@.filter(
                |m: Market| m.status == MarketStatus::Active,
            ).len(),
            forall|i: int|
                0 <= i < r@.len() ==> is_market_ql(
                    #[trigger] r@[i],
                    state.markets@.filter(|m: Market| m.status == MarketStatus::Active)[i],
                ),
    {
        let active = state.active_markets();
        let n = active.len();
        let ghost filtered = state.markets@.filter(|m: Market| m.status == MarketStatus::Active);
        let mut result: Vec<MarketQL> = Vec::new();
        let mut i: usize = 0;
        while i < n
            invariant
                i <= n,
                n == filtered.len(),
                result@.len() == i,
                forall|k: int| 0 <= k < i ==> is_market_ql(#[trigger] result@[k], filtered[k]),
            decreases n - i,
        {
            result.push(market_to_ql(active[i]));
            i += 1;
        }
        result
    }

    /// The bets of one user, projected, in arrival order.
    #[verifier::loop_isolation(false)]
    pub fn user_bets(&self, state: &LynoraState, user: u64) -> (r: Vec<BetQL>)
        ensures
            r@.len() == state.bets@.filter(|b: Bet| b.user == user).len(),
            forall|i: int|
                0 <= i < r@.len() ==> is_bet_ql(
                    #[trigger] r@[i],
                    state.bets@.filter(|b: Bet| b.user == user)[i],
                ),
    {
        let bets = state.get_user_bets(user);
        let n = bets.len();
        let ghost filtered = state.bets@.filter(|b: Bet| b.user == user);
        let mut result: Vec<BetQL> = Vec::new();
        let mut i: usize = 0;
        while i < n
            invariant
                i <= n,
                n == filtered.len(),
                result@.len() == i,
                forall|k: int| 0 <= k < i ==> is_bet_ql(#[trigger] result@[k], filtered[k]),
            decreases n - i,
        {
            result.push(bet_to_ql(bets[i]));
            i += 1;
        }
        result
    }

    /// The bets on one market, projected, in arrival order.
    #[verifier::loop_isolation(false)]
    pub fn market_bets(&self, state: &LynoraState, market_id: u64) -> (r: Vec<BetQL>)
        ensures
            r@.len() == state.bets@.filter(|b: Bet| b.market_id == market_id).len(),
            forall|i: int|
                0 <= i < r@.len() ==> is_bet_ql(
                    #[trigger] r@[i],
                    state.bets@.filter(|b: Bet| b.market_id == market_id)[i],
                ),
    {
        let bets = state.get_market_bets(market_id);
        let n = bets.len();
        let ghost filtered = state.bets@.filter(|b: Bet| b.market_id == market_id);
        let mut result: Vec<BetQL> = Vec::new();
        let mut i: usize = 0;
        while i < n
            invariant
                i <= n,
                n == filtered.len(),
                result@.len() == i,
                forall|k: int| 0 <= k < i ==> is_bet_ql(#[trigger] result@[k], filtered[k]),
            decreases n - i,
        {
            result.push(bet_to_ql(bets[i]));
            i += 1;
        }
        result
    }

    /// The reward `user` would receive on `market_id`, rendered in decimal,
    /// or `None` when nothing is claimable. Pure: no side effects.
    pub fn calculate_reward(&self, state: &LynoraState, market_id: u64, user: u64) -> (r: Option<
        String,
    >)
        requires
            state.wf(),
        ensures
            match spec_calculate_reward(*state, market_id, user) {
                None => r is None,
                Some(a) => r is Some && r.unwrap()@ == spec_decimal(a as nat),
            },
    {
        match state.calculate_reward(market_id, user) {
            None => None,
            Some(a) => Some(decimal_string(a)),
        }
    }
}

/// Mutation surface of the query protocol; unused, present for the schema.
pub struct MutationRoot;

impl MutationRoot {
    pub fn dummy(&self) -> (r: bool)
        ensures
            r,
    {
        true
    }
}

/// Subscription surface of the query protocol. The host's streaming layer
/// owns the delivery of updates; the core has no updates to push, so the
/// type carries no state.
pub struct SubscriptionRoot;

} // verus!
