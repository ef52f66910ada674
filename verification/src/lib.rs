//! A binary-outcome prediction market: markets with a deadline, one
//! directional bet per user per market, creator-driven resolution after
//! expiry, and proportional settlement of the losing pool among winners.

pub mod contract;
pub mod laws;
pub mod service;
pub mod state;

pub use contract::{LynoraAbi, LynoraError, Message, Operation};
pub use service::{BetQL, MarketQL, MutationRoot, QueryRoot, ServiceError, SubscriptionRoot};
pub use state::{Bet, BetOption, LynoraState, Market, MarketStatus};
