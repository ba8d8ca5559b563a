//! Price-alert evaluation library.
//!
//! Alerts are stored rows that ask for a notification once a symbol's quoted
//! price satisfies a condition relative to a threshold. This crate holds the
//! decision logic of one evaluation pass — gathering the symbols in use,
//! matching fetched quotes against stored alert rows, applying the trigger
//! rules and planning the deletion of triggered rows — together with the
//! proofs that the trigger rules and the pass bookkeeping behave as stated.
//!
//! Prices are carried as fixed-point integers (units of 1/100000), so that
//! the trigger comparisons and the tolerance band are exact.

use vstd::prelude::*;

pub mod data;
pub mod db;
pub mod errors;
pub mod evaluate;
pub mod pass;
pub mod price;
pub mod row;
pub mod store;
pub mod success;
pub mod text;
pub mod utils;

verus! {

/// One user's price-trigger request.
///
/// `price_level` is in fixed-point units of 1/100000 (see `price`).
#[derive(Clone)]
pub struct Alert {
    /// Unique, client-generated identifier correlating the alert across calls.
    pub hash: String,
    /// The threshold at which the alert should trigger, in fixed-point units.
    pub price_level: i64,
    /// The identifier of the user who set up the alert.
    pub user_id: String,
    /// The symbol the alert watches.
    pub symbol: String,
}

impl Alert {
    /// Builds an alert from its four components.
    pub fn new(hash: String, price_level: i64, symbol: String, user_id: String) -> (a: Alert)
        ensures
            a.hash@ == hash@,
            a.price_level == price_level,
            a.symbol@ == symbol@,
            a.user_id@ == user_id@,
    {
        Alert { hash, price_level, user_id, symbol }
    }
}

} // verus!
