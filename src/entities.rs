//! The replies the gateway hands back.

use vstd::prelude::*;

verus! {

/// One asset of an account; amounts are decimal text.
#[derive(Debug, Clone, PartialEq)]
pub struct Balance {
    pub asset: String,
    pub free: String,
    pub locked: String,
}

#[derive(Debug, Clone, PartialEq)]
pub struct BalancesReply {
    pub balances: Vec<Balance>,
}

/// The last price of one symbol, as decimal text.
#[derive(Debug, Clone, PartialEq)]
pub struct Price {
    pub symbol: String,
    pub price: String,
}

#[derive(Debug, Clone, PartialEq)]
pub struct PricesReply {
    pub prices: Vec<Price>,
}

/// One order; timestamps are milliseconds since the Unix epoch.
#[derive(Debug, Clone, PartialEq)]
pub struct OrderReply {
    pub price: String,
    pub original_quantity: String,
    pub executed_quantity: String,
    pub order_status: String,
    pub time_in_force: String,
    pub order_type: String,
    pub side: String,
    pub created_timestamp: u64,
    pub updated_timestamp: u64,
}

} // verus!
