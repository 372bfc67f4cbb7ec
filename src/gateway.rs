//! The gateway's request checks and the flattening of adapter errors.

use vstd::prelude::*;
use vstd::string::*;
use crate::error::{describe, GateErr};
use crate::text::key_compare;

verus! {

broadcast use vstd::string::group_string_axioms;

/// The outcome of a rejected or failed call.
#[derive(Debug, Clone, PartialEq)]
pub enum RpcStatus {
    /// A caller-supplied argument is wrong; no adapter was called.
    InvalidArgument(String),
    /// The adapter failed; holds the error's description.
    Unknown(String),
}

/// The exchanges with an adapter.
#[derive(Debug, Clone, Copy, PartialEq, Eq)]
pub enum Exchange {
    Binance,
}

#[derive(Debug, Clone, PartialEq)]
pub struct BalancesRequest {
    pub exchange_name: String,
}

#[derive(Debug, Clone, PartialEq)]
pub struct PriceRequest {
    pub exchange_name: String,
    pub symbols: Vec<String>,
}

#[derive(Debug, Clone, PartialEq)]
pub struct GetOrderRequest {
    pub exchange_name: String,
    pub symbol: String,
    pub client_order_id: String,
}

#[derive(Debug, Clone, PartialEq)]
pub struct CreateOrderRequest {
    pub exchange_name: String,
    pub symbol: String,
    pub quantity: String,
    pub side: String,
    pub client_order_id: String,
}

/// The registered name of an exchange.
pub open spec fn exchange_name(e: Exchange) -> Seq<char> {
    match e {
        Exchange::Binance => "Binance"@,
    }
}

/// The exchange registered under `name`, compared exactly.
pub open spec fn exchange_of(name: Seq<char>) -> Option<Exchange> {
    if name == exchange_name(Exchange::Binance) {
        Some(Exchange::Binance)
    } else {
        None
    }
}

/// A side of a market order: exactly `BUY` or `SELL`.
pub open spec fn side_ok(side: Seq<char>) -> bool {
    side == "BUY"@ || side == "SELL"@
}

pub open spec fn is_invalid_argument(r: RpcStatus, message: Seq<char>) -> bool {
    r matches RpcStatus::InvalidArgument(m) && m@ == message
}

impl Exchange {
    /// The exchange registered under `name`.
    pub fn lookup(name: &str) -> (r: Option<Exchange>)
        ensures
            r == exchange_of(name@),
    {
        let registered = String::from_str("Binance");
        if key_compare(&String::from_str(name), &registered) == 0 {
            Some(Exchange::Binance)
        } else {
            None
        }
    }
}

/// The gateway: checks each request and picks the adapter that serves it.
pub struct ExGreeter;

impl ExGreeter {
    /// The exchange that serves a request for `exchange_name`, or the
    /// rejection of an unknown name.
    pub fn route(&self, exchange_name: &str) -> (r: Result<Exchange, RpcStatus>)
        ensures
            exchange_of(exchange_name@) matches Some(e) ==> r == Ok::<Exchange, RpcStatus>(e),
            exchange_of(exchange_name@) is None ==> (r matches Err(s) && is_invalid_argument(
                s,
                "param exchange_name is wrong"@,
            )),
    {
        match Exchange::lookup(exchange_name) {
            Some(e) => Ok(e),
            None => Err(RpcStatus::InvalidArgument(String::from_str("param exchange_name is wrong"))),
        }
    }

    /// Whether `side` is `BUY` or `SELL`, case included.
    pub fn valid_side(side: &str) -> (r: bool)
        ensures
            r == side_ok(side@),
    {
        let side = String::from_str(side);
        key_compare(&side, &String::from_str("BUY")) == 0 || key_compare(&side, &String::from_str("SELL")) == 0
    }

    /// Checks a balances request.
    pub fn check_balances(&self, request: &BalancesRequest) -> (r: Result<Exchange, RpcStatus>)
        ensures
            r is Ok <==> exchange_of(request.exchange_name@) is Some,
            r matches Ok(e) ==> exchange_of(request.exchange_name@) == Some(e),
            r matches Err(s) ==> is_invalid_argument(s, "param exchange_name is wrong"@),
    {
        self.route(request.exchange_name.as_str())
    }

    /// Checks a price request.
    pub fn check_prices(&self, request: &PriceRequest) -> (r: Result<Exchange, RpcStatus>)
        ensures
            r is Ok <==> exchange_of(request.exchange_name@) is Some,
            r matches Ok(e) ==> exchange_of(request.exchange_name@) == Some(e),
            r matches Err(s) ==> is_invalid_argument(s, "param exchange_name is wrong"@),
    {
        self.route(request.exchange_name.as_str())
    }

    /// Checks an order query.
    pub fn check_order(&self, request: &GetOrderRequest) -> (r: Result<Exchange, RpcStatus>)
        ensures
            r is Ok <==> exchange_of(request.exchange_name@) is Some,
            r matches Ok(e) ==> exchange_of(request.exchange_name@) == Some(e),
            r matches Err(s) ==> is_invalid_argument(s, "param exchange_name is wrong"@),
    {
        self.route(request.exchange_name.as_str())
    }

    /// Checks a market order: the side first, then the exchange.
    pub fn check_create_order(&self, request: &CreateOrderRequest) -> (r: Result<Exchange, RpcStatus>)
        ensures
            r is Ok <==> side_ok(request.side@) && exchange_of(request.exchange_name@) is Some,
            r matches Ok(e) ==> exchange_of(request.exchange_name@) == Some(e),
            !side_ok(request.side@) ==> (r matches Err(s) && is_invalid_argument(s, "param side is wrong"@)),
            side_ok(request.side@) && exchange_of(request.exchange_name@) is None ==> (r matches Err(s)
                && is_invalid_argument(s, "param exchange_name is wrong"@)),
    {
        if !Self::valid_side(request.side.as_str()) {
            return Err(RpcStatus::InvalidArgument(String::from_str("param side is wrong")));
        }
        self.route(request.exchange_name.as_str())
    }

    /// Flattens an adapter outcome: a value passes, an error becomes
    /// `Unknown` with its description.
    pub fn reply<T>(r: Result<T, GateErr>) -> (out: Result<T, RpcStatus>)
        ensures
            r matches Ok(v) ==> out == Ok::<T, RpcStatus>(v),
            r matches Err(e) ==> (out matches Err(RpcStatus::Unknown(m)) && m@ == describe(e)),
    {
        match r {
            Ok(v) => Ok(v),
            Err(e) => Err(RpcStatus::Unknown(e.description())),
        }
    }
}

} // verus!
