//! A gateway library for a signed-request exchange adapter.
//!
//! The library builds canonical query strings, signs them, classifies
//! exchange replies, decodes them into typed entities and validates the
//! gateway's requests. Network transport lives outside the library.

pub mod binance;
pub mod client;
pub mod entities;
pub mod error;
pub mod gateway;
pub mod json;
pub mod params;
pub mod signer;
pub mod text;

pub use binance::{
    account_query, content_error_of, handler, market_order_parameters, market_order_query, order_parameters,
    order_query, parse_account, parse_order, parse_prices, prices_parameters, prices_query, ACCOUNT_ENDPOINT,
    ORDER_ENDPOINT, PRICES_ENDPOINT, RECV_WINDOW,
};
pub use client::{lemma_signing_deterministic, Client};
pub use entities::{Balance, BalancesReply, OrderReply, Price, PricesReply};
pub use error::{BinanceContentError, GateErr};
pub use gateway::{
    BalancesRequest, CreateOrderRequest, ExGreeter, Exchange, GetOrderRequest, PriceRequest, RpcStatus,
};
pub use json::Json;
pub use params::ParameterSet;
pub use signer::{build_request, build_signed_request, build_signed_request_at, get_timestamp, millis_from};
pub use text::{decimal_string, key_compare};
