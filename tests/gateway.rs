use ex_gate::json::render;
use ex_gate::{
    BalancesRequest, BinanceContentError, CreateOrderRequest, ExGreeter, Exchange, GateErr, GetOrderRequest, Json,
    PriceRequest, RpcStatus,
};

fn create(exchange: &str, side: &str) -> CreateOrderRequest {
    CreateOrderRequest {
        exchange_name: exchange.to_string(),
        symbol: "BTCUSDT".to_string(),
        quantity: "0.01".to_string(),
        side: side.to_string(),
        client_order_id: "1".to_string(),
    }
}

#[test]
fn registered_exchange_routes() {
    let g = ExGreeter;
    let r = g.check_balances(&BalancesRequest { exchange_name: "Binance".to_string() });
    assert_eq!(r, Ok(Exchange::Binance));
    let r = g.check_prices(&PriceRequest { exchange_name: "Binance".to_string(), symbols: vec![] });
    assert_eq!(r, Ok(Exchange::Binance));
}

#[test]
fn unknown_exchange_rejected() {
    let g = ExGreeter;
    for name in ["binance", "Kraken", "", "Binance "] {
        let r = g.check_order(&GetOrderRequest {
            exchange_name: name.to_string(),
            symbol: "BTCUSDT".to_string(),
            client_order_id: "1".to_string(),
        });
        assert_eq!(r, Err(RpcStatus::InvalidArgument("param exchange_name is wrong".to_string())));
    }
}

#[test]
fn side_must_be_buy_or_sell() {
    let g = ExGreeter;
    assert_eq!(g.check_create_order(&create("Binance", "BUY")), Ok(Exchange::Binance));
    assert_eq!(g.check_create_order(&create("Binance", "SELL")), Ok(Exchange::Binance));
    for side in ["buy", "Sell", "", "HOLD", "BUY "] {
        assert_eq!(
            g.check_create_order(&create("Binance", side)),
            Err(RpcStatus::InvalidArgument("param side is wrong".to_string()))
        );
    }
}

#[test]
fn side_checked_before_exchange() {
    let g = ExGreeter;
    assert_eq!(
        g.check_create_order(&create("Kraken", "HOLD")),
        Err(RpcStatus::InvalidArgument("param side is wrong".to_string()))
    );
    assert_eq!(
        g.check_create_order(&create("Kraken", "BUY")),
        Err(RpcStatus::InvalidArgument("param exchange_name is wrong".to_string()))
    );
}

#[test]
fn adapter_errors_become_unknown() {
    let ok: Result<u8, GateErr> = Ok(3);
    assert_eq!(ExGreeter::reply(ok), Ok(3));
    let r: Result<u8, GateErr> = Err(GateErr::BinanceUnavailable);
    assert_eq!(ExGreeter::reply(r), Err(RpcStatus::Unknown("binance unavailable".to_string())));
    let r: Result<u8, GateErr> = Err(GateErr::CustomErr("binance no balance field".to_string()));
    assert_eq!(ExGreeter::reply(r), Err(RpcStatus::Unknown("`binance no balance field`".to_string())));
}

#[test]
fn error_descriptions() {
    assert_eq!(GateErr::BinanceServerErr.description(), "Binance Server Error");
    assert_eq!(GateErr::BinanceUnauthorized.description(), "binance unauthorized");
    assert_eq!(GateErr::GetTimestampErr.description(), "fail to get Timestamp");
    assert_eq!(GateErr::BinanceOtherErr("Received response: 404".to_string()).description(), "`Received response: 404`");
    assert_eq!(GateErr::ReqwestError("connection refused".to_string()).description(), "connection refused");
    let e = BinanceContentError { code: -1121, msg: "Invalid symbol.".to_string(), extra: vec![] };
    assert_eq!(GateErr::BinanceContentError(e).description(), "(-1121) \"Invalid symbol.\"\n{}");
    let e = BinanceContentError { code: 400, msg: "bad".to_string(), extra: vec![] };
    assert_eq!(GateErr::BinanceContentError(e).description(), "(400) \"bad\"\n{}");
}

#[test]
fn content_error_description_keeps_extra_fields() {
    let e = BinanceContentError {
        code: -1121,
        msg: "Invalid symbol.".to_string(),
        extra: vec![
            ("foo".to_string(), Json::Str("bar".to_string())),
            (
                "detail".to_string(),
                Json::Object(vec![
                    ("n".to_string(), Json::Int(-3)),
                    ("list".to_string(), Json::Array(vec![Json::UInt(1), Json::Null, Json::Bool(true)])),
                ]),
            ),
        ],
    };
    let text = "(-1121) \"Invalid symbol.\"\n{\"foo\": \"bar\", \"detail\": {\"n\": -3, \"list\": [1, null, true]}}";
    assert_eq!(GateErr::BinanceContentError(e).description(), text);
}

#[test]
fn rpc_error_for_content_error_carries_extra() {
    let e = BinanceContentError {
        code: -1121,
        msg: "Invalid symbol.".to_string(),
        extra: vec![("foo".to_string(), Json::Float("1.5".to_string()))],
    };
    let r: Result<u8, GateErr> = Err(GateErr::BinanceContentError(e));
    assert_eq!(
        ExGreeter::reply(r),
        Err(RpcStatus::Unknown("(-1121) \"Invalid symbol.\"\n{\"foo\": 1.5}".to_string()))
    );
}

#[test]
fn render_json_values() {
    assert_eq!(render(&Json::Null), "null");
    assert_eq!(render(&Json::Int(i64::MIN)), "-9223372036854775808");
    assert_eq!(render(&Json::UInt(42)), "42");
    assert_eq!(render(&Json::Str("a\"b".to_string())), "\"a\\\"b\"");
    assert_eq!(render(&Json::Array(vec![])), "[]");
    assert_eq!(render(&Json::Object(vec![])), "{}");
    assert_eq!(
        render(&Json::Array(vec![Json::Array(vec![Json::Bool(false)]), Json::Str("x".to_string())])),
        "[[false], \"x\"]"
    );
}
