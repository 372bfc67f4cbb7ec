use ex_gate::{
    account_query, content_error_of, handler, market_order_query, order_query, parse_account, parse_order,
    parse_prices, prices_query, GateErr, Json,
};

fn s(v: &str) -> String {
    v.to_string()
}

fn obj(fields: Vec<(&str, Json)>) -> Json {
    Json::Object(fields.into_iter().map(|(k, v)| (k.to_string(), v)).collect())
}

fn text(v: &str) -> Json {
    Json::Str(v.to_string())
}

#[test]
fn prices_query_empty_omits_symbols() {
    assert_eq!(prices_query(&vec![]), "");
}

#[test]
fn prices_query_collapses_separator() {
    let q = prices_query(&vec![s("ETHBTC"), s("LTCBTC")]);
    assert_eq!(q, "symbols=%5B%22ETHBTC%22,%22LTCBTC%22%5D");
    assert!(!q.contains("%2C%20"));
}

#[test]
fn prices_query_single_symbol() {
    assert_eq!(prices_query(&vec![s("BTCUSDT")]), "symbols=%5B%22BTCUSDT%22%5D");
}

#[test]
fn account_query_is_signed_parameters() {
    let q = account_query().unwrap();
    assert!(q.starts_with("recvWindow=5000&timestamp="));
}

#[test]
fn order_query_parameters() {
    let q = order_query("BTCUSDT", "abc").unwrap();
    assert!(q.starts_with("origClientOrderId=abc&recvWindow=5000&symbol=BTCUSDT&timestamp="));
}

#[test]
fn market_order_query_parameters() {
    let q = market_order_query("BTCUSDT", "SELL", "0.01", "id1").unwrap();
    assert!(q.starts_with(
        "newClientOrderId=id1&quantity=0.01&recvWindow=5000&side=SELL&symbol=BTCUSDT&timestamp="
    ));
    assert!(q.contains("&type=MARKET"));
}

#[test]
fn get_balances_end_to_end() {
    let doc = obj(vec![(
        "balances",
        Json::Array(vec![obj(vec![("asset", text("BTC")), ("free", text("1.0")), ("locked", text("0.0"))])]),
    )]);
    let body = handler(200, Ok(doc)).unwrap();
    let reply = parse_account(&body).unwrap();
    assert_eq!(reply.balances.len(), 1);
    assert_eq!(reply.balances[0].asset, "BTC");
    assert_eq!(reply.balances[0].free, "1.0");
    assert_eq!(reply.balances[0].locked, "0.0");
}

#[test]
fn account_without_balances_field() {
    let doc = obj(vec![("makerCommission", Json::UInt(15))]);
    assert!(matches!(parse_account(&doc), Err(GateErr::CustomErr(m)) if m == "binance no balance field"));
}

#[test]
fn account_with_bad_entry() {
    let doc = obj(vec![("balances", Json::Array(vec![obj(vec![("asset", text("BTC"))])]))]);
    assert!(matches!(parse_account(&doc), Err(GateErr::SerdeJsonError(_))));
}

#[test]
fn account_with_empty_balances() {
    let doc = obj(vec![("balances", Json::Array(vec![]))]);
    assert_eq!(parse_account(&doc).unwrap().balances.len(), 0);
}

#[test]
fn prices_decode_in_order() {
    let doc = Json::Array(vec![
        obj(vec![("symbol", text("ETHBTC")), ("price", text("0.05"))]),
        obj(vec![("symbol", text("LTCBTC")), ("price", text("0.002"))]),
    ]);
    let reply = parse_prices(&doc).unwrap();
    assert_eq!(reply.prices.len(), 2);
    assert_eq!(reply.prices[0].symbol, "ETHBTC");
    assert_eq!(reply.prices[1].price, "0.002");
}

#[test]
fn prices_not_an_array() {
    let doc = obj(vec![("symbol", text("ETHBTC"))]);
    assert!(
        matches!(parse_prices(&doc), Err(GateErr::CustomErr(m)) if m == "binance response is not as expected")
    );
}

#[test]
fn prices_bad_entry() {
    let doc = Json::Array(vec![obj(vec![("symbol", text("ETHBTC")), ("price", Json::UInt(1))])]);
    assert!(matches!(parse_prices(&doc), Err(GateErr::SerdeJsonError(_))));
}

fn order_doc(with_times: bool) -> Json {
    let mut fields = vec![
        ("price", text("0.1")),
        ("origQty", text("1.0")),
        ("executedQty", text("0.5")),
        ("status", text("PARTIALLY_FILLED")),
        ("timeInForce", text("GTC")),
        ("type", text("LIMIT")),
        ("side", text("BUY")),
    ];
    if with_times {
        fields.push(("time", Json::UInt(1499827319559)));
        fields.push(("updateTime", Json::UInt(1499827319560)));
    }
    obj(fields)
}

#[test]
fn order_decodes_all_fields() {
    let o = parse_order(&order_doc(true)).unwrap();
    assert_eq!(o.price, "0.1");
    assert_eq!(o.original_quantity, "1.0");
    assert_eq!(o.executed_quantity, "0.5");
    assert_eq!(o.order_status, "PARTIALLY_FILLED");
    assert_eq!(o.time_in_force, "GTC");
    assert_eq!(o.order_type, "LIMIT");
    assert_eq!(o.side, "BUY");
    assert_eq!(o.created_timestamp, 1499827319559);
    assert_eq!(o.updated_timestamp, 1499827319560);
}

#[test]
fn order_missing_times_are_zero() {
    let o = parse_order(&order_doc(false)).unwrap();
    assert_eq!(o.created_timestamp, 0);
    assert_eq!(o.updated_timestamp, 0);
}

#[test]
fn order_non_numeric_time_is_zero() {
    let mut doc = order_doc(false);
    if let Json::Object(f) = &mut doc {
        f.push(("time".to_string(), text("soon")));
        f.push(("updateTime".to_string(), Json::Int(-5)));
    }
    let o = parse_order(&doc).unwrap();
    assert_eq!(o.created_timestamp, 0);
    assert_eq!(o.updated_timestamp, 0);
}

#[test]
fn order_missing_text_field() {
    let doc = obj(vec![("price", text("0.1"))]);
    assert!(matches!(parse_order(&doc), Err(GateErr::SerdeJsonError(_))));
}

#[test]
fn status_200_passes_body() {
    let r = handler(200, Ok(Json::Array(vec![])));
    assert!(matches!(r, Ok(Json::Array(v)) if v.is_empty()));
    assert!(matches!(handler(200, Err(s("bad json"))), Err(GateErr::SerdeJsonError(m)) if m == "bad json"));
}

#[test]
fn status_classification() {
    assert!(matches!(handler(500, Ok(Json::Null)), Err(GateErr::BinanceServerErr)));
    assert!(matches!(handler(503, Ok(Json::Null)), Err(GateErr::BinanceUnavailable)));
    assert!(matches!(handler(401, Ok(Json::Null)), Err(GateErr::BinanceUnauthorized)));
    assert!(
        matches!(handler(404, Ok(Json::Null)), Err(GateErr::BinanceOtherErr(m)) if m == "Received response: 404")
    );
    assert!(
        matches!(handler(429, Err(s("x"))), Err(GateErr::BinanceOtherErr(m)) if m == "Received response: 429")
    );
}

#[test]
fn status_400_surfaces_content_error_with_extra() {
    let doc = obj(vec![
        ("code", Json::Int(-1121)),
        ("msg", text("Invalid symbol.")),
        ("detail", obj(vec![("hint", text("check"))])),
        ("retry", Json::Bool(false)),
    ]);
    match handler(400, Ok(doc)) {
        Err(GateErr::BinanceContentError(e)) => {
            assert_eq!(e.code, -1121);
            assert_eq!(e.msg, "Invalid symbol.");
            assert_eq!(e.extra.len(), 2);
            assert_eq!(e.extra[0].0, "detail");
            assert!(matches!(&e.extra[0].1, Json::Object(f) if f.len() == 1 && f[0].0 == "hint"));
            assert_eq!(e.extra[1].0, "retry");
            assert!(matches!(e.extra[1].1, Json::Bool(false)));
        }
        other => panic!("unexpected {:?}", other),
    }
}

#[test]
fn status_400_with_undecodable_body() {
    let doc = obj(vec![("msg", text("no code"))]);
    assert!(matches!(handler(400, Ok(doc)), Err(GateErr::SerdeJsonError(_))));
    assert!(matches!(handler(400, Err(s("eof"))), Err(GateErr::SerdeJsonError(m)) if m == "eof"));
}

#[test]
fn content_error_code_must_fit_i16() {
    let doc = obj(vec![("code", Json::UInt(40000)), ("msg", text("x"))]);
    assert!(matches!(content_error_of(doc), Err(GateErr::SerdeJsonError(_))));
    let doc = obj(vec![("code", Json::Int(40000)), ("msg", text("x"))]);
    assert!(matches!(content_error_of(doc), Err(GateErr::SerdeJsonError(_))));
    let doc = obj(vec![("code", Json::Int(-40000)), ("msg", text("x"))]);
    assert!(matches!(content_error_of(doc), Err(GateErr::SerdeJsonError(_))));
    let doc = obj(vec![("code", Json::Int(-32768)), ("msg", text("x"))]);
    assert_eq!(content_error_of(doc).unwrap().code, -32768);
    let doc = obj(vec![("code", Json::UInt(400)), ("msg", text("x"))]);
    let e = content_error_of(doc).unwrap();
    assert_eq!(e.code, 400);
    assert!(e.extra.is_empty());
}

#[test]
fn order_parameters_sorted() {
    let p = ex_gate::order_parameters("BTCUSDT", "abc");
    assert_eq!(ex_gate::build_request(&p), "origClientOrderId=abc&symbol=BTCUSDT");
}

#[test]
fn market_order_parameters_sorted() {
    let p = ex_gate::market_order_parameters("BTCUSDT", "BUY", "0.5", "x7");
    assert_eq!(
        ex_gate::build_request(&p),
        "newClientOrderId=x7&quantity=0.5&side=BUY&symbol=BTCUSDT&type=MARKET"
    );
}

#[test]
fn prices_parameters_empty_and_escaped() {
    assert_eq!(ex_gate::prices_parameters(&vec![]).len(), 0);
    let p = ex_gate::prices_parameters(&vec![s("A\"B"), s("C D")]);
    assert_eq!(ex_gate::build_request(&p), "symbols=%5B%22A%5C%22B%22,%22C%20D%22%5D");
}

#[test]
fn prices_query_encodes_non_ascii_bytes() {
    assert_eq!(prices_query(&vec![s("é~")]), "symbols=%5B%22%C3%A9~%22%5D");
}
