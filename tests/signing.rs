use ex_gate::{
    build_request, build_signed_request, build_signed_request_at, decimal_string, get_timestamp, key_compare,
    Client, ParameterSet,
};

fn params(pairs: &[(&str, &str)]) -> ParameterSet {
    let mut p = ParameterSet::new();
    for (k, v) in pairs {
        p.insert(k.to_string(), v.to_string());
    }
    p
}

#[test]
fn build_request_sorts_keys() {
    let p = params(&[("symbol", "LTCBTC"), ("side", "BUY"), ("quantity", "1")]);
    assert_eq!(build_request(&p), "quantity=1&side=BUY&symbol=LTCBTC");
}

#[test]
fn build_request_empty_is_empty() {
    assert_eq!(build_request(&ParameterSet::new()), "");
}

#[test]
fn build_request_single_pair_has_no_separator() {
    assert_eq!(build_request(&params(&[("a", "1")])), "a=1");
}

#[test]
fn insertion_order_does_not_matter() {
    let p = params(&[("b", "2"), ("a", "1"), ("c", "3")]);
    let q = params(&[("c", "3"), ("a", "1"), ("b", "2")]);
    assert_eq!(build_request(&p), build_request(&q));
    assert_eq!(build_signed_request_at(p, 5000, 42), build_signed_request_at(q, 5000, 42));
}

#[test]
fn insert_replaces_existing_value() {
    let mut p = params(&[("a", "1"), ("b", "2")]);
    p.insert("a".to_string(), "9".to_string());
    assert_eq!(p.len(), 2);
    assert_eq!(build_request(&p), "a=9&b=2");
}

#[test]
fn keys_order_by_code_point() {
    let p = params(&[("b", "x"), ("B", "y"), ("ab", "z"), ("a", "w")]);
    assert_eq!(build_request(&p), "B=y&a=w&ab=z&b=x");
}

#[test]
fn signed_request_adds_window_and_timestamp() {
    let p = params(&[("symbol", "BTCUSDT")]);
    assert_eq!(
        build_signed_request_at(p, 5000, 1700000000000),
        "recvWindow=5000&symbol=BTCUSDT&timestamp=1700000000000"
    );
}

#[test]
fn signed_request_without_window() {
    let p = params(&[("symbol", "BTCUSDT")]);
    assert_eq!(build_signed_request_at(p, 0, 7), "symbol=BTCUSDT&timestamp=7");
}

#[test]
fn signed_request_now_has_timestamp() {
    let q = build_signed_request(ParameterSet::new(), 5000).unwrap();
    assert!(q.starts_with("recvWindow=5000&timestamp="));
    let t: u64 = q["recvWindow=5000&timestamp=".len()..].parse().unwrap();
    assert!(t > 1_600_000_000_000);
}

#[test]
fn timestamp_is_recent_millis() {
    let t = get_timestamp().unwrap();
    assert!(t > 1_600_000_000_000);
}

#[test]
fn decimal_rendering() {
    assert_eq!(decimal_string(0), "0");
    assert_eq!(decimal_string(7), "7");
    assert_eq!(decimal_string(1234567890), "1234567890");
    assert_eq!(decimal_string(u64::MAX), "18446744073709551615");
}

#[test]
fn key_order() {
    let a = "apple".to_string();
    let b = "apples".to_string();
    let c = "banana".to_string();
    assert!(key_compare(&a, &b) < 0);
    assert!(key_compare(&b, &a) > 0);
    assert!(key_compare(&c, &a) > 0);
    assert_eq!(key_compare(&a, &a.clone()), 0);
}

#[test]
fn sign_request_appends_hmac_signature() {
    let client = Client::new("key".to_string(), "Jefe".to_string(), "https://api.test".to_string());
    let url = client.sign_request("/api/v3/account", "what do ya want for nothing?");
    assert_eq!(
        url,
        "https://api.test/api/v3/account?what do ya want for nothing?&signature=5bdcc146bf60754e6a042426089575c75a003f089d2739839dec58b964ec3843"
    );
}

#[test]
fn signing_is_deterministic() {
    let a = Client::new("k1".to_string(), "secret".to_string(), "h".to_string());
    let b = Client::new("k2".to_string(), "secret".to_string(), "h".to_string());
    let body = "symbol=BTCUSDT&timestamp=1";
    assert_eq!(a.sign_request("/e", body), b.sign_request("/e", body));
    assert_ne!(a.sign_request("/e", body), a.sign_request("/e", "symbol=BTCUSDT&timestamp=2"));
}

#[test]
fn unsigned_url_omits_empty_query() {
    let client = Client::new("k".to_string(), "s".to_string(), "https://api.test".to_string());
    assert_eq!(client.unsigned_url("/api/v3/ticker/price", ""), "https://api.test/api/v3/ticker/price");
    assert_eq!(
        client.unsigned_url("/api/v3/ticker/price", "symbols=x"),
        "https://api.test/api/v3/ticker/price?symbols=x"
    );
}

#[test]
fn headers_carry_key_and_content_type() {
    let client = Client::new("abc".to_string(), "s".to_string(), "h".to_string());
    let with = client.build_headers(true);
    assert_eq!(
        with,
        vec![
            ("user-agent".to_string(), "ott".to_string()),
            ("content-type".to_string(), "application/x-www-form-urlencoded".to_string()),
            ("x-mbx-apikey".to_string(), "abc".to_string()),
        ]
    );
    let without = client.build_headers(false);
    assert_eq!(without.len(), 2);
    assert_eq!(without[1], ("x-mbx-apikey".to_string(), "abc".to_string()));
}

#[test]
fn millis_from_seconds_and_nanos() {
    assert_eq!(ex_gate::millis_from(1, 999_999_999), Some(1999));
    assert_eq!(ex_gate::millis_from(0, 1_500_000), Some(1));
    assert_eq!(ex_gate::millis_from(1_499_827_319, 559_000_000), Some(1_499_827_319_559));
    assert_eq!(ex_gate::millis_from(u64::MAX, 0), None);
    assert_eq!(ex_gate::millis_from(u64::MAX / 1000, 999_999_999), None);
}
