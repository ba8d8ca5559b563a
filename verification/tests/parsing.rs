use trade_alerts::data::XylexApi;
use trade_alerts::errors::XylexApiError;
use trade_alerts::price::{format_price, parse_price};
use trade_alerts::utils::format::generate_hash;

#[test]
fn parse_price_whole_and_fraction() {
    assert_eq!(parse_price("1.1"), Some(110000));
    assert_eq!(parse_price("100.0009"), Some(10000090));
    assert_eq!(parse_price("0"), Some(0));
    assert_eq!(parse_price("42"), Some(4200000));
    assert_eq!(parse_price("1.12345"), Some(112345));
    assert_eq!(parse_price("1."), Some(100000));
    assert_eq!(parse_price("007"), Some(700000));
}

#[test]
fn parse_price_negative_values() {
    assert_eq!(parse_price("-2.5"), Some(-250000));
    assert_eq!(parse_price("-0"), Some(0));
    assert_eq!(parse_price("-92233720368547.75808"), Some(i64::MIN));
}

#[test]
fn parse_price_range_edges() {
    assert_eq!(parse_price("92233720368547.75807"), Some(i64::MAX));
    assert_eq!(parse_price("92233720368547.75808"), None);
    assert_eq!(parse_price("92233720368548"), None);
    assert_eq!(parse_price("-92233720368547.75809"), None);
    assert_eq!(parse_price("99999999999999999999"), None);
}

#[test]
fn parse_price_rejects_malformed_text() {
    assert_eq!(parse_price(""), None);
    assert_eq!(parse_price("-"), None);
    assert_eq!(parse_price("."), None);
    assert_eq!(parse_price(".5"), None);
    assert_eq!(parse_price("1.123456"), None);
    assert_eq!(parse_price("1.1.2"), None);
    assert_eq!(parse_price("12a"), None);
    assert_eq!(parse_price("a12"), None);
    assert_eq!(parse_price("1,5"), None);
    assert_eq!(parse_price(" 1"), None);
}

#[test]
fn format_price_writes_canonical_text() {
    assert_eq!(format_price(110000), "1.10000");
    assert_eq!(format_price(0), "0.00000");
    assert_eq!(format_price(-250000), "-2.50000");
    assert_eq!(format_price(10000090), "100.00090");
    assert_eq!(format_price(i64::MAX), "92233720368547.75807");
    assert_eq!(format_price(i64::MIN), "-92233720368547.75808");
}

#[test]
fn format_then_parse_returns_the_price() {
    for p in [0, 1, -1, 110000, -250000, 10000090, i64::MAX, i64::MIN] {
        assert_eq!(parse_price(&format_price(p)), Some(p));
    }
}

#[test]
fn request_url_is_assembled_from_endpoint_symbol_and_key() {
    let api = XylexApi::new(
        "secret".to_string(),
        "https://quotes.example/price".to_string(),
    );
    assert_eq!(
        api.request_url("eur/usd"),
        "https://quotes.example/price?symbol=eur/usd&api_key=secret"
    );
}

#[test]
fn parse_price_response_reads_the_price_member() {
    let api = XylexApi::new("k".to_string(), "e".to_string());
    assert!(matches!(
        api.parse_price_response("{\"price\":\"1.2345\"}"),
        Ok(123450)
    ));
}

#[test]
fn parse_price_response_rejects_bad_bodies() {
    let api = XylexApi::new("k".to_string(), "e".to_string());
    match api.parse_price_response("not json at all") {
        Err(XylexApiError::UnexpectedError(m)) => assert_eq!(m, "Failed to parse JSON"),
        other => panic!("wrong outcome: {:?}", other),
    }
    match api.parse_price_response("{\"quote\":\"1.2\"}") {
        Err(XylexApiError::InvalidSymbol(m)) => {
            assert_eq!(m, "Price field missing or not a string")
        }
        other => panic!("wrong outcome: {:?}", other),
    }
    match api.parse_price_response("{\"price\":1.2}") {
        Err(XylexApiError::InvalidSymbol(m)) => {
            assert_eq!(m, "Price field missing or not a string")
        }
        other => panic!("wrong outcome: {:?}", other),
    }
    match api.parse_price_response("{\"price\":\"fast\"}") {
        Err(XylexApiError::UnexpectedError(m)) => assert_eq!(m, "Failed to parse price"),
        other => panic!("wrong outcome: {:?}", other),
    }
}

#[test]
fn generate_hash_writes_prefix_and_digest() {
    // 100.0 is 10000000 units, written "100.00000"; the digests below are
    // MD5 of the bytes of the user id, the symbol and that text.
    let h = generate_hash("user123", "AAPL", 10000000, "xlx-a-");
    assert_eq!(h, "xlx-a-0ac808ad0a2fbb6af268ce84f7a837c6");
    let h2 = generate_hash("test_id", "test_symbol", 10000000, "xlx-a-");
    assert_eq!(h2, "xlx-a-e6e6aa40800fa1b0f81265bc32793295");
}

#[test]
fn generate_hash_distinguishes_sign_and_inputs() {
    let pos = generate_hash("user123", "AAPL", 250000, "");
    let neg = generate_hash("user123", "AAPL", -250000, "");
    assert_ne!(pos, neg);
    assert_eq!(pos, "ac54fc63748341d63ffcf8adf1845d11");
    assert_eq!(neg, "4d184d82746c2e53efe9f54930091411");
    let other_user = generate_hash("user124", "AAPL", 250000, "");
    assert_ne!(pos, other_user);
}
