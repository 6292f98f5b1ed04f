use binance_hft_bot::requests::{
    exchange_info_url, klines_url, leverage_query, leverage_url, leverage_url_at, order_query,
    order_url_at, position_risk_query, position_risk_url, position_risk_url_at, signed_url, Credentials,
};
use binance_hft_bot::signing::{sign, signature_text};

fn creds() -> Credentials {
    Credentials {
        api_key: "key".to_string(),
        api_secret: "NhqPtmdSJYdKjVHjA7PZj4Mge3R5YNiP1e3UZjInClVN65XAbvqqM6A7H5fATj0j".to_string(),
    }
}

#[test]
fn sign_matches_hmac_sha256_vector() {
    assert_eq!(
        sign("my secret and secure key", "input message"),
        "97d2a569059bbcd8ead4444ff99071f4c01d005bcefe0d3567e1be628e5fdcd9"
    );
}

#[test]
fn sign_matches_exchange_documentation_example() {
    let q = "symbol=LTCBTC&side=BUY&type=LIMIT&timeInForce=GTC&quantity=1&price=0.1&recvWindow=5000&timestamp=1499827319559";
    assert_eq!(
        sign(&creds().api_secret, q),
        "c8db56825ae71d6d79447849e617115f4a920fa2acdcab2b053c4b2838bd6b71"
    );
}

#[test]
fn signature_is_64_lowercase_hex() {
    let s = sign("", "");
    assert_eq!(s.len(), 64);
    assert!(s.chars().all(|c| c.is_ascii_hexdigit() && !c.is_ascii_uppercase()));
}

#[test]
fn public_urls() {
    assert_eq!(exchange_info_url("https://fapi.binance.com"), "https://fapi.binance.com/fapi/v1/exchangeInfo");
    assert_eq!(
        klines_url("https://fapi.binance.com", "SOLUSDT", "15m", 672),
        "https://fapi.binance.com/fapi/v1/klines?symbol=SOLUSDT&interval=15m&limit=672"
    );
}

#[test]
fn queries() {
    assert_eq!(
        leverage_query("SOLUSDT", 10, 1700000000000),
        "symbol=SOLUSDT&leverage=10&timestamp=1700000000000&recvWindow=5000"
    );
    assert_eq!(
        order_query("SOLUSDT", "BUY", "0.420", 1700000000001),
        "symbol=SOLUSDT&side=BUY&type=MARKET&quantity=0.420&newOrderRespType=RESULT&timestamp=1700000000001&recvWindow=5000"
    );
    assert_eq!(position_risk_query(5), "timestamp=5&recvWindow=5000");
}

#[test]
fn signed_urls_carry_query_and_signature() {
    let c = creds();
    let q = leverage_query("SOLUSDT", 10, 42);
    let expected = format!("https://x/fapi/v1/leverage?{}&signature={}", q, sign(&c.api_secret, &q));
    assert_eq!(leverage_url_at(&c, "https://x", "SOLUSDT", 10, 42), expected);
    assert_eq!(signed_url("https://x", "/fapi/v1/leverage", &q, &c.api_secret), expected);

    let oq = order_query("SOLUSDT", "SELL", "1", 43);
    assert_eq!(
        order_url_at(&c, "https://x", "SOLUSDT", "SELL", "1", 43),
        format!("https://x/fapi/v1/order?{}&signature={}", oq, sign(&c.api_secret, &oq))
    );
    let pq = position_risk_query(44);
    assert_eq!(
        position_risk_url_at(&c, "https://x", 44),
        format!("https://x/fapi/v2/positionRisk?{}&signature={}", pq, sign(&c.api_secret, &pq))
    );
}

#[test]
fn current_time_urls_are_signed() {
    let c = creds();
    let u = leverage_url(&c, "https://x", "ADAUSDT", 10);
    assert!(u.starts_with("https://x/fapi/v1/leverage?symbol=ADAUSDT&leverage=10&timestamp="));
    let (query, sig) = u["https://x/fapi/v1/leverage?".len()..].split_once("&signature=").unwrap();
    assert_eq!(sig, sign(&c.api_secret, query));
    let p = position_risk_url(&c, "https://x");
    assert!(p.starts_with("https://x/fapi/v2/positionRisk?timestamp="));
}

#[test]
fn signature_text_is_lowercase_hex() {
    assert_eq!(signature_text(&[0x00, 0x0f, 0xa5, 0xff]), "000fa5ff");
    assert_eq!(signature_text(&[]), "");
}
