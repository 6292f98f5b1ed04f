//! The exact text of the REST requests the bot sends: public URLs and
//! signed queries for leverage changes, market orders and position reads.

use crate::decimal::{decimal, decimal_signed, push_decimal, push_decimal_signed};
use crate::signing::{hex_lower, hmac_sha256_tag, sign, signature_of, timestamp_ms};
use vstd::utf8::encode_utf8;
use vstd::prelude::*;

verus! {

/// API credentials for the authenticated endpoints.
pub struct Credentials {
    pub api_key: String,
    pub api_secret: String,
}

/// `{base}/fapi/v1/exchangeInfo`
pub open spec fn exchange_info_url_text(base: Seq<char>) -> Seq<char> {
    base + "/fapi/v1/exchangeInfo"@
}

/// `{base}/fapi/v1/klines?symbol={symbol}&interval={interval}&limit={limit}`
pub open spec fn klines_url_text(
    base: Seq<char>,
    symbol: Seq<char>,
    interval: Seq<char>,
    limit: u16,
) -> Seq<char> {
    base + "/fapi/v1/klines?symbol="@ + symbol + "&interval="@ + interval + "&limit="@ + decimal(
        limit as nat,
    )
}

/// `symbol={symbol}&leverage={leverage}&timestamp={ts}&recvWindow=5000`
pub open spec fn leverage_query_text(symbol: Seq<char>, leverage: u32, ts: i64) -> Seq<char> {
    "symbol="@ + symbol + "&leverage="@ + decimal(leverage as nat) + "&timestamp="@
        + decimal_signed(ts as int) + "&recvWindow=5000"@
}

/// `symbol={symbol}&side={side}&type=MARKET&quantity={qty}&newOrderRespType=RESULT&timestamp={ts}&recvWindow=5000`
pub open spec fn order_query_text(
    symbol: Seq<char>,
    side: Seq<char>,
    quantity: Seq<char>,
    ts: i64,
) -> Seq<char> {
    "symbol="@ + symbol + "&side="@ + side + "&type=MARKET&quantity="@ + quantity
        + "&newOrderRespType=RESULT&timestamp="@ + decimal_signed(ts as int)
        + "&recvWindow=5000"@
}

/// `timestamp={ts}&recvWindow=5000`
pub open spec fn position_risk_query_text(ts: i64) -> Seq<char> {
    "timestamp="@ + decimal_signed(ts as int) + "&recvWindow=5000"@
}

/// `{base}{path}?{query}&signature={signature}`, the signature taken over the query.
pub open spec fn signed_url_text(
    base: Seq<char>,
    path: Seq<char>,
    query: Seq<char>,
    secret: Seq<char>,
) -> Seq<char> {
    base + path + "?"@ + query + "&signature="@ + signature_of(secret, query)
}

/// The exchange-information URL.
pub fn exchange_info_url(base: &str) -> (url: String)
    ensures
        url@ == exchange_info_url_text(base@),
        url@ == base@ + "/fapi/v1/exchangeInfo"@,
{
    let mut u = base.to_owned();
    u.append("/fapi/v1/exchangeInfo");
    u
}

/// The URL of the most recent `limit` candles of `symbol` at `interval`.
pub fn klines_url(base: &str, symbol: &str, interval: &str, limit: u16) -> (url: String)
    ensures
        url@ == klines_url_text(base@, symbol@, interval@, limit),
        url@ == base@ + "/fapi/v1/klines?symbol="@ + symbol@ + "&interval="@ + interval@
            + "&limit="@ + decimal(limit as nat),
{
    let mut u = base.to_owned();
    u.append("/fapi/v1/klines?symbol=");
    u.append(symbol);
    u.append("&interval=");
    u.append(interval);
    u.append("&limit=");
    push_decimal(&mut u, limit as u64);
    u
}

/// The query that sets `symbol`'s leverage, stamped with `ts`.
pub fn leverage_query(symbol: &str, leverage: u32, ts: i64) -> (q: String)
    ensures
        q@ == leverage_query_text(symbol@, leverage, ts),
        q@ == "symbol="@ + symbol@ + "&leverage="@ + decimal(leverage as nat) + "&timestamp="@
            + decimal_signed(ts as int) + "&recvWindow=5000"@,
{
    let mut q = String::new();
    q.append("symbol=");
    q.append(symbol);
    q.append("&leverage=");
    push_decimal(&mut q, leverage as u64);
    q.append("&timestamp=");
    push_decimal_signed(&mut q, ts);
    q.append("&recvWindow=5000");
    assert(q@ =~= leverage_query_text(symbol@, leverage, ts));
    q
}

/// The query of a MARKET order of `quantity` (already written out at the
/// symbol's precision) on `side`, stamped with `ts`.
pub fn order_query(symbol: &str, side: &str, quantity: &str, ts: i64) -> (q: String)
    ensures
        q@ == order_query_text(symbol@, side@, quantity@, ts),
        q@ == "symbol="@ + symbol@ + "&side="@ + side@ + "&type=MARKET&quantity="@ + quantity@
            + "&newOrderRespType=RESULT&timestamp="@ + decimal_signed(ts as int)
            + "&recvWindow=5000"@,
{
    let mut q = String::new();
    q.append("symbol=");
    q.append(symbol);
    q.append("&side=");
    q.append(side);
    q.append("&type=MARKET&quantity=");
    q.append(quantity);
    q.append("&newOrderRespType=RESULT&timestamp=");
    push_decimal_signed(&mut q, ts);
    q.append("&recvWindow=5000");
    assert(q@ =~= order_query_text(symbol@, side@, quantity@, ts));
    q
}

/// The query that reads all position risks, stamped with `ts`.
pub fn position_risk_query(ts: i64) -> (q: String)
    ensures
        q@ == position_risk_query_text(ts),
        q@ == "timestamp="@ + decimal_signed(ts as int) + "&recvWindow=5000"@,
{
    let mut q = String::new();
    q.append("timestamp=");
    push_decimal_signed(&mut q, ts);
    q.append("&recvWindow=5000");
    assert(q@ =~= position_risk_query_text(ts));
    q
}

/// `{base}{path}?{query}&signature=...` with the query signed by `secret`.
pub fn signed_url(base: &str, path: &str, query: &str, secret: &str) -> (url: String)
    ensures
        url@ == signed_url_text(base@, path@, query@, secret@),
        url@ == base@ + path@ + "?"@ + query@ + "&signature="@ + hex_lower(
            hmac_sha256_tag(encode_utf8(secret@), encode_utf8(query@)),
        ),
{
    let sig = sign(secret, query);
    let mut u = base.to_owned();
    u.append(path);
    u.append("?");
    u.append(query);
    u.append("&signature=");
    u.append(sig.as_str());
    assert(u@ =~= signed_url_text(base@, path@, query@, secret@));
    u
}

/// The signed leverage-change URL for a given timestamp.
pub fn leverage_url_at(creds: &Credentials, base: &str, symbol: &str, leverage: u32, ts: i64) -> (url:
    String)
    ensures
        url@ == signed_url_text(
            base@,
            "/fapi/v1/leverage"@,
            leverage_query_text(symbol@, leverage, ts),
            creds.api_secret@,
        ),
        url@ == base@ + "/fapi/v1/leverage"@ + "?"@ + ("symbol="@ + symbol@ + "&leverage="@ + decimal(leverage as nat) + "&timestamp="@
                + decimal_signed(ts as int) + "&recvWindow=5000"@) + "&signature="@
            + hex_lower(hmac_sha256_tag(encode_utf8(creds.api_secret@), encode_utf8(("symbol="@ + symbol@ + "&leverage="@ + decimal(leverage as nat) + "&timestamp="@
                + decimal_signed(ts as int) + "&recvWindow=5000"@)))),
{
    let q = leverage_query(symbol, leverage, ts);
    signed_url(base, "/fapi/v1/leverage", q.as_str(), creds.api_secret.as_str())
}

/// The signed market-order URL for a given timestamp.
pub fn order_url_at(
    creds: &Credentials,
    base: &str,
    symbol: &str,
    side: &str,
    quantity: &str,
    ts: i64,
) -> (url: String)
    ensures
        url@ == signed_url_text(
            base@,
            "/fapi/v1/order"@,
            order_query_text(symbol@, side@, quantity@, ts),
            creds.api_secret@,
        ),
        url@ == base@ + "/fapi/v1/order"@ + "?"@ + ("symbol="@ + symbol@ + "&side="@ + side@ + "&type=MARKET&quantity="@ + quantity@
                + "&newOrderRespType=RESULT&timestamp="@ + decimal_signed(ts as int)
                + "&recvWindow=5000"@) + "&signature="@
            + hex_lower(hmac_sha256_tag(encode_utf8(creds.api_secret@), encode_utf8(("symbol="@ + symbol@ + "&side="@ + side@ + "&type=MARKET&quantity="@ + quantity@
                + "&newOrderRespType=RESULT&timestamp="@ + decimal_signed(ts as int)
                + "&recvWindow=5000"@)))),
{
    let q = order_query(symbol, side, quantity, ts);
    signed_url(base, "/fapi/v1/order", q.as_str(), creds.api_secret.as_str())
}

/// The signed position-risk URL for a given timestamp.
pub fn position_risk_url_at(creds: &Credentials, base: &str, ts: i64) -> (url: String)
    ensures
        url@ == signed_url_text(
            base@,
            "/fapi/v2/positionRisk"@,
            position_risk_query_text(ts),
            creds.api_secret@,
        ),
        url@ == base@ + "/fapi/v2/positionRisk"@ + "?"@ + ("timestamp="@ + decimal_signed(ts as int) + "&recvWindow=5000"@) + "&signature="@
            + hex_lower(hmac_sha256_tag(encode_utf8(creds.api_secret@), encode_utf8(("timestamp="@ + decimal_signed(ts as int) + "&recvWindow=5000"@)))),
{
    let q = position_risk_query(ts);
    signed_url(base, "/fapi/v2/positionRisk", q.as_str(), creds.api_secret.as_str())
}

/// The signed leverage-change URL, stamped with the current time.
pub fn leverage_url(creds: &Credentials, base: &str, symbol: &str, leverage: u32) -> (url: String)
    ensures
        exists|ts: i64|
            url@ == signed_url_text(
                base@,
                "/fapi/v1/leverage"@,
                #[trigger] leverage_query_text(symbol@, leverage, ts),
                creds.api_secret@,
            ),
        exists|ts: i64|
            url@ == base@ + "/fapi/v1/leverage"@ + "?"@ + ("symbol="@ + symbol@ + "&leverage="@ + decimal(leverage as nat) + "&timestamp="@
                + #[trigger] decimal_signed(ts as int) + "&recvWindow=5000"@) + "&signature="@
                + hex_lower(hmac_sha256_tag(encode_utf8(creds.api_secret@), encode_utf8(("symbol="@ + symbol@ + "&leverage="@ + decimal(leverage as nat) + "&timestamp="@
                + #[trigger] decimal_signed(ts as int) + "&recvWindow=5000"@)))),
{
    let ts = timestamp_ms();
    leverage_url_at(creds, base, symbol, leverage, ts)
}

/// The signed market-order URL, stamped with the current time.
pub fn order_url(creds: &Credentials, base: &str, symbol: &str, side: &str, quantity: &str) -> (url:
    String)
    ensures
        exists|ts: i64|
            url@ == signed_url_text(
                base@,
                "/fapi/v1/order"@,
                #[trigger] order_query_text(symbol@, side@, quantity@, ts),
                creds.api_secret@,
            ),
        exists|ts: i64|
            url@ == base@ + "/fapi/v1/order"@ + "?"@ + ("symbol="@ + symbol@ + "&side="@ + side@ + "&type=MARKET&quantity="@ + quantity@
                + "&newOrderRespType=RESULT&timestamp="@ + #[trigger] decimal_signed(ts as int)
                + "&recvWindow=5000"@) + "&signature="@
                + hex_lower(hmac_sha256_tag(encode_utf8(creds.api_secret@), encode_utf8(("symbol="@ + symbol@ + "&side="@ + side@ + "&type=MARKET&quantity="@ + quantity@
                + "&newOrderRespType=RESULT&timestamp="@ + #[trigger] decimal_signed(ts as int)
                + "&recvWindow=5000"@)))),
{
    let ts = timestamp_ms();
    order_url_at(creds, base, symbol, side, quantity, ts)
}

/// The signed position-risk URL, stamped with the current time.
pub fn position_risk_url(creds: &Credentials, base: &str) -> (url: String)
    ensures
        exists|ts: i64|
            url@ == signed_url_text(
                base@,
                "/fapi/v2/positionRisk"@,
                #[trigger] position_risk_query_text(ts),
                creds.api_secret@,
            ),
        exists|ts: i64|
            url@ == base@ + "/fapi/v2/positionRisk"@ + "?"@ + ("timestamp="@ + #[trigger] decimal_signed(ts as int) + "&recvWindow=5000"@) + "&signature="@
                + hex_lower(hmac_sha256_tag(encode_utf8(creds.api_secret@), encode_utf8(("timestamp="@ + #[trigger] decimal_signed(ts as int) + "&recvWindow=5000"@)))),
{
    let ts = timestamp_ms();
    position_risk_url_at(creds, base, ts)
}

} // verus!
