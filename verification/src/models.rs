//! Exchange messages as the bot reads them: exchange information, candle and
//! mark-price stream events, order results and position risks. Numbers that
//! the exchange sends as text stay text here.

use vstd::prelude::*;

verus! {

/// Number of 15-minute candles in 7 days (96 per day × 7).
pub const CANDLES_15M_7_DAYS: usize = 672;

/// One entry of a symbol's `filters` list, reduced to the fields the bot
/// reads: `filterType`, `stepSize` and `tickSize`, each when present as text.
pub struct FilterEntry {
    pub filter_type: Option<String>,
    pub step_size: Option<String>,
    pub tick_size: Option<String>,
}

/// One symbol of the exchange information.
pub struct SymbolInfo {
    pub symbol: String,
    pub contract_type: String,
    pub status: String,
    pub quote_asset: String,
    pub filters: Vec<FilterEntry>,
}

/// The exchange information: every listed symbol.
pub struct ExchangeInfo {
    pub symbols: Vec<SymbolInfo>,
}

/// The candle of a kline stream event.
pub struct KlineData {
    pub open_time: i64,
    pub close_time: i64,
    pub interval: String,
    pub open: String,
    pub close: String,
    pub high: String,
    pub low: String,
    pub volume: String,
    pub quote_volume: String,
    pub is_closed: bool,
}

/// A kline stream event: the symbol and its current candle.
pub struct WsKline {
    pub symbol: String,
    pub kline: KlineData,
}

/// One element of the `!markPrice@arr@1s` stream.
pub struct WsMarkPrice {
    pub symbol: String,
    pub mark_price: String,
    pub index_price: String,
    pub event_time: i64,
}

/// The exchange's answer to a placed order.
pub struct OrderResponse {
    pub order_id: i64,
    pub symbol: String,
    pub status: String,
    pub avg_price: String,
    pub executed_qty: String,
    pub side: String,
}

/// One position as `GET /fapi/v2/positionRisk` reports it.
pub struct BinancePositionRisk {
    pub symbol: String,
    pub position_amt: String,
    pub entry_price: String,
    pub unrealized_profit: String,
    pub leverage: String,
    pub mark_price: String,
}

} // verus!
