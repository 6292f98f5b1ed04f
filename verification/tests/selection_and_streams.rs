use binance_hft_bot::exchange::{
    batches, filter_texts, is_tradable, kline_stream_names, select_top_symbols, stream_names_for, SUBSCRIBE_BATCH,
};
use binance_hft_bot::models::{ExchangeInfo, FilterEntry, KlineData, SymbolInfo};
use binance_hft_bot::routing::{close_side, route_kline, KlineRoute};
use binance_hft_bot::window::push_bounded;
use std::collections::VecDeque;

fn info(symbol: &str, contract: &str, status: &str, quote: &str) -> SymbolInfo {
    SymbolInfo {
        symbol: symbol.to_string(),
        contract_type: contract.to_string(),
        status: status.to_string(),
        quote_asset: quote.to_string(),
        filters: Vec::new(),
    }
}

fn filter(t: Option<&str>, step: Option<&str>, tick: Option<&str>) -> FilterEntry {
    FilterEntry {
        filter_type: t.map(|s| s.to_string()),
        step_size: step.map(|s| s.to_string()),
        tick_size: tick.map(|s| s.to_string()),
    }
}

#[test]
fn selects_tradable_altcoins_in_order() {
    let ex = ExchangeInfo {
        symbols: vec![
            info("BTCUSDT", "PERPETUAL", "TRADING", "USDT"),
            info("SOLUSDT", "PERPETUAL", "TRADING", "USDT"),
            info("ETHUSDT", "PERPETUAL", "TRADING", "USDT"),
            info("ADAUSDT", "CURRENT_QUARTER", "TRADING", "USDT"),
            info("XRPUSDT", "PERPETUAL", "SETTLING", "USDT"),
            info("DOGEUSDC", "PERPETUAL", "TRADING", "USDC"),
            info("LINKUSDT", "PERPETUAL", "TRADING", "USDT"),
            info("DOTUSDT", "PERPETUAL", "TRADING", "USDT"),
        ],
    };
    assert_eq!(select_top_symbols(&ex, 100), vec!["SOLUSDT", "LINKUSDT", "DOTUSDT"]);
    assert_eq!(select_top_symbols(&ex, 2), vec!["SOLUSDT", "LINKUSDT"]);
    assert_eq!(select_top_symbols(&ex, 0), Vec::<String>::new());
}

#[test]
fn filter_texts_take_the_last_of_each_kind() {
    let fs = vec![
        filter(Some("PRICE_FILTER"), None, Some("0.0100")),
        filter(Some("LOT_SIZE"), Some("0.001"), None),
        filter(Some("MARKET_LOT_SIZE"), Some("1"), None),
        filter(Some("LOT_SIZE"), None, None),
        filter(None, Some("5"), Some("5")),
        filter(Some("LOT_SIZE"), Some("0.1"), None),
    ];
    let t = filter_texts(&fs);
    assert_eq!(t.step_size.as_deref(), Some("0.1"));
    assert_eq!(t.tick_size.as_deref(), Some("0.0100"));
    let none = filter_texts(&vec![filter(Some("MIN_NOTIONAL"), None, None)]);
    assert_eq!(none.step_size, None);
    assert_eq!(none.tick_size, None);
}

#[test]
fn stream_names_are_lowercase_pairs() {
    let names = kline_stream_names(&vec!["SOLUSDT".to_string(), "1000PEPEUSDT".to_string()]);
    assert_eq!(names, vec!["solusdt@kline_15m", "solusdt@kline_1d", "1000pepeusdt@kline_15m", "1000pepeusdt@kline_1d"]);
}

#[test]
fn batches_cut_like_chunks() {
    let items: Vec<String> = (0..450).map(|i| format!("s{}", i)).collect();
    let b = batches(&items, SUBSCRIBE_BATCH);
    let expected: Vec<Vec<String>> = items.chunks(200).map(|c| c.to_vec()).collect();
    assert_eq!(b, expected);
    assert_eq!(b.iter().map(|x| x.len()).collect::<Vec<_>>(), vec![200, 200, 50]);
    assert_eq!(batches(&items[..400].to_vec(), 200).len(), 2);
    assert_eq!(batches(&Vec::new(), 200).len(), 0);
}

#[test]
fn window_keeps_last_values() {
    let mut w: VecDeque<u64> = VecDeque::new();
    for x in 1..=5 {
        push_bounded(&mut w, x, 3);
    }
    assert_eq!(w, VecDeque::from(vec![3, 4, 5]));
    push_bounded(&mut w, 6, 3);
    assert_eq!(w, VecDeque::from(vec![4, 5, 6]));
}

fn kline(interval: &str, closed: bool) -> KlineData {
    KlineData {
        open_time: 0,
        close_time: 1,
        interval: interval.to_string(),
        open: "1".into(),
        close: "1".into(),
        high: "1".into(),
        low: "1".into(),
        volume: "1".into(),
        quote_volume: "1".into(),
        is_closed: closed,
    }
}

#[test]
fn kline_routes() {
    assert_eq!(route_kline(&kline("1d", true)), KlineRoute::Daily { rotate_high: true });
    assert_eq!(route_kline(&kline("1d", false)), KlineRoute::Daily { rotate_high: false });
    assert_eq!(route_kline(&kline("15m", true)), KlineRoute::FifteenMinute { candle_closed: true });
    assert_eq!(route_kline(&kline("1h", true)), KlineRoute::Ignored);
}

#[test]
fn closing_sides() {
    assert_eq!(close_side("BUY"), "SELL");
    assert_eq!(close_side("SELL"), "BUY");
    assert_eq!(close_side(close_side("BUY")), "BUY");
    assert_eq!(close_side("buy"), "BUY");
}

#[test]
fn stream_names_for_lowercase_symbols() {
    let names = stream_names_for(&vec!["adausdt".to_string()]);
    assert_eq!(names, vec!["adausdt@kline_15m", "adausdt@kline_1d"]);
    assert!(stream_names_for(&Vec::new()).is_empty());
}

#[test]
fn tradable_check() {
    assert!(is_tradable(&info("SOLUSDT", "PERPETUAL", "TRADING", "USDT")));
    assert!(!is_tradable(&info("ETHUSDT", "PERPETUAL", "TRADING", "USDT")));
    assert!(!is_tradable(&info("SOLUSDT", "PERPETUAL", "BREAK", "USDT")));
}
