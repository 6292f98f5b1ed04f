use binance_hft_bot::decimal::{format_i64, format_u64, parse_u32, parse_usize};
use binance_hft_bot::recovery::{recovered_leverage, stale_open_symbols, usize_setting, LEVERAGE};
use binance_hft_bot::text::{starts_with, str_eq};

#[test]
fn format_u64_writes_decimal() {
    assert_eq!(format_u64(0), "0");
    assert_eq!(format_u64(7), "7");
    assert_eq!(format_u64(10), "10");
    assert_eq!(format_u64(1234567890), "1234567890");
    assert_eq!(format_u64(u64::MAX), u64::MAX.to_string());
}

#[test]
fn format_i64_writes_sign() {
    assert_eq!(format_i64(-42), "-42");
    assert_eq!(format_i64(0), "0");
    assert_eq!(format_i64(1700000000123), "1700000000123");
    assert_eq!(format_i64(i64::MIN), i64::MIN.to_string());
    assert_eq!(format_i64(i64::MAX), i64::MAX.to_string());
}

#[test]
fn parse_u32_follows_std() {
    for s in ["0", "12", "+12", "007", "4294967295", "4294967296", "", "+", "-", "-1", "1a", " 1", "+-1", "99999999999999999999"] {
        assert_eq!(parse_u32(s), s.parse::<u32>().ok(), "input {:?}", s);
    }
}

#[test]
fn parse_usize_follows_std() {
    for s in ["5", "+50", "18446744073709551615", "18446744073709551616", "x", "", "5.0"] {
        assert_eq!(parse_usize(s), s.parse::<usize>().ok(), "input {:?}", s);
    }
}

#[test]
fn parse_reads_back_formatted_numbers() {
    for n in [0u32, 1, 9, 10, 99, 100, 65535, u32::MAX] {
        assert_eq!(parse_u32(&format_u64(n as u64)), Some(n));
    }
}

#[test]
fn string_comparisons() {
    assert!(str_eq("USDT", "USDT"));
    assert!(!str_eq("USDT", "USDC"));
    assert!(!str_eq("USD", "USDT"));
    assert!(starts_with("HARD_STOP at ROE -10.00%", "HARD_STOP"));
    assert!(!starts_with("HARD", "HARD_STOP"));
    assert!(starts_with("anything", ""));
}

#[test]
fn integer_settings_fall_back_to_default() {
    assert_eq!(usize_setting(Some("8"), 5), 8);
    assert_eq!(usize_setting(Some("eight"), 5), 5);
    assert_eq!(usize_setting(Some(""), 50), 50);
    assert_eq!(usize_setting(None, 50), 50);
    assert_eq!(usize_setting(Some("+200"), 50), 200);
}

#[test]
fn recovered_leverage_parses_or_defaults() {
    assert_eq!(recovered_leverage("20", LEVERAGE), 20);
    assert_eq!(recovered_leverage("20.0", LEVERAGE), 10);
    assert_eq!(recovered_leverage("", LEVERAGE), 10);
}

#[test]
fn stale_symbols_are_those_not_live() {
    let recorded = vec!["ADAUSDT".to_string(), "SOLUSDT".to_string(), "XRPUSDT".to_string()];
    let live = vec!["SOLUSDT".to_string()];
    assert_eq!(stale_open_symbols(&recorded, &live), vec!["ADAUSDT".to_string(), "XRPUSDT".to_string()]);
    assert_eq!(stale_open_symbols(&recorded, &recorded), Vec::<String>::new());
    assert_eq!(stale_open_symbols(&Vec::new(), &live), Vec::<String>::new());
}
