use binance_hft_bot::backtest::{day_index, detect_timestamp_unit, tally_exit_reasons};
use binance_hft_bot::dashboard::{level_kind, reason_cell, short_time, status_kind, LevelKind, StatusKind};
use binance_hft_bot::strategy::{
    arm_stops, entry_signal, exit_label, exit_rule, side_text, EntrySide, ExitRule, RiskChecks, SignalChecks, StopArming,
};

#[test]
fn timestamp_units() {
    assert_eq!(detect_timestamp_unit(&[1700000000000, 1]), 1000);
    assert_eq!(detect_timestamp_unit(&[1700000000, 1700000900]), 1);
    assert_eq!(detect_timestamp_unit(&[1_000_000_000_000]), 1);
    assert_eq!(detect_timestamp_unit(&[]), 1);
}

#[test]
fn day_indices() {
    assert_eq!(day_index(1700000000000, 1000), 1700000000 / 86400);
    assert_eq!(day_index(86399, 1), 0);
    assert_eq!(day_index(86400, 1), 1);
    assert_eq!(day_index(-1, 1), 0);
    assert_eq!(day_index(-86400, 1), -1);
    assert_eq!(day_index(-86_400_001, 1000), (-86_400_001i64 / 1000) / 86400);
}

#[test]
fn exit_reason_tally() {
    let reasons = vec![
        "HARD_STOP at ROE -10.00%".to_string(),
        "TRAILING_STOP: peak ROE 31.00%, exited at ~26.00%".to_string(),
        "END_OF_DATA".to_string(),
        "HARD_STOP at ROE -10.00%".to_string(),
        "END_OF_DATA ".to_string(),
    ];
    let t = tally_exit_reasons(&reasons);
    assert_eq!((t.hard_stops, t.trailing_stops, t.end_of_data), (2, 1, 1));
}

#[test]
fn dashboard_cells() {
    assert_eq!(status_kind("OPEN"), StatusKind::Open);
    assert_eq!(status_kind("CLOSED"), StatusKind::Closed);
    assert_eq!(status_kind("open"), StatusKind::Other);
    assert_eq!(level_kind("ERROR"), LevelKind::Error);
    assert_eq!(level_kind("WARN"), LevelKind::Warn);
    assert_eq!(level_kind("INFO"), LevelKind::Info);
    assert_eq!(level_kind("DEBUG"), LevelKind::Other);
    assert_eq!(reason_cell(None), "—");
    assert_eq!(reason_cell(Some("short")), "short");
    assert_eq!(
        reason_cell(Some("TRAILING_STOP(ATR): BUY | ROE=25.00%")),
        "TRAILING_STOP(ATR): BUY |"
    );
    assert_eq!(short_time("2024-05-01 12:34:56"), "05-01 12:34");
    assert_eq!(short_time("12:34"), "12:34");
}

#[test]
fn entry_decisions() {
    let base = SignalChecks {
        has_open_position: false,
        indicators_ready: true,
        price_positive: true,
        uptrend_oversold: true,
        downtrend_overbought: false,
    };
    assert_eq!(entry_signal(&base), Some(EntrySide::Buy));
    assert_eq!(entry_signal(&SignalChecks { has_open_position: true, ..base }), None);
    assert_eq!(entry_signal(&SignalChecks { indicators_ready: false, ..base }), None);
    assert_eq!(
        entry_signal(&SignalChecks { uptrend_oversold: false, downtrend_overbought: true, ..base }),
        Some(EntrySide::Sell)
    );
    assert_eq!(entry_signal(&SignalChecks { uptrend_oversold: false, ..base }), None);
    assert_eq!(side_text(EntrySide::Buy), "BUY");
    assert_eq!(side_text(EntrySide::Sell), "SELL");
}

#[test]
fn exit_decisions() {
    let quiet = RiskChecks {
        break_even_active: false,
        at_break_even_target: true,
        has_atr: true,
        atr_stop_hit: false,
        at_hard_stop_roe: true,
        trailing_active: false,
        atr_trail_hit: true,
        trail_drawdown_hit: true,
    };
    assert_eq!(exit_rule(&quiet), None);
    assert_eq!(exit_rule(&RiskChecks { break_even_active: true, ..quiet }), Some(ExitRule::BreakEven));
    assert_eq!(exit_rule(&RiskChecks { atr_stop_hit: true, ..quiet }), Some(ExitRule::HardStopAtr));
    assert_eq!(exit_rule(&RiskChecks { has_atr: false, ..quiet }), Some(ExitRule::HardStopRoe));
    assert_eq!(exit_rule(&RiskChecks { trailing_active: true, ..quiet }), Some(ExitRule::TrailingStopAtr));
    assert_eq!(
        exit_rule(&RiskChecks { trailing_active: true, has_atr: false, at_hard_stop_roe: false, ..quiet }),
        Some(ExitRule::TrailingStopRoe)
    );
    assert_eq!(exit_label(ExitRule::HardStopAtr), "HARD_STOP(ATR)");
    assert_eq!(exit_label(ExitRule::BreakEven), "BREAK_EVEN_STOP");
}

#[test]
fn stop_arming_is_sticky() {
    let s = arm_stops(StopArming { break_even_active: false, trailing_active: false }, true, false);
    assert!(s.break_even_active && !s.trailing_active);
    let s = arm_stops(s, false, true);
    assert!(s.break_even_active && s.trailing_active);
    let s = arm_stops(s, false, false);
    assert!(s.break_even_active && s.trailing_active);
}

#[test]
fn hard_stop_wins_over_trailing() {
    let c = RiskChecks {
        break_even_active: false,
        at_break_even_target: false,
        has_atr: false,
        atr_stop_hit: false,
        at_hard_stop_roe: true,
        trailing_active: true,
        atr_trail_hit: false,
        trail_drawdown_hit: true,
    };
    assert_eq!(exit_rule(&c), Some(ExitRule::HardStopRoe));
    let c = RiskChecks { has_atr: true, atr_stop_hit: true, atr_trail_hit: true, ..c };
    assert_eq!(exit_rule(&c), Some(ExitRule::HardStopAtr));
}

#[test]
fn days_never_run_backward() {
    let stamps = [-172_800_000i64, -86_400_001, -1, 0, 1, 86_399_999, 86_400_000, 1_700_000_000_000];
    let days: Vec<i64> = stamps.iter().map(|&t| day_index(t, 1000)).collect();
    assert!(days.windows(2).all(|w| w[0] <= w[1]));
    assert_eq!(days, vec![-2, -1, 0, 0, 0, 0, 1, 19675]);
}
