//! The decision structure of the trading rules. The price comparisons
//! themselves (EMA, RSI, ROE, ATR distances) are floating point and are made
//! by the caller; here they arrive as facts, and the rules decide in their
//! fixed order whether to enter, on which side, and which stop closes a
//! position.

use vstd::prelude::*;

verus! {

/// The side of an entry order.
#[derive(Debug, Clone, Copy, PartialEq, Eq, Structural)]
pub enum EntrySide {
    Buy,
    Sell,
}

/// The facts an entry decision rests on, for one symbol at one price.
pub struct SignalChecks {
    /// A position is open or an entry order is in flight for the symbol.
    pub has_open_position: bool,
    /// The EMA and the RSI are both above zero (their warm-up is over).
    pub indicators_ready: bool,
    /// The current price is above zero.
    pub price_positive: bool,
    /// Price above the EMA and RSI below the oversold threshold.
    pub uptrend_oversold: bool,
    /// Price below the EMA and RSI above the overbought threshold.
    pub downtrend_overbought: bool,
}

/// The entry the strategy takes: none while a position is open, before the
/// indicators are ready, or without a positive price; else a long on an
/// oversold dip in an uptrend, else a short on an overbought pop in a
/// downtrend.
pub open spec fn entry_of(c: SignalChecks) -> Option<EntrySide> {
    if c.has_open_position || !c.indicators_ready || !c.price_positive {
        None
    } else if c.uptrend_oversold {
        Some(EntrySide::Buy)
    } else if c.downtrend_overbought {
        Some(EntrySide::Sell)
    } else {
        None
    }
}

/// Decides the entry for a symbol.
pub fn entry_signal(c: &SignalChecks) -> (r: Option<EntrySide>)
    ensures
        r == entry_of(*c),
        r == Some(EntrySide::Buy) ==> !c.has_open_position && c.indicators_ready
            && c.price_positive && c.uptrend_oversold,
        r == Some(EntrySide::Sell) ==> !c.has_open_position && c.indicators_ready
            && c.price_positive && c.downtrend_overbought && !c.uptrend_oversold,
        r is Some <==> !c.has_open_position && c.indicators_ready && c.price_positive && (
        c.uptrend_oversold || c.downtrend_overbought),
{
    proof {
        lemma_entry_only_on_setups(*c);
    }
    if c.has_open_position || !c.indicators_ready || !c.price_positive {
        None
    } else if c.uptrend_oversold {
        Some(EntrySide::Buy)
    } else if c.downtrend_overbought {
        Some(EntrySide::Sell)
    } else {
        None
    }
}

/// The order-side text of an entry: `BUY` or `SELL`.
pub fn side_text(side: EntrySide) -> (t: &'static str)
    ensures
        side == EntrySide::Buy ==> t@ == "BUY"@,
        side == EntrySide::Sell ==> t@ == "SELL"@,
{
    match side {
        EntrySide::Buy => "BUY",
        EntrySide::Sell => "SELL",
    }
}

/// No entry is ever signalled for a symbol that already has a position or
/// an order in flight.
pub proof fn lemma_no_entry_with_open_position(c: SignalChecks)
    requires
        c.has_open_position,
    ensures
        entry_of(c) is None,
{
}

/// An entry is taken exactly when no position is open, the indicators are
/// ready, the price is positive and one of the two setups holds; a long
/// needs the uptrend-oversold setup, a short the downtrend-overbought one
/// without the other.
pub proof fn lemma_entry_only_on_setups(c: SignalChecks)
    ensures
        entry_of(c) == Some(EntrySide::Buy) ==> !c.has_open_position && c.indicators_ready
            && c.price_positive && c.uptrend_oversold,
        entry_of(c) == Some(EntrySide::Sell) ==> !c.has_open_position && c.indicators_ready
            && c.price_positive && c.downtrend_overbought && !c.uptrend_oversold,
        entry_of(c) is Some <==> !c.has_open_position && c.indicators_ready && c.price_positive
            && (c.uptrend_oversold || c.downtrend_overbought),
{
}

/// The stop rule that closes a position.
#[derive(Debug, Clone, Copy, PartialEq, Eq, Structural)]
pub enum ExitRule {
    /// The break-even stop is armed and ROE fell to its target.
    BreakEven,
    /// The price crossed entry ∓ (hard-stop multiple × ATR at entry).
    HardStopAtr,
    /// Without an ATR at entry: ROE fell to the hard-stop ROE.
    HardStopRoe,
    /// Trailing is active and the price retraced the trailing multiple of
    /// ATR from the peak.
    TrailingStopAtr,
    /// Trailing is active without an ATR: ROE fell the trailing percentage
    /// from its peak.
    TrailingStopRoe,
}

/// The facts a stop decision rests on, for one position at one price.
pub struct RiskChecks {
    pub break_even_active: bool,
    /// ROE is at or below the break-even target.
    pub at_break_even_target: bool,
    /// The position has an ATR at entry above zero.
    pub has_atr: bool,
    /// The price is at or beyond the ATR hard stop on the losing side.
    pub atr_stop_hit: bool,
    /// ROE is at or below the hard-stop ROE.
    pub at_hard_stop_roe: bool,
    pub trailing_active: bool,
    /// The price retraced at least the ATR trailing distance from the peak.
    pub atr_trail_hit: bool,
    /// ROE fell at least the trailing percentage below its peak.
    pub trail_drawdown_hit: bool,
}

/// The first stop that fires, in the order break-even, hard stop, trailing
/// stop; the ATR form of a stop when the position has an ATR at entry, its
/// ROE form otherwise.
pub open spec fn exit_of(c: RiskChecks) -> Option<ExitRule> {
    if c.break_even_active && c.at_break_even_target {
        Some(ExitRule::BreakEven)
    } else if c.has_atr && c.atr_stop_hit {
        Some(ExitRule::HardStopAtr)
    } else if !c.has_atr && c.at_hard_stop_roe {
        Some(ExitRule::HardStopRoe)
    } else if c.trailing_active && c.has_atr && c.atr_trail_hit {
        Some(ExitRule::TrailingStopAtr)
    } else if c.trailing_active && !c.has_atr && c.trail_drawdown_hit {
        Some(ExitRule::TrailingStopRoe)
    } else {
        None
    }
}

/// Decides whether a position is closed, and by which stop.
pub fn exit_rule(c: &RiskChecks) -> (r: Option<ExitRule>)
    ensures
        r == exit_of(*c),
        r == Some(ExitRule::BreakEven) ==> c.break_even_active && c.at_break_even_target,
        r == Some(ExitRule::HardStopAtr) ==> c.has_atr && c.atr_stop_hit,
        r == Some(ExitRule::HardStopRoe) ==> !c.has_atr && c.at_hard_stop_roe,
        r == Some(ExitRule::TrailingStopAtr) ==> c.trailing_active && c.has_atr && c.atr_trail_hit,
        r == Some(ExitRule::TrailingStopRoe) ==> c.trailing_active && !c.has_atr
            && c.trail_drawdown_hit,
        r is Some <==> (c.break_even_active && c.at_break_even_target) || (c.has_atr
            && c.atr_stop_hit) || (!c.has_atr && c.at_hard_stop_roe) || (c.trailing_active
            && c.has_atr && c.atr_trail_hit) || (c.trailing_active && !c.has_atr
            && c.trail_drawdown_hit),
        c.break_even_active && c.at_break_even_target ==> r == Some(ExitRule::BreakEven),
{
    proof {
        lemma_exit_fires_exactly_on_reached_stops(*c);
    }
    if c.break_even_active {
        if c.at_break_even_target {
            return Some(ExitRule::BreakEven);
        }
    }
    if c.has_atr {
        if c.atr_stop_hit {
            return Some(ExitRule::HardStopAtr);
        }
    } else {
        if c.at_hard_stop_roe {
            return Some(ExitRule::HardStopRoe);
        }
    }
    if c.trailing_active {
        if c.has_atr {
            if c.atr_trail_hit {
                return Some(ExitRule::TrailingStopAtr);
            }
        } else {
            if c.trail_drawdown_hit {
                return Some(ExitRule::TrailingStopRoe);
            }
        }
    }
    None
}

/// A stop closes a position only when its own condition holds, a position
/// is closed exactly when some armed or unconditional stop has been reached,
/// and a reached break-even target takes precedence. In particular an armed
/// break-even stop whose ROE is still above its target closes nothing by
/// itself.
pub proof fn lemma_exit_fires_exactly_on_reached_stops(c: RiskChecks)
    ensures
        exit_of(c) == Some(ExitRule::BreakEven) ==> c.break_even_active && c.at_break_even_target,
        exit_of(c) == Some(ExitRule::HardStopAtr) ==> c.has_atr && c.atr_stop_hit,
        exit_of(c) == Some(ExitRule::HardStopRoe) ==> !c.has_atr && c.at_hard_stop_roe,
        exit_of(c) == Some(ExitRule::TrailingStopAtr) ==> c.trailing_active && c.has_atr
            && c.atr_trail_hit,
        exit_of(c) == Some(ExitRule::TrailingStopRoe) ==> c.trailing_active && !c.has_atr
            && c.trail_drawdown_hit,
        exit_of(c) is Some <==> (c.break_even_active && c.at_break_even_target) || (c.has_atr
            && c.atr_stop_hit) || (!c.has_atr && c.at_hard_stop_roe) || (c.trailing_active
            && c.has_atr && c.atr_trail_hit) || (c.trailing_active && !c.has_atr
            && c.trail_drawdown_hit),
        c.break_even_active && c.at_break_even_target ==> exit_of(c) == Some(ExitRule::BreakEven),
        (c.has_atr && c.atr_stop_hit) && !(c.break_even_active && c.at_break_even_target)
            ==> exit_of(c) == Some(ExitRule::HardStopAtr),
        (!c.has_atr && c.at_hard_stop_roe) && !(c.break_even_active && c.at_break_even_target)
            ==> exit_of(c) == Some(ExitRule::HardStopRoe),
{
}

/// An armed break-even stop keeps the position open while ROE stays above
/// its target, as long as no hard or trailing stop is reached.
pub proof fn lemma_armed_break_even_above_target_keeps_position(c: RiskChecks)
    requires
        c.break_even_active,
        !c.at_break_even_target,
        !(c.has_atr && c.atr_stop_hit),
        !(!c.has_atr && c.at_hard_stop_roe),
        !(c.trailing_active && c.has_atr && c.atr_trail_hit),
        !(c.trailing_active && !c.has_atr && c.trail_drawdown_hit),
    ensures
        exit_of(c) is None,
{
}

/// The label a close reason starts with.
pub fn exit_label(rule: ExitRule) -> (t: &'static str)
    ensures
        rule == ExitRule::BreakEven ==> t@ == "BREAK_EVEN_STOP"@,
        rule == ExitRule::HardStopAtr ==> t@ == "HARD_STOP(ATR)"@,
        rule == ExitRule::HardStopRoe ==> t@ == "HARD_STOP(ROE)"@,
        rule == ExitRule::TrailingStopAtr ==> t@ == "TRAILING_STOP(ATR)"@,
        rule == ExitRule::TrailingStopRoe ==> t@ == "TRAILING_STOP(ROE)"@,
{
    match rule {
        ExitRule::BreakEven => "BREAK_EVEN_STOP",
        ExitRule::HardStopAtr => "HARD_STOP(ATR)",
        ExitRule::HardStopRoe => "HARD_STOP(ROE)",
        ExitRule::TrailingStopAtr => "TRAILING_STOP(ATR)",
        ExitRule::TrailingStopRoe => "TRAILING_STOP(ROE)",
    }
}

/// A position whose stops are not armed and whose hard stop has not been
/// reached is kept open.
pub proof fn lemma_unarmed_position_kept_until_hard_stop(c: RiskChecks)
    requires
        !c.break_even_active,
        !c.trailing_active,
        !(c.has_atr && c.atr_stop_hit),
        !(!c.has_atr && c.at_hard_stop_roe),
    ensures
        exit_of(c) is None,
{
}

/// The hard stop always fires when reached, unless the break-even stop has
/// already fired: no trailing state can keep a losing position open.
pub proof fn lemma_hard_stop_always_fires(c: RiskChecks)
    requires
        (c.has_atr && c.atr_stop_hit) || (!c.has_atr && c.at_hard_stop_roe),
    ensures
        exit_of(c) is Some,
        exit_of(c) != Some(ExitRule::TrailingStopAtr),
        exit_of(c) != Some(ExitRule::TrailingStopRoe),
{
}

/// Whether a position's break-even stop and trailing stop are armed.
pub struct StopArming {
    pub break_even_active: bool,
    pub trailing_active: bool,
}

/// Arms the break-even stop when ROE reached its trigger and the trailing
/// stop when ROE reached its activation level; an armed stop stays armed.
pub fn arm_stops(
    current: StopArming,
    reached_break_even_trigger: bool,
    reached_trailing_activation: bool,
) -> (next: StopArming)
    ensures
        next.break_even_active == (current.break_even_active || reached_break_even_trigger),
        next.trailing_active == (current.trailing_active || reached_trailing_activation),
{
    StopArming {
        break_even_active: current.break_even_active || reached_break_even_trigger,
        trailing_active: current.trailing_active || reached_trailing_activation,
    }
}

} // verus!
