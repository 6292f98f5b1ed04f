//! Decisions of the live streams that need no prices: what a candle event
//! updates, and on which side a position is closed.

use crate::models::KlineData;
use crate::text::str_eq;
use vstd::prelude::*;

verus! {

/// What a candle event updates in a symbol's market state.
#[derive(Debug, Clone, Copy, PartialEq, Eq, Structural)]
pub enum KlineRoute {
    /// A daily candle: track the day's high and the price; when the candle
    /// has closed, the day's high becomes the previous day's high.
    Daily { rotate_high: bool },
    /// A 15-minute candle: track the volume and the price, evaluate the
    /// strategy; when the candle has closed, roll the volume window and ATR.
    FifteenMinute { candle_closed: bool },
    /// Any other interval: nothing changes.
    Ignored,
}

/// The route of a candle event with the given interval and closed flag.
pub open spec fn kline_route_of(interval: Seq<char>, is_closed: bool) -> KlineRoute {
    if interval == "1d"@ {
        KlineRoute::Daily { rotate_high: is_closed }
    } else if interval == "15m"@ {
        KlineRoute::FifteenMinute { candle_closed: is_closed }
    } else {
        KlineRoute::Ignored
    }
}

/// Routes a candle event by its interval (`1d` or `15m`) and closed flag.
pub fn route_kline(k: &KlineData) -> (r: KlineRoute)
    ensures
        r == kline_route_of(k.interval@, k.is_closed),
        k.interval@ == "1d"@ ==> r == (KlineRoute::Daily { rotate_high: k.is_closed }),
        k.interval@ == "15m"@ ==> r == (KlineRoute::FifteenMinute { candle_closed: k.is_closed }),
        k.interval@ != "1d"@ && k.interval@ != "15m"@ ==> r == KlineRoute::Ignored,
{
    proof {
        lemma_route_follows_interval_and_closed_flag(k.interval@, k.is_closed);
    }
    if str_eq(k.interval.as_str(), "1d") {
        KlineRoute::Daily { rotate_high: k.is_closed }
    } else if str_eq(k.interval.as_str(), "15m") {
        KlineRoute::FifteenMinute { candle_closed: k.is_closed }
    } else {
        KlineRoute::Ignored
    }
}

/// A daily candle routes to the daily update and a 15-minute candle to the
/// 15-minute update, each carrying the event's own closed flag, so the
/// previous day's high rotates and the volume window rolls only on a closed
/// candle; any other interval changes nothing.
pub proof fn lemma_route_follows_interval_and_closed_flag(interval: Seq<char>, is_closed: bool)
    ensures
        interval == "1d"@ ==> kline_route_of(interval, is_closed) == (KlineRoute::Daily {
            rotate_high: is_closed,
        }),
        interval == "15m"@ ==> kline_route_of(interval, is_closed) == (KlineRoute::FifteenMinute {
            candle_closed: is_closed,
        }),
        interval != "1d"@ && interval != "15m"@ ==> kline_route_of(interval, is_closed)
            == KlineRoute::Ignored,
        (kline_route_of(interval, is_closed) is FifteenMinute) ==> kline_route_of(
            interval,
            is_closed,
        )->candle_closed == is_closed,
        (kline_route_of(interval, is_closed) is Daily) ==> kline_route_of(
            interval,
            is_closed,
        )->rotate_high == is_closed,
{
    reveal_strlit("1d");
    reveal_strlit("15m");
    assert("1d"@ != "15m"@) by {
        assert("1d"@.len() != "15m"@.len());
    }
}

/// The side of the order that closes a position opened on `open_side`:
/// `SELL` for a `BUY` position, `BUY` otherwise.
pub open spec fn closing_side(open_side: Seq<char>) -> Seq<char> {
    if open_side == "BUY"@ {
        "SELL"@
    } else {
        "BUY"@
    }
}

/// The side that closes a position opened on `open_side`.
pub fn close_side(open_side: &str) -> (r: &'static str)
    ensures
        r@ == closing_side(open_side@),
        open_side@ == "BUY"@ ==> r@ == "SELL"@,
        open_side@ != "BUY"@ ==> r@ == "BUY"@,
{
    if str_eq(open_side, "BUY") {
        "SELL"
    } else {
        "BUY"
    }
}

/// A position is always closed on the other side, and closing the closing
/// side leads back to the side it was opened on.
pub proof fn lemma_close_side_flips(open_side: Seq<char>)
    requires
        open_side == "BUY"@ || open_side == "SELL"@,
    ensures
        closing_side(open_side) != open_side,
        closing_side(closing_side(open_side)) == open_side,
{
    reveal_strlit("BUY");
    reveal_strlit("SELL");
    assert("BUY"@.len() != "SELL"@.len());
}

} // verus!
