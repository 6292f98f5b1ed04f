//! The integer side of the offline backtest: the unit of the candle
//! timestamps, the day a candle falls in, and the tally of exit reasons.

use crate::text::{has_prefix, starts_with, str_eq};
use vstd::prelude::*;

verus! {

/// Number of 15-minute candles per day.
pub const CANDLES_PER_DAY: usize = 96;

/// Candles skipped before the first entry: one full day, for the previous
/// day's high, and one more.
pub const WARMUP_CANDLES: usize = 97;

/// Seconds per day.
pub const SECONDS_PER_DAY: i64 = 86400;

/// Timestamps above this are taken to be in milliseconds.
pub const MILLISECOND_THRESHOLD: i64 = 1_000_000_000_000;

/// Division rounding toward zero, as Rust's `/` on signed integers does.
pub open spec fn div_toward_zero(a: int, b: int) -> int {
    if a >= 0 {
        a / b
    } else {
        -((-a) / b)
    }
}

/// The divisor that turns the timestamps into seconds: 1000 when the first
/// timestamp is above 10^12 (milliseconds), else 1.
pub open spec fn timestamp_divisor(timestamps: Seq<i64>) -> i64 {
    if timestamps.len() > 0 && timestamps[0] > MILLISECOND_THRESHOLD {
        1000
    } else {
        1
    }
}

/// Detects whether candle timestamps are in seconds or milliseconds, from
/// the first one.
pub fn detect_timestamp_unit(timestamps: &[i64]) -> (d: i64)
    ensures
        d == timestamp_divisor(timestamps@),
        timestamps@.len() > 0 && timestamps@[0] > 1_000_000_000_000 ==> d == 1000,
        !(timestamps@.len() > 0 && timestamps@[0] > 1_000_000_000_000) ==> d == 1,
{
    if timestamps.len() > 0 && timestamps[0] > MILLISECOND_THRESHOLD {
        1000
    } else {
        1
    }
}

/// The day a timestamp falls in: `(timestamp / divisor) / 86400`, both
/// divisions rounding toward zero.
pub open spec fn day_of(timestamp: int, divisor: int) -> int {
    div_toward_zero(div_toward_zero(timestamp, divisor), SECONDS_PER_DAY as int)
}

fn div_toward_zero_i64(a: i64, b: i64) -> (q: i64)
    requires
        b > 0,
    ensures
        q == div_toward_zero(a as int, b as int),
{
    if a >= 0 {
        a / b
    } else {
        let m: i128 = -(a as i128);
        let q: i128 = m / (b as i128);
        assert(0 <= q <= m) by (nonlinear_arith)
            requires
                m > 0,
                b > 0,
                q == m / (b as i128),
        ;
        (-q) as i64
    }
}

/// The day index of a candle's timestamp.
pub fn day_index(timestamp: i64, divisor: i64) -> (day: i64)
    requires
        divisor > 0,
    ensures
        day == day_of(timestamp as int, divisor as int),
        timestamp >= 0 ==> day == (timestamp / divisor) / 86400,
        timestamp < 0 ==> day as int == -((((-timestamp) as int) / (divisor as int)) / 86400),
{
    proof {
        if timestamp >= 0 {
            vstd::arithmetic::div_mod::lemma_div_pos_is_pos(timestamp as int, divisor as int);
        } else {
            vstd::arithmetic::div_mod::lemma_div_pos_is_pos(-(timestamp as int), divisor as int);
            vstd::arithmetic::div_mod::lemma_div_pos_is_pos(
                (-(timestamp as int)) / (divisor as int),
                86400,
            );
        }
    }
    let secs = div_toward_zero_i64(timestamp, divisor);
    div_toward_zero_i64(secs, SECONDS_PER_DAY)
}

proof fn lemma_div_toward_zero_monotone(a: int, b: int, d: int)
    requires
        a <= b,
        d > 0,
    ensures
        div_toward_zero(a, d) <= div_toward_zero(b, d),
{
    if a >= 0 {
        vstd::arithmetic::div_mod::lemma_div_is_ordered(a, b, d);
    } else if b >= 0 {
        vstd::arithmetic::div_mod::lemma_div_pos_is_pos(-a, d);
        vstd::arithmetic::div_mod::lemma_div_pos_is_pos(b, d);
    } else {
        vstd::arithmetic::div_mod::lemma_div_is_ordered(-b, -a, d);
    }
}

/// Days never run backward: a later timestamp falls in the same day or a
/// later one.
pub proof fn lemma_day_monotone(t1: int, t2: int, divisor: int)
    requires
        t1 <= t2,
        divisor > 0,
    ensures
        day_of(t1, divisor) <= day_of(t2, divisor),
{
    lemma_div_toward_zero_monotone(t1, t2, divisor);
    lemma_div_toward_zero_monotone(
        div_toward_zero(t1, divisor),
        div_toward_zero(t2, divisor),
        SECONDS_PER_DAY as int,
    );
}

/// How many reasons in `reasons` begin with `prefix`.
pub open spec fn count_with_prefix(reasons: Seq<Seq<char>>, prefix: Seq<char>) -> nat
    decreases reasons.len(),
{
    if reasons.len() == 0 {
        0
    } else {
        count_with_prefix(reasons.drop_last(), prefix) + if has_prefix(reasons.last(), prefix) {
            1nat
        } else {
            0nat
        }
    }
}

/// How many reasons in `reasons` equal `text`.
pub open spec fn count_equal(reasons: Seq<Seq<char>>, text: Seq<char>) -> nat
    decreases reasons.len(),
{
    if reasons.len() == 0 {
        0
    } else {
        count_equal(reasons.drop_last(), text) + if reasons.last() == text {
            1nat
        } else {
            0nat
        }
    }
}

/// The exit reasons of the closed trades, as text.
pub open spec fn reason_texts(reasons: Seq<String>) -> Seq<Seq<char>> {
    reasons.map_values(|r: String| r@)
}

/// How the backtest's trades ended: hard stops, trailing stops, and trades
/// closed at the end of the data.
pub struct ExitTally {
    pub hard_stops: usize,
    pub trailing_stops: usize,
    pub end_of_data: usize,
}

/// Counts the exit reasons that begin with `HARD_STOP`, those that begin
/// with `TRAILING_STOP`, and those that are exactly `END_OF_DATA`.
pub fn tally_exit_reasons(reasons: &Vec<String>) -> (t: ExitTally)
    ensures
        t.hard_stops == count_with_prefix(reason_texts(reasons@), "HARD_STOP"@),
        t.trailing_stops == count_with_prefix(reason_texts(reasons@), "TRAILING_STOP"@),
        t.end_of_data == count_equal(reason_texts(reasons@), "END_OF_DATA"@),
{
    let mut hard: usize = 0;
    let mut trailing: usize = 0;
    let mut eod: usize = 0;
    let n = reasons.len();
    let mut i: usize = 0;
    while i < n
        invariant
            n == reasons@.len(),
            i <= n,
            hard == count_with_prefix(reason_texts(reasons@.take(i as int)), "HARD_STOP"@),
            trailing == count_with_prefix(reason_texts(reasons@.take(i as int)), "TRAILING_STOP"@),
            eod == count_equal(reason_texts(reasons@.take(i as int)), "END_OF_DATA"@),
            hard <= i,
            trailing <= i,
            eod <= i,
        decreases n - i,
    {
        let ghost before = reason_texts(reasons@.take(i as int));
        let ghost after = reason_texts(reasons@.take(i + 1));
        assert(after.drop_last() =~= before);
        assert(after.last() == reasons@[i as int]@);
        let r = reasons[i].as_str();
        if starts_with(r, "HARD_STOP") {
            hard += 1;
        }
        if starts_with(r, "TRAILING_STOP") {
            trailing += 1;
        }
        if str_eq(r, "END_OF_DATA") {
            eod += 1;
        }
        i += 1;
    }
    assert(reasons@.take(n as int) =~= reasons@);
    ExitTally { hard_stops: hard, trailing_stops: trailing, end_of_data: eod }
}

/// A prefix count counts no more reasons than there are, all of them when
/// every reason has the prefix, none when no reason has it, and one more
/// when a reason with the prefix is added.
pub proof fn lemma_prefix_count_counts_matches(reasons: Seq<Seq<char>>, prefix: Seq<char>, extra: Seq<
    char,
>)
    ensures
        count_with_prefix(reasons, prefix) <= reasons.len(),
        (forall|i: int|
            0 <= i < reasons.len() ==> #[trigger] has_prefix(reasons[i], prefix)) ==> count_with_prefix(
            reasons,
            prefix,
        ) == reasons.len(),
        (forall|i: int|
            0 <= i < reasons.len() ==> !#[trigger] has_prefix(reasons[i], prefix)) ==> count_with_prefix(
            reasons,
            prefix,
        ) == 0,
        count_with_prefix(reasons.push(extra), prefix) == count_with_prefix(reasons, prefix) + if has_prefix(
            extra,
            prefix,
        ) {
            1int
        } else {
            0int
        },
    decreases reasons.len(),
{
    assert(reasons.push(extra).drop_last() =~= reasons);
    if reasons.len() > 0 {
        lemma_prefix_count_counts_matches(reasons.drop_last(), prefix, extra);
        assert(reasons.last() == reasons[reasons.len() - 1]);
        assert forall|i: int| 0 <= i < reasons.len() - 1 implies reasons.drop_last()[i]
            == reasons[i] by {}
    }
}

/// The three exit kinds never overlap: together they count no more trades
/// than there are.
pub proof fn lemma_exit_kinds_disjoint(reasons: Seq<Seq<char>>)
    ensures
        count_with_prefix(reasons, "HARD_STOP"@) + count_with_prefix(reasons, "TRAILING_STOP"@)
            + count_equal(reasons, "END_OF_DATA"@) <= reasons.len(),
    decreases reasons.len(),
{
    reveal_strlit("HARD_STOP");
    reveal_strlit("TRAILING_STOP");
    reveal_strlit("END_OF_DATA");
    if reasons.len() > 0 {
        lemma_exit_kinds_disjoint(reasons.drop_last());
        let r = reasons.last();
        if has_prefix(r, "HARD_STOP"@) {
            assert(r.subrange(0, 9)[0] == r[0]);
            assert("HARD_STOP"@[0] == 'H');
        }
        if has_prefix(r, "TRAILING_STOP"@) {
            assert(r.subrange(0, 13)[0] == r[0]);
            assert("TRAILING_STOP"@[0] == 'T');
        }
        if r == "END_OF_DATA"@ {
            assert(r[0] == 'E');
        }
    }
}

} // verus!
