//! Start-up settings and state recovery: integer settings with defaults, the
//! leverage of a recovered position, and the trades recorded as open that the
//! exchange no longer holds.

use crate::decimal::{bounded_value, parse_u32, parse_usize};
use crate::text::str_eq;
use vstd::prelude::*;

verus! {

/// Concurrent open positions allowed when no setting is given.
pub const DEFAULT_MAX_OPEN_POSITIONS: usize = 5;

/// EMA trend-filter period when no setting is given.
pub const DEFAULT_EMA_PERIOD: usize = 50;

/// Leverage the bot trades with.
pub const LEVERAGE: u32 = 10;

/// How many altcoins the bot follows.
pub const TOP_N_SYMBOLS: usize = 100;

/// The value of an integer setting: `raw` parsed as a `usize` when it is
/// present and parses, else `default`.
pub open spec fn setting_value(raw: Option<Seq<char>>, default: nat) -> nat {
    match raw {
        Some(t) => match bounded_value(t, usize::MAX as nat) {
            Some(v) => v,
            None => default,
        },
        None => default,
    }
}

/// An integer setting: the value of `raw` when it is present and parses as a
/// `usize`, else `default`.
pub fn usize_setting(raw: Option<&str>, default: usize) -> (v: usize)
    ensures
        v as nat == setting_value(
            match raw {
                Some(t) => Some(t@),
                None => None,
            },
            default as nat,
        ),
{
    match raw {
        Some(t) => match parse_usize(t) {
            Some(v) => v,
            None => default,
        },
        None => default,
    }
}

/// The leverage of a position read back from the exchange: its text parsed
/// as a `u32`, or `default` when it does not parse.
pub fn recovered_leverage(text: &str, default: u32) -> (v: u32)
    ensures
        bounded_value(text@, u32::MAX as nat) matches Some(x) ==> v as nat == x,
        bounded_value(text@, u32::MAX as nat) is None ==> v == default,
{
    match parse_u32(text) {
        Some(v) => v,
        None => default,
    }
}

/// Whether `name` is among `names`.
pub open spec fn listed(names: Seq<String>, name: Seq<char>) -> bool {
    exists|i: int| 0 <= i < names.len() && #[trigger] names[i]@ == name
}

/// The symbols of `recorded`, in order, that `live` does not hold.
pub open spec fn missing_from(recorded: Seq<String>, live: Seq<String>) -> Seq<Seq<char>>
    decreases recorded.len(),
{
    if recorded.len() == 0 {
        Seq::empty()
    } else {
        let rest = missing_from(recorded.drop_last(), live);
        if listed(live, recorded.last()@) {
            rest
        } else {
            rest.push(recorded.last()@)
        }
    }
}

/// `true` exactly when `name` is among `names`.
pub fn contains_name(names: &Vec<String>, name: &str) -> (r: bool)
    ensures
        r == listed(names@, name@),
{
    let n = names.len();
    let mut i: usize = 0;
    while i < n
        invariant
            n == names@.len(),
            i <= n,
            forall|j: int| 0 <= j < i ==> names@[j]@ != name@,
        decreases n - i,
    {
        if str_eq(names[i].as_str(), name) {
            assert(names@[i as int]@ == name@);
            return true;
        }
        i += 1;
    }
    false
}

/// The symbols recorded with an open trade that are not open on the
/// exchange, in the order recorded: their trades are to be force-closed.
pub fn stale_open_symbols(recorded_open: &Vec<String>, live: &Vec<String>) -> (r: Vec<String>)
    ensures
        r@.len() == missing_from(recorded_open@, live@).len(),
        forall|j: int| 0 <= j < r@.len() ==> #[trigger] r@[j]@ == missing_from(recorded_open@, live@)[j],
        forall|i: int|
            0 <= i < recorded_open@.len() && !(exists|k: int|
                0 <= k < live@.len() && live@[k]@ == (#[trigger] recorded_open@[i])@) ==> exists|
                j: int,
            | 0 <= j < r@.len() && r@[j]@ == recorded_open@[i]@,
        forall|j: int|
            0 <= j < r@.len() ==> !(exists|k: int|
                0 <= k < live@.len() && live@[k]@ == (#[trigger] r@[j])@) && exists|i: int|
                0 <= i < recorded_open@.len() && recorded_open@[i]@ == r@[j]@,
        live@.len() == 0 ==> r@.len() == recorded_open@.len(),
{
    proof {
        lemma_every_unlisted_symbol_is_stale(recorded_open@, live@);
        lemma_stale_symbols_are_recorded_and_not_live(recorded_open@, live@);
    }
    let mut r: Vec<String> = Vec::new();
    let n = recorded_open.len();
    let mut i: usize = 0;
    while i < n
        invariant
            n == recorded_open@.len(),
            i <= n,
            r@.len() == missing_from(recorded_open@.take(i as int), live@).len(),
            forall|j: int|
                0 <= j < r@.len() ==> #[trigger] r@[j]@ == missing_from(
                    recorded_open@.take(i as int),
                    live@,
                )[j],
        decreases n - i,
    {
        let ghost before = recorded_open@.take(i as int);
        let ghost after = recorded_open@.take(i + 1);
        assert(after.drop_last() =~= before);
        assert(after.last() == recorded_open@[i as int]);
        if !contains_name(live, recorded_open[i].as_str()) {
            r.push(recorded_open[i].clone());
        }
        i += 1;
    }
    assert(recorded_open@.take(n as int) =~= recorded_open@);
    proof {
        let m = missing_from(recorded_open@, live@);
        assert forall|i: int|
            0 <= i < recorded_open@.len() && !(exists|k: int|
                0 <= k < live@.len() && live@[k]@ == (#[trigger] recorded_open@[i])@) implies exists|
            j: int,
        | 0 <= j < r@.len() && r@[j]@ == recorded_open@[i]@ by {
            let j0 = choose|j: int| 0 <= j < m.len() && m[j] == recorded_open@[i]@;
            assert(r@[j0]@ == m[j0]);
        }
        assert forall|j: int| 0 <= j < r@.len() implies !(exists|k: int|
            0 <= k < live@.len() && live@[k]@ == (#[trigger] r@[j])@) && exists|i: int|
            0 <= i < recorded_open@.len() && recorded_open@[i]@ == r@[j]@ by {
            assert(r@[j]@ == m[j]);
            assert(!listed(live@, m[j]));
        }
    }
    r
}

/// No stale trade is missed: every recorded symbol that no live position
/// carries is picked for force-closing; in particular, when the exchange
/// holds no position at all, every recorded symbol is picked.
pub proof fn lemma_every_unlisted_symbol_is_stale(recorded: Seq<String>, live: Seq<String>)
    ensures
        forall|i: int|
            0 <= i < recorded.len() && !(exists|k: int|
                0 <= k < live.len() && live[k]@ == (#[trigger] recorded[i])@) ==> exists|j: int|
                0 <= j < missing_from(recorded, live).len() && missing_from(recorded, live)[j]
                    == recorded[i]@,
        live.len() == 0 ==> missing_from(recorded, live).len() == recorded.len(),
    decreases recorded.len(),
{
    if recorded.len() > 0 {
        let init = recorded.drop_last();
        lemma_every_unlisted_symbol_is_stale(init, live);
        let m = missing_from(recorded, live);
        let m0 = missing_from(init, live);
        assert forall|i: int|
            0 <= i < recorded.len() && !(exists|k: int|
                0 <= k < live.len() && live[k]@ == (#[trigger] recorded[i])@) implies exists|j: int|
            0 <= j < m.len() && m[j] == recorded[i]@ by {
            if i < init.len() {
                assert(init[i] == recorded[i]);
                let j0 = choose|j: int| 0 <= j < m0.len() && m0[j] == init[i]@;
                assert(m[j0] == m0[j0]);
            } else {
                assert(recorded[i] == recorded.last());
                assert(!listed(live, recorded.last()@));
                assert(m[m.len() - 1] == recorded[i]@);
            }
        }
    }
}

/// Every symbol picked for force-closing was recorded open and is absent
/// from the exchange's live positions.
pub proof fn lemma_stale_symbols_are_recorded_and_not_live(recorded: Seq<String>, live: Seq<String>)
    ensures
        forall|j: int|
            0 <= j < missing_from(recorded, live).len() ==> !listed(
                live,
                #[trigger] missing_from(recorded, live)[j],
            ) && exists|i: int|
                0 <= i < recorded.len() && recorded[i]@ == missing_from(recorded, live)[j],
    decreases recorded.len(),
{
    if recorded.len() > 0 {
        let init = recorded.drop_last();
        lemma_stale_symbols_are_recorded_and_not_live(init, live);
        let m = missing_from(recorded, live);
        let m0 = missing_from(init, live);
        assert forall|j: int| 0 <= j < m.len() implies !listed(live, #[trigger] m[j]) && exists|i: int|
            0 <= i < recorded.len() && recorded[i]@ == m[j] by {
            if j < m0.len() {
                assert(m[j] == m0[j]);
                let i0 = choose|i: int| 0 <= i < init.len() && init[i]@ == m0[j];
                assert(recorded[i0] == init[i0]);
            } else {
                assert(recorded[recorded.len() - 1]@ == m[j]);
            }
        }
    }
}

} // verus!
