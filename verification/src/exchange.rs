//! Which symbols the bot trades, which filter texts give their order sizes,
//! and which candle streams it subscribes to.

use crate::models::{ExchangeInfo, FilterEntry, SymbolInfo};
use crate::text::str_eq;
use vstd::prelude::*;

verus! {

/// A USDT-margined perpetual contract that is trading and is an altcoin
/// (neither BTCUSDT nor ETHUSDT).
pub open spec fn is_tradable_altcoin(s: SymbolInfo) -> bool {
    &&& s.contract_type@ == "PERPETUAL"@
    &&& s.status@ == "TRADING"@
    &&& s.quote_asset@ == "USDT"@
    &&& s.symbol@ != "BTCUSDT"@
    &&& s.symbol@ != "ETHUSDT"@
}

/// The names of the tradable altcoins among `infos`, in listing order.
pub open spec fn tradable_names(infos: Seq<SymbolInfo>) -> Seq<Seq<char>>
    decreases infos.len(),
{
    if infos.len() == 0 {
        Seq::empty()
    } else {
        let rest = tradable_names(infos.drop_last());
        if is_tradable_altcoin(infos.last()) {
            rest.push(infos.last().symbol@)
        } else {
            rest
        }
    }
}

/// Every selected name belongs to a listed symbol that is a trading USDT
/// perpetual, and neither BTCUSDT nor ETHUSDT is ever selected.
pub proof fn lemma_selected_are_tradable_altcoins(infos: Seq<SymbolInfo>)
    ensures
        forall|j: int|
            0 <= j < tradable_names(infos).len() ==> #[trigger] tradable_names(infos)[j]
                != "BTCUSDT"@ && tradable_names(infos)[j] != "ETHUSDT"@ && exists|i: int|
                0 <= i < infos.len() && infos[i].symbol@ == tradable_names(infos)[j]
                    && infos[i].contract_type@ == "PERPETUAL"@ && infos[i].status@ == "TRADING"@
                    && infos[i].quote_asset@ == "USDT"@,
    decreases infos.len(),
{
    if infos.len() > 0 {
        let init = infos.drop_last();
        lemma_selected_are_tradable_altcoins(init);
        let t = tradable_names(infos);
        let t0 = tradable_names(init);
        assert forall|j: int| 0 <= j < t.len() implies #[trigger] t[j] != "BTCUSDT"@ && t[j]
            != "ETHUSDT"@ && exists|i: int|
            0 <= i < infos.len() && infos[i].symbol@ == t[j] && infos[i].contract_type@
                == "PERPETUAL"@ && infos[i].status@ == "TRADING"@ && infos[i].quote_asset@
                == "USDT"@ by {
            if j < t0.len() {
                assert(t[j] == t0[j]);
                let i0 = choose|i: int|
                    0 <= i < init.len() && init[i].symbol@ == t0[j] && init[i].contract_type@
                        == "PERPETUAL"@ && init[i].status@ == "TRADING"@ && init[i].quote_asset@
                        == "USDT"@;
                assert(infos[i0] == init[i0]);
            } else {
                assert(infos[infos.len() - 1] == infos.last());
            }
        }
    }
}

/// No tradable altcoin is missed, whatever its name: every listed symbol
/// that is a trading USDT perpetual other than BTCUSDT and ETHUSDT is among
/// the selected names.
pub proof fn lemma_every_tradable_altcoin_selected(infos: Seq<SymbolInfo>)
    ensures
        forall|i: int|
            0 <= i < infos.len() && (#[trigger] infos[i]).contract_type@ == "PERPETUAL"@
                && infos[i].status@ == "TRADING"@ && infos[i].quote_asset@ == "USDT"@
                && infos[i].symbol@ != "BTCUSDT"@ && infos[i].symbol@ != "ETHUSDT"@ ==> exists|
                j: int,
            |
                0 <= j < tradable_names(infos).len() && tradable_names(infos)[j]
                    == infos[i].symbol@,
    decreases infos.len(),
{
    if infos.len() > 0 {
        let init = infos.drop_last();
        lemma_every_tradable_altcoin_selected(init);
        let t = tradable_names(infos);
        let t0 = tradable_names(init);
        assert forall|i: int|
            0 <= i < infos.len() && (#[trigger] infos[i]).contract_type@ == "PERPETUAL"@
                && infos[i].status@ == "TRADING"@ && infos[i].quote_asset@ == "USDT"@
                && infos[i].symbol@ != "BTCUSDT"@ && infos[i].symbol@ != "ETHUSDT"@ implies exists|
            j: int,
        | 0 <= j < t.len() && t[j] == infos[i].symbol@ by {
            if i < init.len() {
                assert(init[i] == infos[i]);
                let j0 = choose|j: int| 0 <= j < t0.len() && t0[j] == init[i].symbol@;
                assert(t[j0] == t0[j0]);
            } else {
                assert(infos[i] == infos.last());
                assert(t[t.len() - 1] == infos[i].symbol@);
            }
        }
    }
}

/// Whether a symbol is a tradable altcoin.
pub fn is_tradable(s: &SymbolInfo) -> (r: bool)
    ensures
        r == is_tradable_altcoin(*s),
        r == (s.contract_type@ == "PERPETUAL"@ && s.status@ == "TRADING"@ && s.quote_asset@
            == "USDT"@ && s.symbol@ != "BTCUSDT"@ && s.symbol@ != "ETHUSDT"@),
{
    str_eq(s.contract_type.as_str(), "PERPETUAL") && str_eq(s.status.as_str(), "TRADING") && str_eq(
        s.quote_asset.as_str(),
        "USDT",
    ) && !str_eq(s.symbol.as_str(), "BTCUSDT") && !str_eq(s.symbol.as_str(), "ETHUSDT")
}

/// The first `top_n` tradable altcoins of the exchange information, in
/// listing order (all of them when there are fewer).
pub fn select_top_symbols(info: &ExchangeInfo, top_n: usize) -> (r: Vec<String>)
    ensures
        r@.len() == if tradable_names(info.symbols@).len() < top_n {
            tradable_names(info.symbols@).len()
        } else {
            top_n as nat
        },
        forall|j: int| 0 <= j < r@.len() ==> #[trigger] r@[j]@ == tradable_names(info.symbols@)[j],
        tradable_names(info.symbols@).len() <= top_n ==> forall|i: int|
            0 <= i < info.symbols@.len() && (#[trigger] info.symbols@[i]).contract_type@
                == "PERPETUAL"@ && info.symbols@[i].status@ == "TRADING"@
                && info.symbols@[i].quote_asset@ == "USDT"@ && info.symbols@[i].symbol@
                != "BTCUSDT"@ && info.symbols@[i].symbol@ != "ETHUSDT"@ ==> exists|j: int|
                0 <= j < r@.len() && r@[j]@ == info.symbols@[i].symbol@,
        forall|j: int|
            0 <= j < r@.len() ==> exists|i: int|
                0 <= i < info.symbols@.len() && info.symbols@[i].symbol@ == (#[trigger] r@[j])@
                    && info.symbols@[i].contract_type@ == "PERPETUAL"@
                    && info.symbols@[i].status@ == "TRADING"@ && info.symbols@[i].quote_asset@
                    == "USDT"@ && r@[j]@ != "BTCUSDT"@ && r@[j]@ != "ETHUSDT"@,
{
    proof {
        lemma_every_tradable_altcoin_selected(info.symbols@);
        lemma_selected_are_tradable_altcoins(info.symbols@);
    }
    let mut r: Vec<String> = Vec::new();
    let n = info.symbols.len();
    let mut i: usize = 0;
    while i < n
        invariant
            n == info.symbols@.len(),
            i <= n,
            r@.len() == tradable_names(info.symbols@.take(i as int)).len(),
            forall|j: int|
                0 <= j < r@.len() ==> #[trigger] r@[j]@ == tradable_names(
                    info.symbols@.take(i as int),
                )[j],
        decreases n - i,
    {
        let s = &info.symbols[i];
        let ghost before = info.symbols@.take(i as int);
        let ghost after = info.symbols@.take(i + 1);
        assert(after.drop_last() =~= before);
        assert(after.last() == *s);
        if is_tradable(s) {
            r.push(s.symbol.clone());
        }
        i += 1;
    }
    assert(info.symbols@.take(n as int) =~= info.symbols@);
    r.truncate(top_n);
    proof {
        let t = tradable_names(info.symbols@);
        if t.len() <= top_n {
            assert forall|i: int|
                0 <= i < info.symbols@.len() && (#[trigger] info.symbols@[i]).contract_type@
                    == "PERPETUAL"@ && info.symbols@[i].status@ == "TRADING"@
                    && info.symbols@[i].quote_asset@ == "USDT"@ && info.symbols@[i].symbol@
                    != "BTCUSDT"@ && info.symbols@[i].symbol@ != "ETHUSDT"@ implies exists|j: int|
                0 <= j < r@.len() && r@[j]@ == info.symbols@[i].symbol@ by {
                let j0 = choose|j: int| 0 <= j < t.len() && t[j] == info.symbols@[i].symbol@;
                assert(r@[j0]@ == t[j0]);
            }
        }
    }
    r
}

/// The text of `key` in the last filter of type `kind` that carries it.
pub open spec fn last_filter_text(
    filters: Seq<FilterEntry>,
    kind: Seq<char>,
    tick: bool,
) -> Option<Seq<char>>
    decreases filters.len(),
{
    if filters.len() == 0 {
        None
    } else {
        let f = filters.last();
        let value = if tick {
            f.tick_size
        } else {
            f.step_size
        };
        if f.filter_type matches Some(t) && t@ == kind && value is Some {
            Some(value->0@)
        } else {
            last_filter_text(filters.drop_last(), kind, tick)
        }
    }
}

/// Whether filter `f` is of type `kind` and carries the size (tick size when
/// `tick`, else step size).
pub open spec fn carries_size(f: FilterEntry, kind: Seq<char>, tick: bool) -> bool {
    &&& f.filter_type is Some
    &&& f.filter_type->0@ == kind
    &&& if tick {
        f.tick_size is Some
    } else {
        f.step_size is Some
    }
}

/// The size text filter `f` carries.
pub open spec fn size_text(f: FilterEntry, tick: bool) -> Seq<char> {
    if tick {
        f.tick_size->0@
    } else {
        f.step_size->0@
    }
}

/// The text read is the one of the last filter of the kind that carries the
/// size, and there is none exactly when no filter of the kind carries it.
pub proof fn lemma_filter_text_is_last_carried(filters: Seq<FilterEntry>, kind: Seq<char>, tick: bool)
    ensures
        last_filter_text(filters, kind, tick) is Some ==> exists|i: int|
            0 <= i < filters.len() && carries_size(filters[i], kind, tick) && size_text(
                filters[i],
                tick,
            ) == last_filter_text(filters, kind, tick)->0 && forall|j: int|
                i < j < filters.len() ==> !carries_size(#[trigger] filters[j], kind, tick),
        last_filter_text(filters, kind, tick) is None ==> forall|i: int|
            0 <= i < filters.len() ==> !carries_size(#[trigger] filters[i], kind, tick),
    decreases filters.len(),
{
    if filters.len() > 0 {
        let init = filters.drop_last();
        lemma_filter_text_is_last_carried(init, kind, tick);
        let n = filters.len() - 1;
        assert(filters[n] == filters.last());
        if carries_size(filters.last(), kind, tick) {
            assert(last_filter_text(filters, kind, tick) == Some(size_text(filters.last(), tick)));
        } else {
            assert(last_filter_text(filters, kind, tick) == last_filter_text(init, kind, tick));
            if last_filter_text(init, kind, tick) is Some {
                let i0 = choose|i: int|
                    0 <= i < init.len() && carries_size(init[i], kind, tick) && size_text(
                        init[i],
                        tick,
                    ) == last_filter_text(init, kind, tick)->0 && forall|j: int|
                        i < j < init.len() ==> !carries_size(#[trigger] init[j], kind, tick);
                assert(filters[i0] == init[i0]);
                assert forall|j: int| i0 < j < filters.len() implies !carries_size(
                    #[trigger] filters[j],
                    kind,
                    tick,
                ) by {
                    if j < n {
                        assert(filters[j] == init[j]);
                    }
                }
            } else {
                assert forall|i: int| 0 <= i < filters.len() implies !carries_size(
                    #[trigger] filters[i],
                    kind,
                    tick,
                ) by {
                    if i < n {
                        assert(filters[i] == init[i]);
                    }
                }
            }
        }
    }
}

/// The size texts a symbol's filters set: the step size of its last
/// `LOT_SIZE` filter that has one, and the tick size of its last
/// `PRICE_FILTER` filter that has one.
pub struct FilterTexts {
    pub step_size: Option<String>,
    pub tick_size: Option<String>,
}

fn opt_view(o: &Option<String>) -> (r: Option<String>)
    ensures
        r == *o,
{
    match o {
        Some(s) => Some(s.clone()),
        None => None,
    }
}

/// Reads the step-size and tick-size texts from a symbol's filters; a later
/// filter overrides an earlier one of the same type.
pub fn filter_texts(filters: &Vec<FilterEntry>) -> (r: FilterTexts)
    ensures
        (r.step_size matches Some(s) ==> last_filter_text(filters@, "LOT_SIZE"@, false) == Some(s@)),
        (r.step_size is None ==> last_filter_text(filters@, "LOT_SIZE"@, false) is None),
        (r.tick_size matches Some(s) ==> last_filter_text(filters@, "PRICE_FILTER"@, true) == Some(
            s@,
        )),
        (r.tick_size is None ==> last_filter_text(filters@, "PRICE_FILTER"@, true) is None),
        r.step_size is Some ==> exists|i: int|
            0 <= i < filters@.len() && carries_size(filters@[i], "LOT_SIZE"@, false) && size_text(
                filters@[i],
                false,
            ) == r.step_size->0@ && forall|j: int|
                i < j < filters@.len() ==> !carries_size(#[trigger] filters@[j], "LOT_SIZE"@, false),
        r.step_size is None ==> forall|i: int|
            0 <= i < filters@.len() ==> !carries_size(#[trigger] filters@[i], "LOT_SIZE"@, false),
        r.tick_size is Some ==> exists|i: int|
            0 <= i < filters@.len() && carries_size(filters@[i], "PRICE_FILTER"@, true) && size_text(
                filters@[i],
                true,
            ) == r.tick_size->0@ && forall|j: int|
                i < j < filters@.len() ==> !carries_size(#[trigger] filters@[j], "PRICE_FILTER"@, true),
        r.tick_size is None ==> forall|i: int|
            0 <= i < filters@.len() ==> !carries_size(#[trigger] filters@[i], "PRICE_FILTER"@, true),
{
    proof {
        lemma_filter_text_is_last_carried(filters@, "LOT_SIZE"@, false);
        lemma_filter_text_is_last_carried(filters@, "PRICE_FILTER"@, true);
    }
    let mut step: Option<String> = None;
    let mut tick: Option<String> = None;
    let n = filters.len();
    let mut i: usize = 0;
    while i < n
        invariant
            n == filters@.len(),
            i <= n,
            (step matches Some(s) ==> last_filter_text(filters@.take(i as int), "LOT_SIZE"@, false)
                == Some(s@)),
            (step is None ==> last_filter_text(filters@.take(i as int), "LOT_SIZE"@, false) is None),
            (tick matches Some(s) ==> last_filter_text(
                filters@.take(i as int),
                "PRICE_FILTER"@,
                true,
            ) == Some(s@)),
            (tick is None ==> last_filter_text(filters@.take(i as int), "PRICE_FILTER"@, true)
                is None),
        decreases n - i,
    {
        let f = &filters[i];
        let ghost before = filters@.take(i as int);
        let ghost after = filters@.take(i + 1);
        assert(after.drop_last() =~= before);
        assert(after.last() == *f);
        match &f.filter_type {
            Some(t) => {
                if str_eq(t.as_str(), "LOT_SIZE") && f.step_size.is_some() {
                    step = opt_view(&f.step_size);
                }
                if str_eq(t.as_str(), "PRICE_FILTER") && f.tick_size.is_some() {
                    tick = opt_view(&f.tick_size);
                }
            },
            None => {},
        }
        i += 1;
    }
    assert(filters@.take(n as int) =~= filters@);
    FilterTexts { step_size: step, tick_size: tick }
}

/// Unicode lowercase of a text, as `str::to_lowercase` gives it.
pub uninterp spec fn lowercase(s: Seq<char>) -> Seq<char>;

/// Calls `str::to_lowercase`. Claimed: the result is the Unicode lowercase of
/// `s`, a function of `s` alone (named `lowercase`, not spelled out).
#[verifier::external_body]
fn to_lowercase(s: &str) -> (r: String)
    ensures
        r@ == lowercase(s@),
{
    s.to_lowercase()
}

/// The stream of 15-minute candles of a symbol: `{lowercase symbol}@kline_15m`.
pub open spec fn stream_15m(symbol: Seq<char>) -> Seq<char> {
    lowercase(symbol) + "@kline_15m"@
}

/// The stream of daily candles of a symbol: `{lowercase symbol}@kline_1d`.
pub open spec fn stream_1d(symbol: Seq<char>) -> Seq<char> {
    lowercase(symbol) + "@kline_1d"@
}

/// The candle streams of symbols already in lowercase: for each in order,
/// `{name}@kline_15m` and then `{name}@kline_1d`.
pub fn stream_names_for(lowered: &Vec<String>) -> (r: Vec<String>)
    requires
        lowered@.len() * 2 <= usize::MAX,
    ensures
        r@.len() == 2 * lowered@.len(),
        forall|k: int|
            0 <= k < lowered@.len() ==> r@[2 * k]@ == (#[trigger] lowered@[k])@ + "@kline_15m"@
                && r@[2 * k + 1]@ == lowered@[k]@ + "@kline_1d"@,
{
    let mut r: Vec<String> = Vec::new();
    let n = lowered.len();
    let mut i: usize = 0;
    while i < n
        invariant
            n == lowered@.len(),
            i <= n,
            r@.len() == 2 * i,
            forall|k: int|
                0 <= k < i ==> r@[2 * k]@ == (#[trigger] lowered@[k])@ + "@kline_15m"@ && r@[2 * k
                    + 1]@ == lowered@[k]@ + "@kline_1d"@,
        decreases n - i,
    {
        let mut a = lowered[i].clone();
        a.append("@kline_15m");
        let mut b = lowered[i].clone();
        b.append("@kline_1d");
        let ghost old_r = r@;
        r.push(a);
        r.push(b);
        assert forall|k: int| 0 <= k < i + 1 implies r@[2 * k]@ == (#[trigger] lowered@[k])@
            + "@kline_15m"@ && r@[2 * k + 1]@ == lowered@[k]@ + "@kline_1d"@ by {
            if k < i {
                assert(r@[2 * k] == old_r[2 * k]);
                assert(r@[2 * k + 1] == old_r[2 * k + 1]);
            }
        }
        i += 1;
    }
    r
}

/// The candle streams of `symbols`: for each symbol in order, its 15-minute
/// stream and then its daily stream.
pub fn kline_stream_names(symbols: &Vec<String>) -> (r: Vec<String>)
    requires
        symbols@.len() * 2 <= usize::MAX,
    ensures
        r@.len() == 2 * symbols@.len(),
        forall|k: int|
            0 <= k < symbols@.len() ==> r@[2 * k]@ == stream_15m(#[trigger] symbols@[k]@) && r@[2 * k
                + 1]@ == stream_1d(symbols@[k]@),
        forall|k: int|
            0 <= k < symbols@.len() ==> r@[2 * k]@ == lowercase(#[trigger] symbols@[k]@)
                + "@kline_15m"@ && r@[2 * k + 1]@ == lowercase(symbols@[k]@) + "@kline_1d"@,
{
    let mut lowered: Vec<String> = Vec::new();
    let n = symbols.len();
    let mut i: usize = 0;
    while i < n
        invariant
            n == symbols@.len(),
            i <= n,
            lowered@.len() == i,
            forall|k: int| 0 <= k < i ==> (#[trigger] lowered@[k])@ == lowercase(symbols@[k]@),
        decreases n - i,
    {
        lowered.push(to_lowercase(symbols[i].as_str()));
        i += 1;
    }
    let r = stream_names_for(&lowered);
    assert forall|k: int| 0 <= k < symbols@.len() implies r@[2 * k]@ == stream_15m(
        #[trigger] symbols@[k]@,
    ) && r@[2 * k + 1]@ == stream_1d(symbols@[k]@) by {
        assert(lowered@[k]@ == lowercase(symbols@[k]@));
    }
    r
}

/// Most streams named in one SUBSCRIBE message.
pub const SUBSCRIBE_BATCH: usize = 200;

/// The `k`-th batch of `items` cut into consecutive batches of `size`.
pub open spec fn batch_of<T>(items: Seq<T>, size: nat, k: int) -> Seq<T> {
    let lo = k * size;
    let hi = if (k + 1) * size < items.len() {
        (k + 1) * size
    } else {
        items.len() as int
    };
    items.subrange(lo, hi)
}

/// Number of batches of `size` that `n` items make (the last may be short).
pub open spec fn batch_count(n: nat, size: nat) -> nat {
    if n % size == 0 {
        n / size
    } else {
        n / size + 1
    }
}

proof fn lemma_batch_step(n: int, size: int, k: int)
    requires
        size > 0,
        0 <= k,
        k * size < n,
    ensures
        k < batch_count(n as nat, size as nat),
        (k + 1) * size >= n ==> k + 1 == batch_count(n as nat, size as nat),
        (k + 1) * size < n ==> k + 1 < batch_count(n as nat, size as nat),
        k * size + size == (k + 1) * size,
{
    assert(k * size + size == (k + 1) * size) by (nonlinear_arith);
    let q = n / size;
    let m = n % size;
    assert(n == q * size + m && 0 <= m < size) by (nonlinear_arith)
        requires
            size > 0,
            q == n / size,
            m == n % size,
    ;
    assert(k <= q) by (nonlinear_arith)
        requires
            k * size < n,
            n == q * size + m,
            m < size,
            size > 0,
            0 <= k,
    ;
    if (k + 1) * size >= n {
        assert(k + 1 == batch_count(n as nat, size as nat)) by (nonlinear_arith)
            requires
                (k + 1) * size >= n,
                k * size < n,
                n == q * size + m,
                0 <= m < size,
                size > 0,
                k <= q,
                batch_count(n as nat, size as nat) == if m == 0 { q } else { q + 1 },
        ;
    } else {
        assert(k + 1 < batch_count(n as nat, size as nat)) by (nonlinear_arith)
            requires
                (k + 1) * size < n,
                n == q * size + m,
                0 <= m < size,
                size > 0,
                batch_count(n as nat, size as nat) == if m == 0 { q } else { q + 1 },
        ;
    }
}

proof fn lemma_index_in_batch(n: nat, size: nat, i: int)
    requires
        size > 0,
        0 <= i < n,
    ensures
        i / (size as int) < batch_count(n, size),
        i == (i / (size as int)) * (size as int) + i % (size as int),
        0 <= i % (size as int) < size,
{
    let z = size as int;
    let k = i / z;
    let m = i % z;
    assert(i == k * z + m && 0 <= m < z && k >= 0) by (nonlinear_arith)
        requires
            z > 0,
            i >= 0,
            k == i / z,
            m == i % z,
    ;
    lemma_batch_step(n as int, z, k);
}

/// Batching loses and reorders nothing: item `i` is item `i % size` of
/// batch `i / size`, which is one of the batches.
pub proof fn lemma_batch_position<T>(items: Seq<T>, size: nat, i: int)
    requires
        size > 0,
        0 <= i < items.len(),
    ensures
        i / (size as int) < batch_count(items.len(), size),
        items[i] == batch_of(items, size, i / (size as int))[i % (size as int)],
{
    lemma_index_in_batch(items.len(), size, i);
    let z = size as int;
    let k = i / z;
    lemma_batch_step(items.len() as int, z, k);
}

/// No batch holds more than `size` items.
pub proof fn lemma_batch_size<T>(items: Seq<T>, size: nat, k: int)
    requires
        size > 0,
        0 <= k < batch_count(items.len(), size),
    ensures
        batch_of(items, size, k).len() <= size,
        batch_of(items, size, k).len() > 0,
        k * (size as int) < items.len(),
{
    let n = items.len() as int;
    let z = size as int;
    let q = n / z;
    let m = n % z;
    assert(n == q * z + m && 0 <= m < z) by (nonlinear_arith)
        requires
            z > 0,
            q == n / z,
            m == n % z,
    ;
    assert(k * z < n) by (nonlinear_arith)
        requires
            0 <= k,
            k < batch_count(n as nat, z as nat),
            batch_count(n as nat, z as nat) == if m == 0 {
                q
            } else {
                q + 1
            },
            n == q * z + m,
            0 <= m < z,
            z > 0,
    ;
    assert(k * z + z == (k + 1) * z) by (nonlinear_arith);
}

/// Cuts `items` into consecutive batches of `size` (the last may be
/// shorter), as `slice::chunks` does.
pub fn batches(items: &Vec<String>, size: usize) -> (r: Vec<Vec<String>>)
    requires
        size > 0,
    ensures
        r@.len() == batch_count(items@.len(), size as nat),
        forall|k: int| 0 <= k < r@.len() ==> (#[trigger] r@[k])@ == batch_of(items@, size as nat, k),
{
    let n = items.len();
    let mut r: Vec<Vec<String>> = Vec::new();
    let mut start: usize = 0;
    if n == 0 {
        return r;
    }
    proof {
        assert(0 * (size as int) == 0);
        lemma_batch_step(n as int, size as int, 0);
    }
    while start < n
        invariant
            n == items@.len(),
            size > 0,
            start <= n,
            start < n ==> start == r@.len() * size,
            start < n ==> r@.len() < batch_count(n as nat, size as nat),
            start >= n ==> r@.len() == batch_count(n as nat, size as nat),
            forall|k: int| 0 <= k < r@.len() ==> (#[trigger] r@[k])@ == batch_of(items@, size as nat, k),
        decreases n - start,
    {
        proof {
            lemma_batch_step(n as int, size as int, r@.len() as int);
        }
        let end: usize = if n - start > size {
            start + size
        } else {
            n
        };
        let mut b: Vec<String> = Vec::new();
        let mut j: usize = start;
        while j < end
            invariant
                start <= j <= end <= n,
                n == items@.len(),
                b@ == items@.subrange(start as int, j as int),
            decreases end - j,
        {
            b.push(items[j].clone());
            assert(b@ =~= items@.subrange(start as int, j + 1));
            j += 1;
        }
        let ghost k = r@.len() as int;
        assert(b@ == batch_of(items@, size as nat, k));
        r.push(b);
        start = end;
    }
    r
}

} // verus!
