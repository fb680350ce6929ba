//! The backtest runtime: validates a run's configuration, holds each
//! instrument's aligned candles, hands out history windows, and steps
//! simulated time minute by minute, matching resting orders on each bar.
use vstd::prelude::*;

use crate::amount::{Amount, AMOUNT_ONE};
use crate::candle::{row_time, Candle, CandleTable};
use crate::context::{placed_order, with_orders, Context};
use crate::error::LedgerError;
use crate::order::{has_key, OrderView};
use crate::model::{OrderStatus, RunMode};
use crate::model::{TradeAction, TradeMethod, TradeSide};
use crate::order::{opt_str_view, Order};
use crate::ledger::order_stepped;
use crate::error::{ConfigError, Error};
use crate::position::{flat_position, has_code, Symbol, SymbolCode, SymbolView};
use crate::time::{floor_div_mod, instant_of_literal, str_to_time, Time, NANOS_PER_MINUTE};
use crate::wallet::Volume;

verus! {

/// One configured instrument: catalog entry, taker and maker fee rates,
/// and leverage.
pub struct SymbolConfig {
    pub code: SymbolCode,
    pub taker: Amount,
    pub maker: Amount,
    pub lever: Amount,
}

pub struct SymbolConfigView {
    pub code: Seq<char>,
    pub taker: Amount,
    pub maker: Amount,
    pub lever: Amount,
}

impl View for SymbolConfig {
    type V = SymbolConfigView;

    open spec fn view(&self) -> SymbolConfigView {
        SymbolConfigView { code: self.code.code@, taker: self.taker, maker: self.maker, lever: self.lever }
    }
}

/// What is wrong with instrument `c` given the ones configured before it.
pub open spec fn symbol_error(prefix: Seq<SymbolConfigView>, c: SymbolConfigView) -> Option<
    ConfigError,
> {
    if exists|j: int| 0 <= j < prefix.len() && prefix[j].code == c.code {
        Some(ConfigError::DuplicateSymbol)
    } else if c.lever.units % AMOUNT_ONE != 0 {
        Some(ConfigError::FractionalLeverage)
    } else if c.lever.units < AMOUNT_ONE {
        Some(ConfigError::NonPositiveLeverage)
    } else {
        None
    }
}

/// The first problem in a list of instruments, checked in order.
pub open spec fn symbols_error(s: Seq<SymbolConfigView>) -> Option<ConfigError>
    decreases s.len(),
{
    if s.len() == 0 {
        None
    } else {
        match symbols_error(s.drop_last()) {
            Some(e) => Some(e),
            None => symbol_error(s.drop_last(), s.last()),
        }
    }
}

/// The start of the minute holding `t`.
pub open spec fn minute_floor(t: int) -> int {
    t - t % (NANOS_PER_MINUTE as int)
}

/// Why a run with these settings is refused, if it is: the time range
/// (after truncating both ends to the minute, `begin` must come first, the
/// history before it must be representable and the grid must have fewer
/// than `u32::MAX` rows), the history size, the instruments in order, then
/// the balances.
pub open spec fn config_error(
    begin: int,
    end: int,
    symbols: Seq<SymbolConfigView>,
    spot: int,
    swap: int,
    history_size: int,
) -> Option<ConfigError> {
    let b = minute_floor(begin);
    let e = minute_floor(end);
    if b < i128::MIN || e < i128::MIN || b >= e {
        Some(ConfigError::InvalidTimeRange)
    } else if history_size == 0 {
        Some(ConfigError::ZeroHistorySize)
    } else if b - history_size * NANOS_PER_MINUTE < i128::MIN || history_size + bar_count_of(b, e)
        > u32::MAX {
        Some(ConfigError::InvalidTimeRange)
    } else {
        match symbols_error(symbols) {
            Some(x) => Some(x),
            None => if spot < 0 || swap < 0 {
                Some(ConfigError::NegativeBalance)
            } else if spot == 0 && swap == 0 {
                Some(ConfigError::EmptyBalance)
            } else {
                None
            },
        }
    }
}

pub open spec fn config_views(s: Seq<SymbolConfig>) -> Seq<SymbolConfigView> {
    s.map_values(|c: SymbolConfig| c@)
}

/// A validated backtest run.
pub struct Backtest {
    pub context: Context,
    pub begin: Time,
    pub end: Time,
    pub history_size: usize,
    pub force_sync_data: bool,
    pub candles: Vec<CandleTable>,
    /// Bar events issued so far.
    pub steps: usize,
}

/// `bt` is the run freshly built from these settings: both ends truncated
/// to the minute, the clock at `begin`, no bar event yet, no candles, each
/// wallet holding its whole balance available, and one flat position per
/// configured instrument, in order, with its fees and leverage.
pub open spec fn built(
    bt: Backtest,
    begin: int,
    end: int,
    symbols: Seq<SymbolConfig>,
    spot: Amount,
    swap: Amount,
    history_size: usize,
    force_sync_data: bool,
) -> bool {
    &&& bt.begin.nanos == minute_floor(begin)
    &&& bt.end.nanos == minute_floor(end)
    &&& bt.history_size == history_size
    &&& bt.force_sync_data == force_sync_data
    &&& bt.steps == 0
    &&& bt.context.time == bt.begin
    &&& bt.context.mode == RunMode::Backtest
    &&& bt.context.spot == Volume { total: spot, avail: spot, frozen: Amount { units: 0 } }
    &&& bt.context.swap == Volume { total: swap, avail: swap, frozen: Amount { units: 0 } }
    &&& bt.context.symbols@.len() == symbols.len()
    &&& forall|i: int|
        0 <= i < symbols.len() ==> #[trigger] bt.context.symbols@[i] == (
            symbols[i].code.code@,
            SymbolView {
                code: symbols[i].code@,
                taker: symbols[i].taker,
                maker: symbols[i].maker,
                position: flat_position(symbols[i].lever),
            },
        )
    &&& forall|i: int| 0 <= i < bt.candles@.len() ==> #[trigger] bt.candles@[i].rows@.len() == 0
}

/// The bar in row `row` of a table, or `None` past its end or where the
/// minute has no data.
pub open spec fn bar_of(table: CandleTable, row: int) -> Option<Candle> {
    if 0 <= row < table.rows@.len() {
        table.rows@[row]
    } else {
        None
    }
}

/// Number of minutes from `begin` to `end`, both included.
pub open spec fn bar_count_of(begin: int, end: int) -> int {
    (end - begin) / (NANOS_PER_MINUTE as int) + 1
}

impl Backtest {
    pub open spec fn steps_done(&self) -> int {
        self.steps as int
    }

    pub open spec fn grid_start_spec(&self) -> int {
        self.begin.nanos - self.history_size * NANOS_PER_MINUTE
    }

    /// Rows of each aligned candle table: the history before `begin` and
    /// every minute from `begin` to `end`.
    pub open spec fn grid_len_spec(&self) -> int {
        self.history_size + bar_count_of(self.begin.nanos as int, self.end.nanos as int)
    }

    pub open spec fn wf(&self) -> bool {
        &&& self.context.wf()
        &&& self.begin.nanos % NANOS_PER_MINUTE == 0
        &&& self.end.nanos % NANOS_PER_MINUTE == 0
        &&& self.begin.nanos < self.end.nanos
        &&& self.history_size > 0
        &&& self.grid_start_spec() >= i128::MIN
        &&& self.candles@.len() == self.context.symbols@.len()
        &&& forall|i: int|
            0 <= i < self.candles@.len() ==> #[trigger] self.candles@[i].rows@.len() == 0 || (
            self.candles@[i].start.nanos == self.grid_start_spec()
                && self.candles@[i].rows@.len() == self.grid_len_spec())
        &&& self.steps_done() <= bar_count_of(self.begin.nanos as int, self.end.nanos as int)
        &&& self.grid_len_spec() <= u32::MAX
        &&& self.context.time.nanos == self.begin.nanos + self.cursor() * NANOS_PER_MINUTE
    }

    /// Minutes since `begin` of the current simulation time: the minute of
    /// the last bar event, or `begin` before the first.
    pub open spec fn cursor(&self) -> int {
        if self.steps == 0 {
            0
        } else {
            self.steps - 1
        }
    }

    /// Validates and builds a run from its settings, with the time range
    /// given as literals (see `str_to_time`).
    pub fn new(
        begin: &str,
        end: &str,
        symbols: Vec<SymbolConfig>,
        spot: Amount,
        swap: Amount,
        history_size: usize,
        force_sync_data: bool,
    ) -> (r: Result<Backtest, Error>)
        ensures
            (instant_of_literal(begin@) is None || instant_of_literal(end@) is None) ==> r
                == Err::<Backtest, Error>(Error::TimeFormat),
            r is Ok ==> r->Ok_0.wf(),
            (instant_of_literal(begin@) is Some && instant_of_literal(end@) is Some) ==> match r {
                Ok(bt) => config_error(
                    instant_of_literal(begin@)->Some_0,
                    instant_of_literal(end@)->Some_0,
                    config_views(symbols@),
                    spot.units as int,
                    swap.units as int,
                    history_size as int,
                ) is None && built(
                    bt,
                    instant_of_literal(begin@)->Some_0,
                    instant_of_literal(end@)->Some_0,
                    symbols@,
                    spot,
                    swap,
                    history_size,
                    force_sync_data,
                ),
                Err(e) => config_error(
                    instant_of_literal(begin@)->Some_0,
                    instant_of_literal(end@)->Some_0,
                    config_views(symbols@),
                    spot.units as int,
                    swap.units as int,
                    history_size as int,
                ) matches Some(c) && e == Error::Config(c),
            },
    {
        let b = match str_to_time(begin) {
            Ok(t) => t,
            Err(e) => return Err(e),
        };
        let e = match str_to_time(end) {
            Ok(t) => t,
            Err(e) => return Err(e),
        };
        Backtest::from_times(b, e, symbols, spot, swap, history_size, force_sync_data)
    }

    /// Validates and builds a run. Refused, with the first `ConfigError`
    /// of `config_error`, before anything is built.
    pub fn from_times(
        begin: Time,
        end: Time,
        symbols: Vec<SymbolConfig>,
        spot: Amount,
        swap: Amount,
        history_size: usize,
        force_sync_data: bool,
    ) -> (r: Result<Backtest, Error>)
        ensures
            match r {
                Ok(bt) => {
                    &&& config_error(
                        begin.nanos as int,
                        end.nanos as int,
                        config_views(symbols@),
                        spot.units as int,
                        swap.units as int,
                        history_size as int,
                    ) is None
                    &&& bt.wf()
                    &&& built(bt, begin.nanos as int, end.nanos as int, symbols@, spot, swap, history_size, force_sync_data)
                },
                Err(e) => config_error(
                    begin.nanos as int,
                    end.nanos as int,
                    config_views(symbols@),
                    spot.units as int,
                    swap.units as int,
                    history_size as int,
                ) matches Some(c) && e == Error::Config(c),
            },
    {
        let bf = match minute_floor_exec(begin.nanos) {
            Some(x) => x,
            None => return Err(Error::Config(ConfigError::InvalidTimeRange)),
        };
        let ef = match minute_floor_exec(end.nanos) {
            Some(x) => x,
            None => return Err(Error::Config(ConfigError::InvalidTimeRange)),
        };
        if bf >= ef {
            return Err(Error::Config(ConfigError::InvalidTimeRange));
        }
        if history_size == 0 {
            return Err(Error::Config(ConfigError::ZeroHistorySize));
        }
        let back: i128 = (history_size as i128) * NANOS_PER_MINUTE;
        if bf.checked_sub(back).is_none() {
            return Err(Error::Config(ConfigError::InvalidTimeRange));
        }
        let span = match ef.checked_sub(bf) {
            Some(x) => x,
            None => {
                proof {
                    lemma_long_span(bf as int, ef as int);
                }
                return Err(Error::Config(ConfigError::InvalidTimeRange));
            },
        };
        if (history_size as i128) + span / NANOS_PER_MINUTE + 1 > u32::MAX as i128 {
            return Err(Error::Config(ConfigError::InvalidTimeRange));
        }
        let b = Time { nanos: bf };
        let e = Time { nanos: ef };
        let mut context = Context::new();
        let ghost all = config_views(symbols@);
        let n = symbols.len();
        let mut candles: Vec<CandleTable> = Vec::new();
        let mut i: usize = 0;
        while i < n
            invariant
                n == symbols@.len(),
                all == config_views(symbols@),
                i <= n,
                bf == minute_floor(begin.nanos as int),
                ef == minute_floor(end.nanos as int),
                bf < ef,
                history_size > 0,
                bf - history_size * NANOS_PER_MINUTE >= i128::MIN,
                history_size + bar_count_of(bf as int, ef as int) <= u32::MAX,
                context.wf(),
                context.symbols@.len() == i,
                candles@.len() == i,
                context.time.nanos == 0,
                context.spot.total.units == 0 && context.swap.total.units == 0,
                symbols_error(all.take(i as int)) is None,
                forall|k: int| 0 <= k < i ==> #[trigger] candles@[k].rows@.len() == 0,
                context.mode == RunMode::Backtest,
                forall|k: int|
                    0 <= k < i ==> #[trigger] context.symbols@[k] == (
                        symbols@[k].code.code@,
                        SymbolView {
                            code: symbols@[k].code@,
                            taker: symbols@[k].taker,
                            maker: symbols@[k].maker,
                            position: flat_position(symbols@[k].lever),
                        },
                    ),
            decreases n - i,
        {
            let c = &symbols[i];
            assert(all.take(i as int + 1).drop_last() == all.take(i as int));
            assert(all.take(i as int + 1).last() == all[i as int]);
            assert(all[i as int] == c@);
            if context.symbols.contains(c.code.code.as_str()) {
                proof {
                    let j = choose|j: int| 0 <= j < i && context.symbols@[j].0 == c.code.code@;
                    assert(all.take(i as int)[j].code == c@.code);
                    assert(symbol_error(all.take(i as int), all[i as int]) == Some(ConfigError::DuplicateSymbol));
                    assert(symbols_error(all.take(i as int + 1)) == Some(ConfigError::DuplicateSymbol));
                    lemma_symbols_error_prefix(all, i as int + 1);
                }
                return Err(Error::Config(ConfigError::DuplicateSymbol));
            }
            proof {
                assert forall|j: int| 0 <= j < all.take(i as int).len() implies all.take(i as int)[j].code != c@.code by {
                    assert(context.symbols@[j].0 == symbols@[j].code.code@);
                }
            }
            if !c.lever.is_whole() {
                proof {
                    assert(symbol_error(all.take(i as int), all[i as int]) == Some(ConfigError::FractionalLeverage));
                    assert(symbols_error(all.take(i as int + 1)) == Some(ConfigError::FractionalLeverage));
                    lemma_symbols_error_prefix(all, i as int + 1);
                }
                return Err(Error::Config(ConfigError::FractionalLeverage));
            }
            if c.lever.units < AMOUNT_ONE {
                proof {
                    lemma_symbols_error_prefix(all, i as int + 1);
                }
                return Err(Error::Config(ConfigError::NonPositiveLeverage));
            }
            let sym = Symbol::new(c.code.clone(), c.taker, c.maker, c.lever);
            let ghost syms0 = context.symbols@;
            let ghost entry = (sym.code.code@, sym@);
            context.symbols.insert_new(sym);
            proof {
                crate::holdings::lemma_market_push(syms0, entry, crate::model::Market::Spot);
                crate::holdings::lemma_market_push(syms0, entry, crate::model::Market::Swap);
            }
            candles.push(CandleTable::empty());
            i = i + 1;
        }
        assert(all.take(n as int) == all);
        if spot.units < 0 || swap.units < 0 {
            return Err(Error::Config(ConfigError::NegativeBalance));
        }
        if spot.units == 0 && swap.units == 0 {
            return Err(Error::Config(ConfigError::EmptyBalance));
        }
        context.spot = Volume::new(spot);
        context.swap = Volume::new(swap);
        context.time = b;
        Ok(Backtest { context, begin: b, end: e, history_size, force_sync_data, candles, steps: 0 })
    }

    /// Places an order at the current simulation time; see
    /// `Context::place_order`.
    pub fn place_order(
        &mut self,
        code: &str,
        method: TradeMethod,
        side: TradeSide,
        action: TradeAction,
        size: Amount,
        price: Amount,
        remark: Option<String>,
    ) -> (r: Result<Order, Error>)
        requires
            old(self).wf(),
        ensures
            final(self).wf(),
            final(self).steps == old(self).steps,
            final(self).candles@ == old(self).candles@,
            match r {
                Ok(o) => o@ == placed_order(
                    code@,
                    o.id,
                    method,
                    side,
                    action,
                    size,
                    price,
                    opt_str_view(remark),
                    old(self).context.time,
                ),
                Err(_) => final(self).context.symbols@ == old(self).context.symbols@,
            },
            forall|i: int|
                0 <= i < old(self).context.symbols@.len() && old(self).context.symbols@[i].0 == code@ && r is Ok
                    ==> final(self).context.symbols@ == old(self).context.symbols@.update(
                    i,
                    (
                        code@,
                        with_orders(
                            old(self).context.symbols@[i].1,
                            old(self).context.symbols@[i].1.position.orders.push(
                                (r->Ok_0.id, r->Ok_0@),
                            ),
                        ),
                    ),
                ),
            !has_code(old(self).context.symbols@, code@) ==> r == Err::<Order, Error>(
                Error::Config(ConfigError::UnknownSymbol),
            ),
            has_code(old(self).context.symbols@, code@) && (size.units <= 0 || price.units <= 0) ==> r
                == Err::<Order, Error>(Error::Ledger(LedgerError::InvalidAmount)),
            has_code(old(self).context.symbols@, code@) && size.units > 0 && price.units > 0 ==> r is Ok
                || r == Err::<Order, Error>(Error::Ledger(LedgerError::DuplicateOrderId)),
            forall|i: int|
                0 <= i < old(self).context.symbols@.len() && old(self).context.symbols@[i].0 == code@ && r is Ok
                    ==> !has_key(old(self).context.symbols@[i].1.position.orders, r->Ok_0.id),
            final(self).context.spot == old(self).context.spot,
            final(self).context.swap == old(self).context.swap,
            final(self).context.time == old(self).context.time,
            final(self).context.symbols@.len() == old(self).context.symbols@.len(),
    {
        self.context.place_order(code, method, side, action, size, price, remark)
    }

    /// Asks to cancel a pending order; see `Context::cancel_order`.
    pub fn cancel_order(&mut self, code: &str, id: u128) -> (r: Result<(), Error>)
        requires
            old(self).wf(),
        ensures
            final(self).wf(),
            final(self).steps == old(self).steps,
            final(self).candles@ == old(self).candles@,
            final(self).context.spot == old(self).context.spot,
            final(self).context.swap == old(self).context.swap,
            final(self).context.time == old(self).context.time,
            final(self).context.symbols@.len() == old(self).context.symbols@.len(),
            !has_code(old(self).context.symbols@, code@) ==> r == Err::<(), Error>(
                Error::Config(ConfigError::UnknownSymbol),
            ),
            r is Err ==> final(self).context.symbols@ == old(self).context.symbols@,
            forall|i: int|
                0 <= i < old(self).context.symbols@.len() && old(self).context.symbols@[i].0 == code@ ==> {
                    let orders = old(self).context.symbols@[i].1.position.orders;
                    &&& !has_key(orders, id) ==> r == Err::<(), Error>(
                        Error::Ledger(LedgerError::UnknownOrder),
                    )
                    &&& forall|j: int|
                        0 <= j < orders.len() && orders[j].0 == id ==> {
                            &&& orders[j].1.status != OrderStatus::Pending ==> r == Err::<
                                (),
                                Error,
                            >(Error::Ledger(LedgerError::NotCancellable))
                            &&& orders[j].1.status == OrderStatus::Pending ==> r is Ok
                                && final(self).context.symbols@ == old(self).context.symbols@.update(
                                i,
                                (
                                    code@,
                                    with_orders(
                                        old(self).context.symbols@[i].1,
                                        orders.update(
                                            j,
                                            (
                                                id,
                                                OrderView {
                                                    status: OrderStatus::Cancelling,
                                                    update_time: old(self).context.time,
                                                    ..orders[j].1
                                                },
                                            ),
                                        ),
                                    ),
                                ),
                            )
                        }
                },
    {
        self.context.cancel_order(code, id)
    }

    /// Number of bar events of the run: every minute from `begin` to `end`,
    /// both included.
    pub fn bar_count(&self) -> (r: usize)
        requires
            self.wf(),
        ensures
            r == bar_count_of(self.begin.nanos as int, self.end.nanos as int),
    {
        proof {
            lemma_short_span(self.begin.nanos as int, self.end.nanos as int);
        }
        ((self.end.nanos - self.begin.nanos) / NANOS_PER_MINUTE + 1) as usize
    }

    /// The first minute of the aligned candle tables: `history_size`
    /// minutes before `begin`.
    pub fn grid_start(&self) -> (r: Time)
        requires
            self.wf(),
        ensures
            r.nanos == self.grid_start_spec(),
    {
        Time {
            nanos: self.begin.nanos - (self.history_size as i128) * NANOS_PER_MINUTE,
        }
    }

    /// Rows of each aligned candle table.
    pub fn grid_len(&self) -> (r: usize)
        requires
            self.wf(),
        ensures
            r == self.grid_len_spec(),
    {
        self.history_size + self.bar_count()
    }

    /// Aligns the bars `src` of the instrument `code` onto the run's grid
    /// and installs the table: one row per minute from `history_size`
    /// minutes before `begin` to `end`, each holding that minute's bar or
    /// `None`.
    pub fn install_candles(&mut self, code: &str, src: &Vec<Candle>) -> (r: Result<(), Error>)
        requires
            old(self).wf(),
        ensures
            final(self).wf(),
            final(self).context == old(self).context,
            final(self).steps == old(self).steps,
            !has_code(old(self).context.symbols@, code@) ==> r == Err::<(), Error>(
                Error::Config(ConfigError::UnknownSymbol),
            ),
            r is Err ==> final(self).candles@ == old(self).candles@,
            forall|i: int|
                0 <= i < old(self).context.symbols@.len() && old(self).context.symbols@[i].0
                    == code@ ==> {
                    &&& r is Ok
                    &&& final(self).candles@ == old(self).candles@.update(i, final(self).candles@[i])
                    &&& final(self).candles@[i].start.nanos == old(self).grid_start_spec()
                    &&& final(self).candles@[i].rows@.len() == old(self).grid_len_spec()
                    &&& final(self).candles@[i].joins(src@)
                },
    {
        let idx = match self.context.symbols.index_of(code) {
            Some(i) => i,
            None => return Err(Error::Config(ConfigError::UnknownSymbol)),
        };
        proof {
            assert forall|i: int|
                0 <= i < self.context.symbols@.len() && self.context.symbols@[i].0 == code@ implies i
                == idx by {}
            lemma_grid_end(self.begin.nanos as int, self.end.nanos as int, self.history_size as int);
        }
        let start = self.grid_start();
        let count = self.grid_len();
        let table = CandleTable::align(start, count, src);
        self.candles.set(idx, table);
        Ok(())
    }

    /// The bars before `begin` for the instrument at position `idx`: the
    /// first `history_size` rows of its table.
    pub fn history_candles(&self, idx: usize) -> (r: Vec<Option<Candle>>)
        requires
            self.wf(),
            idx < self.candles@.len(),
        ensures
            r@ == self.candles@[idx as int].rows@.subrange(
                0,
                vstd::math::min(self.history_size as int, self.candles@[idx as int].rows@.len() as int),
            ),
    {
        self.candles[idx].window(0, self.history_size)
    }

    /// The `history_size` bars before the current simulation time for the
    /// instrument `code`, by position in its table; with `size`, only the
    /// last `size` of them.
    pub fn candles(&self, code: &str, size: Option<usize>) -> (r: Result<Vec<Option<Candle>>, Error>)
        requires
            self.wf(),
        ensures
            !has_code(self.context.symbols@, code@) ==> r == Err::<Vec<Option<Candle>>, Error>(
                Error::Config(ConfigError::UnknownSymbol),
            ),
            forall|i: int|
                0 <= i < self.context.symbols@.len() && self.context.symbols@[i].0 == code@ ==> {
                    let rows = self.candles@[i].rows@;
                    let w = rows.subrange(
                        vstd::math::min(self.cursor(), rows.len() as int),
                        vstd::math::min(self.cursor() + self.history_size, rows.len() as int),
                    );
                    &&& r is Ok
                    &&& r->Ok_0@ == match size {
                        Some(n) => if n < w.len() {
                            w.subrange(w.len() - n, w.len() as int)
                        } else {
                            w
                        },
                        None => w,
                    }
                },
    {
        let idx = match self.context.symbols.index_of(code) {
            Some(i) => i,
            None => return Err(Error::Config(ConfigError::UnknownSymbol)),
        };
        proof {
            assert forall|i: int|
                0 <= i < self.context.symbols@.len() && self.context.symbols@[i].0 == code@ implies i
                == idx by {}
        }
        let offset: usize = if self.steps == 0 {
            0
        } else {
            self.steps - 1
        };
        let w = self.candles[idx].window(offset, self.history_size);
        match size {
            Some(n) => Ok(last_rows(w, n)),
            None => Ok(w),
        }
    }

    /// Issues the next bar event: sets the simulation time to the next
    /// minute, from `begin` to `end` inclusive, and returns it; `None` once
    /// every minute has had its event.
    pub fn advance(&mut self) -> (r: Option<Time>)
        requires
            old(self).wf(),
        ensures
            final(self).wf(),
            final(self).begin == old(self).begin,
            final(self).end == old(self).end,
            final(self).history_size == old(self).history_size,
            final(self).candles@ == old(self).candles@,
            final(self).context.symbols@ == old(self).context.symbols@,
            final(self).context.spot == old(self).context.spot,
            final(self).context.swap == old(self).context.swap,
            match r {
                Some(t) => {
                    &&& old(self).steps < bar_count_of(old(self).begin.nanos as int, old(self).end.nanos as int)
                    &&& t.nanos == old(self).begin.nanos + old(self).steps * NANOS_PER_MINUTE
                    &&& final(self).steps == old(self).steps + 1
                    &&& final(self).context.time == t
                },
                None => {
                    &&& old(self).steps == bar_count_of(old(self).begin.nanos as int, old(self).end.nanos as int)
                    &&& final(self).steps == old(self).steps
                    &&& final(self).context.time == old(self).context.time
                },
            },
    {
        let n = self.bar_count();
        if self.steps >= n {
            return None;
        }
        proof {
            lemma_step_time(self.begin.nanos as int, self.end.nanos as int, self.steps as int);
        }
        let t = Time {
            nanos: self.begin.nanos + (self.steps as i128) * NANOS_PER_MINUTE,
        };
        self.context.time = t;
        self.steps = self.steps + 1;
        Some(t)
    }

    /// One minute of the run: issues the next bar event (see `advance`) and
    /// matches every instrument's orders against that minute's bar.
    pub fn step(&mut self) -> (r: Option<Time>)
        requires
            old(self).wf(),
        ensures
            final(self).wf(),
            final(self).begin == old(self).begin,
            final(self).end == old(self).end,
            final(self).candles@ == old(self).candles@,
            final(self).context.symbols@.len() == old(self).context.symbols@.len(),
            match r {
                Some(t) => {
                    &&& old(self).steps < bar_count_of(old(self).begin.nanos as int, old(self).end.nanos as int)
                    &&& t.nanos == old(self).begin.nanos + old(self).steps * NANOS_PER_MINUTE
                    &&& final(self).steps == old(self).steps + 1
                    &&& final(self).context.time == t
                },
                None => {
                    &&& old(self).steps == bar_count_of(old(self).begin.nanos as int, old(self).end.nanos as int)
                    &&& final(self).steps == old(self).steps
                    &&& final(self).context.symbols@ == old(self).context.symbols@
                },
            },
            forall|k: int|
                0 <= k < old(self).context.symbols@.len() ==> {
                    let before = old(self).context.symbols@[k].1.position.orders;
                    let after = (#[trigger] final(self).context.symbols@[k]).1.position.orders;
                    &&& after.len() == before.len()
                    &&& r is None ==> after == before
                    &&& r is Some ==> forall|j: int|
                        0 <= j < before.len() ==> after[j].0 == before[j].0 && order_stepped(
                            before[j].1,
                            #[trigger] after[j].1,
                            bar_of(final(self).candles@[k], final(self).history_size + old(self).steps),
                            final(self).context.time,
                        )
                },
    {
        let t = match self.advance() {
            Some(t) => t,
            None => {
                return None;
            },
        };
        let ghost mid = self.context.symbols@;
        let row = self.history_size + (self.steps - 1);
        let n = self.context.symbols.len();
        let mut k: usize = 0;
        while k < n
            invariant
                self.wf(),
                n == mid.len(),
                k <= n,
                self.context.time == t,
                self.steps >= 1,
                row == self.history_size + (self.steps - 1),
                self.candles@ == old(self).candles@,
                self.begin == old(self).begin,
                self.end == old(self).end,
                self.context.symbols@.len() == n,
                forall|q: int| k <= q < n ==> #[trigger] self.context.symbols@[q] == mid[q],
                forall|q: int|
                    0 <= q < k ==> {
                        let before = mid[q].1.position.orders;
                        let after = (#[trigger] self.context.symbols@[q]).1.position.orders;
                        &&& after.len() == before.len()
                        &&& forall|j: int|
                            0 <= j < before.len() ==> after[j].0 == before[j].0 && order_stepped(
                                before[j].1,
                                #[trigger] after[j].1,
                                bar_of(self.candles@[q], row as int),
                                t,
                            )
                    },
            decreases n - k,
        {
            let bar = if row < self.candles[k].rows.len() {
                self.candles[k].rows[row]
            } else {
                None
            };
            self.context.match_symbol(k, bar);
            k = k + 1;
        }
        Some(t)
    }

}


/// Any run with a duplicate instrument code, a fractional leverage, both
/// balances zero, or `begin` not before `end` (to the minute) is refused
/// with a configuration error; `from_times` then builds nothing.
pub proof fn invalid_configurations_are_rejected(
    begin: int,
    end: int,
    symbols: Seq<SymbolConfigView>,
    spot: int,
    swap: int,
    history_size: int,
)
    requires
        (exists|i: int, j: int|
            0 <= i < j < symbols.len() && #[trigger] symbols[i].code == #[trigger] symbols[j].code)
            || (exists|i: int| 0 <= i < symbols.len() && #[trigger] symbols[i].lever.units % AMOUNT_ONE != 0)
            || (spot == 0 && swap == 0) || minute_floor(begin) >= minute_floor(end),
    ensures
        config_error(begin, end, symbols, spot, swap, history_size) is Some,
{
    if exists|i: int, j: int| 0 <= i < j < symbols.len() && #[trigger] symbols[i].code == #[trigger] symbols[j].code {
        let (i, j) = choose|i: int, j: int|
            0 <= i < j < symbols.len() && #[trigger] symbols[i].code == #[trigger] symbols[j].code;
        assert(symbols.take(j)[i].code == symbols[j].code);
        lemma_symbol_error_spreads(symbols, j);
    } else if exists|i: int| 0 <= i < symbols.len() && #[trigger] symbols[i].lever.units % AMOUNT_ONE != 0 {
        let i = choose|i: int| 0 <= i < symbols.len() && #[trigger] symbols[i].lever.units % AMOUNT_ONE != 0;
        lemma_symbol_error_spreads(symbols, i);
    }
}

/// A problem with one instrument makes the whole list report a problem.
proof fn lemma_symbol_error_spreads(s: Seq<SymbolConfigView>, j: int)
    requires
        0 <= j < s.len(),
        symbol_error(s.take(j), s[j]) is Some,
    ensures
        symbols_error(s) is Some,
{
    assert(s.take(j + 1).drop_last() == s.take(j));
    assert(s.take(j + 1).last() == s[j]);
    assert(symbols_error(s.take(j + 1)) is Some);
    lemma_symbols_error_prefix(s, j + 1);
}

/// An installed candle table has exactly one row per minute from
/// `history_size` minutes before `begin` to `end`: its length is the number
/// of minutes elapsed from its first minute to `end`, plus one; row times
/// rise by one minute with no repeat; and every minute of that range is the
/// time of a row.
pub proof fn aligned_grid_is_complete(bt: &Backtest, k: int, t: int)
    requires
        bt.wf(),
        0 <= k < bt.candles@.len(),
        bt.candles@[k].rows@.len() > 0,
    ensures
        bt.candles@[k].start.nanos == bt.grid_start_spec(),
        bt.candles@[k].rows@.len() == (bt.end.nanos - bt.grid_start_spec()) / (NANOS_PER_MINUTE as int)
            + 1,
        row_time(bt.candles@[k].start, bt.candles@[k].rows@.len() - 1) == bt.end.nanos,
        forall|i: int|
            0 <= i < bt.candles@[k].rows@.len() - 1 ==> row_time(bt.candles@[k].start, i + 1)
                == #[trigger] row_time(bt.candles@[k].start, i) + NANOS_PER_MINUTE,
        bt.grid_start_spec() <= t <= bt.end.nanos && (t - bt.grid_start_spec()) % (
        NANOS_PER_MINUTE as int) == 0 ==> exists|i: int|
            0 <= i < bt.candles@[k].rows@.len() && row_time(bt.candles@[k].start, i) == t,
{
    let tbl = bt.candles@[k];
    assert(tbl.start.nanos == bt.grid_start_spec() && tbl.rows@.len() == bt.grid_len_spec());
    let d = NANOS_PER_MINUTE as int;
    let b = bt.begin.nanos as int;
    let e = bt.end.nanos as int;
    let h = bt.history_size as int;
    let g = b - h * d;
    lemma_whole_minutes(b, e);
    let q = (e - b) / d;
    assert(e - g == (h + q) * d) by (nonlinear_arith)
        requires
            g == b - h * d,
            q * d == e - b,
    ;
    vstd::arithmetic::div_mod::lemma_div_multiples_vanish(h + q, d);
    assert(row_time(tbl.start, tbl.rows@.len() - 1) == e) by (nonlinear_arith)
        requires
            tbl.start.nanos == g,
            tbl.rows@.len() == h + q + 1,
            e - g == (h + q) * d,
            d == NANOS_PER_MINUTE,
    ;
    assert forall|i: int| 0 <= i < tbl.rows@.len() - 1 implies row_time(tbl.start, i + 1) == #[trigger] row_time(
        tbl.start,
        i,
    ) + NANOS_PER_MINUTE by {
        assert((i + 1) * d == i * d + d) by (nonlinear_arith);
    }
    if g <= t <= e && (t - g) % d == 0 {
        vstd::arithmetic::div_mod::lemma_fundamental_div_mod(t - g, d);
        let i = (t - g) / d;
        vstd::arithmetic::div_mod::lemma_div_is_ordered(t - g, e - g, d);
        assert(row_time(tbl.start, i) == t);
    }
}

/// A run issues one bar event per minute from `begin` to `end`, both
/// included: event `k` is at `begin + k` minutes, the last one at `end`.
pub proof fn bar_events_cover_range(bt: &Backtest)
    requires
        bt.wf(),
    ensures
        bar_count_of(bt.begin.nanos as int, bt.end.nanos as int) == (bt.end.nanos - bt.begin.nanos) / (
        NANOS_PER_MINUTE as int) + 1,
        bt.begin.nanos + (bar_count_of(bt.begin.nanos as int, bt.end.nanos as int) - 1)
            * NANOS_PER_MINUTE == bt.end.nanos,
{
    lemma_whole_minutes(bt.begin.nanos as int, bt.end.nanos as int);
}

/// The last `n` rows of `v` (all of them where it has fewer).
fn last_rows(v: Vec<Option<Candle>>, n: usize) -> (r: Vec<Option<Candle>>)
    ensures
        r@ == if n < v@.len() {
            v@.subrange(v@.len() - n, v@.len() as int)
        } else {
            v@
        },
{
    if n >= v.len() {
        return v;
    }
    let mut out: Vec<Option<Candle>> = Vec::new();
    let mut i: usize = v.len() - n;
    while i < v.len()
        invariant
            n < v@.len(),
            v@.len() - n <= i <= v@.len(),
            out@ == v@.subrange(v@.len() - n, i as int),
        decreases v@.len() - i,
    {
        out.push(v[i]);
        i = i + 1;
    }
    out
}

/// The grid ends one minute after `end`.
proof fn lemma_grid_end(b: int, e: int, h: int)
    requires
        b % (NANOS_PER_MINUTE as int) == 0,
        e % (NANOS_PER_MINUTE as int) == 0,
        b < e,
    ensures
        (b - h * NANOS_PER_MINUTE) + (h + bar_count_of(b, e)) * NANOS_PER_MINUTE == e
            + NANOS_PER_MINUTE,
{
    let d = NANOS_PER_MINUTE as int;
    lemma_whole_minutes(b, e);
    assert((b - h * d) + (h + (e - b) / d + 1) * d == b + ((e - b) / d) * d + d) by (nonlinear_arith);
}

/// Two minute-aligned times are a whole number of minutes apart.
proof fn lemma_whole_minutes(b: int, e: int)
    requires
        b % (NANOS_PER_MINUTE as int) == 0,
        e % (NANOS_PER_MINUTE as int) == 0,
        b <= e,
    ensures
        ((e - b) / (NANOS_PER_MINUTE as int)) * NANOS_PER_MINUTE == e - b,
        (e - b) % (NANOS_PER_MINUTE as int) == 0,
{
    let d = NANOS_PER_MINUTE as int;
    vstd::arithmetic::div_mod::lemma_fundamental_div_mod(b, d);
    vstd::arithmetic::div_mod::lemma_fundamental_div_mod(e, d);
    let qb = b / d;
    let qe = e / d;
    assert(e - b == (qe - qb) * d) by (nonlinear_arith)
        requires
            b == d * qb + b % d,
            e == d * qe + e % d,
            b % d == 0,
            e % d == 0,
    ;
    vstd::arithmetic::div_mod::lemma_div_multiples_vanish(qe - qb, d);
    vstd::arithmetic::div_mod::lemma_mod_multiples_basic(qe - qb, d);
}

/// The minute of bar event `k` lies within `[begin, end]`.
proof fn lemma_step_time(b: int, e: int, k: int)
    requires
        b % (NANOS_PER_MINUTE as int) == 0,
        e % (NANOS_PER_MINUTE as int) == 0,
        b < e,
        0 <= k < bar_count_of(b, e),
    ensures
        b <= b + k * NANOS_PER_MINUTE <= e,
{
    let d = NANOS_PER_MINUTE as int;
    lemma_whole_minutes(b, e);
    assert(k * d <= ((e - b) / d) * d) by (nonlinear_arith)
        requires
            k <= (e - b) / d,
            d > 0,
    ;
}

/// A span that does not fit `i128` holds more minutes than `u32::MAX`.
proof fn lemma_long_span(b: int, e: int)
    requires
        e - b > i128::MAX,
    ensures
        bar_count_of(b, e) > u32::MAX,
{
    let d = NANOS_PER_MINUTE as int;
    vstd::arithmetic::div_mod::lemma_fundamental_div_mod(e - b, d);
    let q = (e - b) / d;
    assert(q > u32::MAX) by (nonlinear_arith)
        requires
            e - b == d * q + (e - b) % d,
            0 <= (e - b) % d < d,
            e - b > i128::MAX,
            d == 60_000_000_000,
    ;
}

/// A span of at most `u32::MAX` minutes fits `i128`.
proof fn lemma_short_span(b: int, e: int)
    requires
        b < e,
        bar_count_of(b, e) <= u32::MAX,
    ensures
        e - b <= i128::MAX,
{
    let d = NANOS_PER_MINUTE as int;
    vstd::arithmetic::div_mod::lemma_fundamental_div_mod(e - b, d);
    let q = (e - b) / d;
    assert(e - b <= i128::MAX) by (nonlinear_arith)
        requires
            e - b == d * q + (e - b) % d,
            0 <= (e - b) % d < d,
            q + 1 <= u32::MAX,
            d == 60_000_000_000,
    ;
}

/// Once some prefix of the instruments has a problem, the whole list
/// reports that problem.
proof fn lemma_symbols_error_prefix(s: Seq<SymbolConfigView>, i: int)
    requires
        0 <= i <= s.len(),
        symbols_error(s.take(i)) is Some,
    ensures
        symbols_error(s) == symbols_error(s.take(i)),
    decreases s.len() - i,
{
    if i < s.len() {
        assert(s.take(i + 1).drop_last() == s.take(i));
        lemma_symbols_error_prefix(s, i + 1);
    } else {
        assert(s.take(i) == s);
    }
}

/// The start of the minute holding `t`, where it is a `Time`.
fn minute_floor_exec(t: i128) -> (r: Option<i128>)
    ensures
        match r {
            Some(x) => x == minute_floor(t as int) && (x as int) % (NANOS_PER_MINUTE as int) == 0,
            None => minute_floor(t as int) < i128::MIN,
        },
{
    let (q, m) = floor_div_mod(t, NANOS_PER_MINUTE);
    proof {
        vstd::arithmetic::div_mod::lemma_fundamental_div_mod(t as int, NANOS_PER_MINUTE as int);
        vstd::arithmetic::div_mod::lemma_mod_multiples_basic(q as int, NANOS_PER_MINUTE as int);
        vstd::arithmetic::mul::lemma_mul_is_commutative(q as int, NANOS_PER_MINUTE as int);
    }
    t.checked_sub(m)
}


} // verus!
