//! The state of a run: simulation time, the spot and swap wallets, the
//! instruments with their positions and orders, and the log thresholds.
use vstd::prelude::*;

use crate::amount::Amount;
use crate::candle::Candle;
use crate::error::{ConfigError, Error, LedgerError};
use crate::ledger::{order_stepped, step_order};
use crate::model::{LogLevel, Market, OrderStatus, RunMode, TradeAction, TradeMethod, TradeSide};
use crate::order::{has_key, opt_str_view, Order, OrderView};
use crate::position::{has_code, symbol_view_wf, PositionView, SymbolMap, SymbolView};
use crate::time::Time;
use crate::wallet::Volume;
use crate::holdings::{
    lemma_market_bounds, lemma_market_update, lemma_reserved_bounds, lemma_reserved_filter,
    lemma_reserved_push, lemma_reserved_update, market_reserved, reserved, reserved_in,
    size_reserved,
};

verus! {

/// A new order as placed at `now`, before any matching.
pub open spec fn placed_order(
    code: Seq<char>,
    id: u128,
    method: TradeMethod,
    side: TradeSide,
    action: TradeAction,
    size: Amount,
    price: Amount,
    remark: Option<Seq<char>>,
    now: Time,
) -> OrderView {
    OrderView {
        code,
        id,
        method,
        side,
        action,
        status: OrderStatus::New,
        size,
        price,
        deal_size: Amount { units: 0 },
        deal_price: Amount { units: 0 },
        deal_fee: Amount { units: 0 },
        margin: Amount { units: 0 },
        remark,
        create_time: now,
        update_time: now,
    }
}

/// `s` with `orders` in place of its order table.
pub open spec fn with_orders(s: SymbolView, orders: Seq<(u128, OrderView)>) -> SymbolView {
    SymbolView { position: PositionView { orders, ..s.position }, ..s }
}

/// Relies on uuid's `Uuid::now_v7().as_u128()`: a fresh time-ordered id.
/// Nothing is promised of its value.
#[verifier::external_body]
fn fresh_order_id() -> u128 {
    uuid::Uuid::now_v7().as_u128()
}

/// Every balance of a well-formed context balances: for the spot and swap
/// wallets and for each instrument's margin and long and short sizes,
/// `total == avail + frozen`. And what is frozen is exactly what resting
/// orders hold: each wallet's frozen part is the sum of the reserves of
/// its market's accepted, resting opening orders, and each sub-position's
/// frozen size the sum of its resting closing orders. So a cancellation or
/// rejection gives back exactly what acceptance froze. Every operation on
/// a context (placing, cancelling, matching, removing orders, stepping)
/// keeps it well-formed.
pub proof fn balances_hold(ctx: &Context)
    requires
        ctx.wf(),
    ensures
        ctx.spot.total.units == ctx.spot.avail.units + ctx.spot.frozen.units,
        ctx.swap.total.units == ctx.swap.avail.units + ctx.swap.frozen.units,
        forall|i: int|
            0 <= i < ctx.symbols@.len() ==> {
                let p = (#[trigger] ctx.symbols@[i]).1.position;
                &&& p.margin.total.units == p.margin.avail.units + p.margin.frozen.units
                &&& p.long.size.total.units == p.long.size.avail.units + p.long.size.frozen.units
                &&& p.short.size.total.units == p.short.size.avail.units + p.short.size.frozen.units
                &&& p.long.size.frozen.units == size_reserved(p.orders, TradeSide::Long)
                &&& p.short.size.frozen.units == size_reserved(p.orders, TradeSide::Short)
            },
        ctx.spot.frozen.units == market_reserved(ctx.symbols@, Market::Spot),
        ctx.swap.frozen.units == market_reserved(ctx.symbols@, Market::Swap),
{
    assert forall|i: int| 0 <= i < ctx.symbols@.len() implies {
        let p = (#[trigger] ctx.symbols@[i]).1.position;
        &&& p.margin.total.units == p.margin.avail.units + p.margin.frozen.units
        &&& p.long.size.total.units == p.long.size.avail.units + p.long.size.frozen.units
        &&& p.short.size.total.units == p.short.size.avail.units + p.short.size.frozen.units
        &&& p.long.size.frozen.units == size_reserved(p.orders, TradeSide::Long)
        &&& p.short.size.frozen.units == size_reserved(p.orders, TradeSide::Short)
    } by {
        assert(symbol_view_wf(ctx.symbols@[i].1));
    }
}

/// The two log thresholds: engine messages and strategy messages.
#[derive(Clone, Copy, Debug, PartialEq, Eq, Structural)]
pub struct LogConfig {
    pub fuxi_level: LogLevel,
    pub strategy_level: LogLevel,
}

impl LogConfig {
    /// Both thresholds at `Info`.
    pub fn new() -> (r: LogConfig)
        ensures
            r.fuxi_level == LogLevel::Info,
            r.strategy_level == LogLevel::Info,
    {
        LogConfig { fuxi_level: LogLevel::Info, strategy_level: LogLevel::Info }
    }
}

/// A run's mutable state.
pub struct Context {
    pub mode: RunMode,
    pub time: Time,
    pub spot: Volume,
    pub swap: Volume,
    pub symbols: SymbolMap,
    pub engine_level: LogLevel,
    pub strategy_level: LogLevel,
}

impl Context {
    /// Every wallet well-formed, every instrument well-formed, and each
    /// wallet's frozen part exactly the reserves that the resting orders of
    /// its market's instruments hold.
    pub open spec fn wf(&self) -> bool {
        &&& self.spot.wf()
        &&& self.swap.wf()
        &&& self.symbols.wf()
        &&& self.spot.frozen.units == market_reserved(self.symbols@, Market::Spot)
        &&& self.swap.frozen.units == market_reserved(self.symbols@, Market::Swap)
    }

    /// An empty backtest context at the epoch, logging from `Info` up.
    pub fn new() -> (r: Context)
        ensures
            r.wf(),
            r.mode == RunMode::Backtest,
            r.time.nanos == 0,
            r.spot.total.units == 0,
            r.swap.total.units == 0,
            r.symbols@.len() == 0,
            r.engine_level == LogLevel::Info,
            r.strategy_level == LogLevel::Info,
    {
        Context {
            mode: RunMode::Backtest,
            time: Time { nanos: 0 },
            spot: Volume::default(),
            swap: Volume::default(),
            symbols: SymbolMap::new(),
            engine_level: LogLevel::Info,
            strategy_level: LogLevel::Info,
        }
    }

    /// Whether a message of `level` from the engine (`engine`) or from the
    /// strategy passes its threshold; messages below it are dropped.
    pub fn should_log(&self, engine: bool, level: LogLevel) -> (r: bool)
        ensures
            r == (level.rank_spec() >= (if engine {
                self.engine_level
            } else {
                self.strategy_level
            }).rank_spec()),
    {
        let threshold = if engine {
            self.engine_level
        } else {
            self.strategy_level
        };
        level.rank() >= threshold.rank()
    }

    /// The current log thresholds.
    pub fn log_config(&self) -> (r: LogConfig)
        ensures
            r.fuxi_level == self.engine_level,
            r.strategy_level == self.strategy_level,
    {
        LogConfig { fuxi_level: self.engine_level, strategy_level: self.strategy_level }
    }

    /// Sets the engine and strategy log thresholds.
    pub fn set_log_level(&mut self, engine: LogLevel, strategy: LogLevel)
        ensures
            final(self).engine_level == engine,
            final(self).strategy_level == strategy,
            final(self).time == old(self).time,
            final(self).spot == old(self).spot,
            final(self).swap == old(self).swap,
            final(self).symbols@ == old(self).symbols@,
    {
        self.engine_level = engine;
        self.strategy_level = strategy;
    }

    /// Places an order with a fresh id on the instrument with display code
    /// `code`; see `place_order_with_id`.
    pub fn place_order(
        &mut self,
        code: &str,
        method: TradeMethod,
        side: TradeSide,
        action: TradeAction,
        size: Amount,
        price: Amount,
        remark: Option<String>,
    ) -> (r: Result<Order, Error>)
        requires
            old(self).wf(),
        ensures
            final(self).wf(),
            match r {
                Ok(o) => o@ == placed_order(
                    code@,
                    o.id,
                    method,
                    side,
                    action,
                    size,
                    price,
                    opt_str_view(remark),
                    old(self).time,
                ),
                Err(_) => final(self).symbols@ == old(self).symbols@,
            },
            forall|i: int|
                0 <= i < old(self).symbols@.len() && old(self).symbols@[i].0 == code@ && r is Ok
                    ==> final(self).symbols@ == old(self).symbols@.update(
                    i,
                    (
                        code@,
                        with_orders(
                            old(self).symbols@[i].1,
                            old(self).symbols@[i].1.position.orders.push(
                                (r->Ok_0.id, r->Ok_0@),
                            ),
                        ),
                    ),
                ),
            !has_code(old(self).symbols@, code@) ==> r == Err::<Order, Error>(
                Error::Config(ConfigError::UnknownSymbol),
            ),
            has_code(old(self).symbols@, code@) && (size.units <= 0 || price.units <= 0) ==> r
                == Err::<Order, Error>(Error::Ledger(LedgerError::InvalidAmount)),
            has_code(old(self).symbols@, code@) && size.units > 0 && price.units > 0 ==> r is Ok
                || r == Err::<Order, Error>(Error::Ledger(LedgerError::DuplicateOrderId)),
            forall|i: int|
                0 <= i < old(self).symbols@.len() && old(self).symbols@[i].0 == code@ && r is Ok
                    ==> !has_key(old(self).symbols@[i].1.position.orders, r->Ok_0.id),
            final(self).spot == old(self).spot,
            final(self).swap == old(self).swap,
            final(self).time == old(self).time,
            final(self).symbols@.len() == old(self).symbols@.len(),
    {
        let id = fresh_order_id();
        self.place_order_with_id(id, code, method, side, action, size, price, remark)
    }

    /// Records a new order with id `id` on the instrument with display code
    /// `code`. Refused where the instrument is not configured, where size or
    /// price is not positive, or where the id is taken. Nothing is frozen
    /// here: matching dispatches and accepts the order on the next steps.
    pub fn place_order_with_id(
        &mut self,
        id: u128,
        code: &str,
        method: TradeMethod,
        side: TradeSide,
        action: TradeAction,
        size: Amount,
        price: Amount,
        remark: Option<String>,
    ) -> (r: Result<Order, Error>)
        requires
            old(self).wf(),
        ensures
            final(self).wf(),
            final(self).spot == old(self).spot,
            final(self).swap == old(self).swap,
            final(self).time == old(self).time,
            final(self).symbols@.len() == old(self).symbols@.len(),
            !has_code(old(self).symbols@, code@) ==> r == Err::<Order, Error>(
                Error::Config(ConfigError::UnknownSymbol),
            ),
            has_code(old(self).symbols@, code@) && (size.units <= 0 || price.units <= 0) ==> r
                == Err::<Order, Error>(Error::Ledger(LedgerError::InvalidAmount)),
            r is Err ==> final(self).symbols@ == old(self).symbols@,
            forall|i: int|
                0 <= i < old(self).symbols@.len() && old(self).symbols@[i].0 == code@ && size.units
                    > 0 && price.units > 0 ==> {
                    let orders = old(self).symbols@[i].1.position.orders;
                    let o = placed_order(
                        code@,
                        id,
                        method,
                        side,
                        action,
                        size,
                        price,
                        opt_str_view(remark),
                        old(self).time,
                    );
                    &&& has_key(orders, id) ==> r == Err::<Order, Error>(
                        Error::Ledger(LedgerError::DuplicateOrderId),
                    )
                    &&& !has_key(orders, id) ==> r is Ok && r->Ok_0@ == o && final(self).symbols@
                        == old(self).symbols@.update(
                        i,
                        (code@, with_orders(old(self).symbols@[i].1, orders.push((id, o)))),
                    )
                },
    {
        let idx = match self.symbols.index_of(code) {
            Some(i) => i,
            None => return Err(Error::Config(ConfigError::UnknownSymbol)),
        };
        if size.units <= 0 || price.units <= 0 {
            return Err(Error::Ledger(LedgerError::InvalidAmount));
        }
        let mut sym = self.symbols.get_index(idx).unwrap();
        let ghost sv = self.symbols@[idx as int].1;
        let ghost rm = opt_str_view(remark);
        assert(symbol_view_wf(sv));
        let order = Order {
            code: String::from_str(code),
            id,
            method,
            side,
            action,
            status: OrderStatus::New,
            size,
            price,
            deal_size: Amount { units: 0 },
            deal_price: Amount { units: 0 },
            deal_fee: Amount { units: 0 },
            margin: Amount { units: 0 },
            remark,
            create_time: self.time,
            update_time: self.time,
        };
        assert(order@ == placed_order(code@, id, method, side, action, size, price, rm, self.time));
        assert(sym.position.orders.wf());
        let ghost ov = order@;
        match sym.position.orders.insert_new(order) {
            Ok(()) => {},
            Err(e) => {
                proof {
                    assert forall|i: int|
                        0 <= i < self.symbols@.len() && self.symbols@[i].0 == code@ implies i
                        == idx by {}
                }
                return Err(Error::Ledger(e));
            },
        }
        assert(sym.position.orders@[sym.position.orders@.len() - 1].0 == id);
        let placed = sym.position.orders.get(id).unwrap();
        proof {
            let ord = sym.position.orders@;
            let k = ord.len() - 1;
            assert(ord[k].0 == id);
            let j = choose|j: int| 0 <= j < ord.len() && ord[j] == (id, placed@);
            assert(j == k);
        }
        assert(sym.code.code@ == code@);
        proof {
            lemma_reserved_push(sv.position.orders, (id, ov));
        }
        let ghost syms0 = self.symbols@;
        let ghost nv = sym@;
        self.symbols.set_index(idx, sym);
        proof {
            assert forall|i: int|
                0 <= i < old(self).symbols@.len() && old(self).symbols@[i].0 == code@ implies i
                == idx by {}
            lemma_market_update(syms0, idx as int, (code@, nv), Market::Spot);
            lemma_market_update(syms0, idx as int, (code@, nv), Market::Swap);
        }
        Ok(placed)
    }

    /// Asks to cancel the pending order `id` of the instrument `code`: the
    /// order moves to `Cancelling`, and the next matching step confirms it.
    pub fn cancel_order(&mut self, code: &str, id: u128) -> (r: Result<(), Error>)
        requires
            old(self).wf(),
        ensures
            final(self).wf(),
            final(self).spot == old(self).spot,
            final(self).swap == old(self).swap,
            final(self).time == old(self).time,
            final(self).symbols@.len() == old(self).symbols@.len(),
            !has_code(old(self).symbols@, code@) ==> r == Err::<(), Error>(
                Error::Config(ConfigError::UnknownSymbol),
            ),
            r is Err ==> final(self).symbols@ == old(self).symbols@,
            forall|i: int|
                0 <= i < old(self).symbols@.len() && old(self).symbols@[i].0 == code@ ==> {
                    let orders = old(self).symbols@[i].1.position.orders;
                    &&& !has_key(orders, id) ==> r == Err::<(), Error>(
                        Error::Ledger(LedgerError::UnknownOrder),
                    )
                    &&& forall|j: int|
                        0 <= j < orders.len() && orders[j].0 == id ==> {
                            &&& orders[j].1.status != OrderStatus::Pending ==> r == Err::<
                                (),
                                Error,
                            >(Error::Ledger(LedgerError::NotCancellable))
                            &&& orders[j].1.status == OrderStatus::Pending ==> r is Ok
                                && final(self).symbols@ == old(self).symbols@.update(
                                i,
                                (
                                    code@,
                                    with_orders(
                                        old(self).symbols@[i].1,
                                        orders.update(
                                            j,
                                            (
                                                id,
                                                OrderView {
                                                    status: OrderStatus::Cancelling,
                                                    update_time: old(self).time,
                                                    ..orders[j].1
                                                },
                                            ),
                                        ),
                                    ),
                                ),
                            )
                        }
                },
    {
        let idx = match self.symbols.index_of(code) {
            Some(i) => i,
            None => return Err(Error::Config(ConfigError::UnknownSymbol)),
        };
        proof {
            assert forall|i: int|
                0 <= i < self.symbols@.len() && self.symbols@[i].0 == code@ implies i == idx by {}
        }
        let mut sym = self.symbols.get_index(idx).unwrap();
        let ghost sv = self.symbols@[idx as int].1;
        assert(symbol_view_wf(sv));
        let mut o = match sym.position.orders.get(id) {
            Some(o) => o,
            None => return Err(Error::Ledger(LedgerError::UnknownOrder)),
        };
        let ghost orders = sym.position.orders@;
        let ghost j = choose|j: int| 0 <= j < orders.len() && orders[j] == (id, o@);
        proof {
            assert forall|k: int| 0 <= k < orders.len() && orders[k].0 == id implies k == j by {}
        }
        match o.status {
            OrderStatus::Pending => {},
            _ => return Err(Error::Ledger(LedgerError::NotCancellable)),
        }
        o.status = OrderStatus::Cancelling;
        o.update_time = self.time;
        let ghost nov = o@;
        sym.position.orders.replace(o);
        assert(sym.position.orders@ == orders.update(j, (id, nov)));
        proof {
            lemma_reserved_update(orders, j, (id, nov));
        }
        assert(sym.code.code@ == code@);
        let ghost syms0 = self.symbols@;
        let ghost nv = sym@;
        self.symbols.set_index(idx, sym);
        proof {
            lemma_market_update(syms0, idx as int, (code@, nv), Market::Spot);
            lemma_market_update(syms0, idx as int, (code@, nv), Market::Swap);
        }
        Ok(())
    }

    /// One matching step of every order of the instrument at position
    /// `idx`, in order, against `bar`, paid from its market's wallet.
    pub fn match_symbol(&mut self, idx: usize, bar: Option<Candle>)
        requires
            old(self).wf(),
            idx < old(self).symbols@.len(),
        ensures
            final(self).wf(),
            final(self).time == old(self).time,
            final(self).symbols@.len() == old(self).symbols@.len(),
            forall|k: int|
                0 <= k < old(self).symbols@.len() && k != idx ==> final(self).symbols@[k]
                    == old(self).symbols@[k],
            ({
                let before = old(self).symbols@[idx as int].1.position.orders;
                let after = final(self).symbols@[idx as int].1.position.orders;
                &&& after.len() == before.len()
                &&& forall|j: int|
                    0 <= j < before.len() ==> after[j].0 == before[j].0 && order_stepped(
                        before[j].1,
                        #[trigger] after[j].1,
                        bar,
                        old(self).time,
                    )
            }),
    {
        let mut sym = self.symbols.get_index(idx).unwrap();
        let ghost sv = self.symbols@[idx as int].1;
        let ghost before = sv.position.orders;
        assert(symbol_view_wf(sv));
        let market = sym.code.market;
        let mut wallet = match market {
            Market::Spot => self.spot,
            Market::Swap => self.swap,
        };
        let now = self.time;
        let n = sym.position.orders.len();
        let ghost w0 = wallet.frozen.units as int;
        let ghost syms0 = self.symbols@;
        proof {
            assert forall|k: int| 0 <= k < syms0.len() implies crate::holdings::orders_wf(
                (#[trigger] syms0[k]).1.position.orders,
            ) by {
                assert(symbol_view_wf(syms0[k].1));
            }
            lemma_market_bounds(syms0, idx as int, market);
        }
        let mut i: usize = 0;
        while i < n
            invariant
                i <= n,
                n == before.len(),
                wallet.wf(),
                w0 >= reserved(before),
                wallet.frozen.units == w0 - reserved(before) + reserved(sym.position.orders@),
                crate::holdings::sides_exact(sym.position@),
                sym.position.wf(),
                sym.code@ == sv.code,
                sym.taker == sv.taker,
                sym.maker == sv.maker,
                sym.code.market == market,
                sym.position.lever == sv.position.lever,
                sym.position.orders@.len() == n,
                forall|j: int|
                    0 <= j < n ==> sym.position.orders@[j].0 == before[j].0,
                forall|j: int|
                    0 <= j < i ==> order_stepped(before[j].1, (#[trigger] sym.position.orders@[j]).1, bar, now),
                forall|j: int| i <= j < n ==> #[trigger] sym.position.orders@[j] == before[j],
            decreases n - i,
        {
            let mut o = sym.position.orders.get_index(i).unwrap();
            let ghost ov = o@;
            let ghost prev = sym.position.orders@;
            proof {
                assert forall|k: int| 0 <= k < prev.len() implies (#[trigger] prev[k]).1.wf() by {
                    assert(sym.position.orders.wf());
                }
                lemma_reserved_bounds(prev, i as int);
            }
            step_order(&mut o, &mut wallet, &mut sym.position, sym.taker, sym.maker, bar, now);
            assert(sym.position.orders@ == prev);
            assert(o.id == ov.id);
            assert(prev[i as int].0 == ov.id);
            let ghost nv = o@;
            sym.position.orders.replace(o);
            assert(sym.position.orders@ == prev.update(i as int, (ov.id, nv)));
            proof {
                lemma_reserved_update(prev, i as int, (ov.id, nv));
            }
            i = i + 1;
        }
        match market {
            Market::Spot => {
                self.spot = wallet;
            },
            Market::Swap => {
                self.swap = wallet;
            },
        }
        let ghost key = sym.code.code@;
        let ghost nv = sym@;
        assert(key == syms0[idx as int].0);
        self.symbols.set_index(idx, sym);
        proof {
            lemma_market_update(syms0, idx as int, (key, nv), Market::Spot);
            lemma_market_update(syms0, idx as int, (key, nv), Market::Swap);
        }
    }

    /// Deletes the finished orders of the instrument at position `idx`.
    pub fn remove_expired_orders(&mut self, idx: usize)
        requires
            old(self).wf(),
            idx < old(self).symbols@.len(),
        ensures
            final(self).wf(),
            final(self).time == old(self).time,
            final(self).spot == old(self).spot,
            final(self).swap == old(self).swap,
            final(self).symbols@.len() == old(self).symbols@.len(),
            forall|k: int|
                0 <= k < old(self).symbols@.len() && k != idx ==> final(self).symbols@[k]
                    == old(self).symbols@[k],
            final(self).symbols@[idx as int].1.position.orders == old(
                self,
            ).symbols@[idx as int].1.position.orders.filter(
                |e: (u128, OrderView)| crate::order::live_entry(e),
            ),
    {
        let mut sym = self.symbols.get_index(idx).unwrap();
        let ghost sv = self.symbols@[idx as int].1;
        assert(symbol_view_wf(sv));
        sym.position.orders.remove_expired();
        proof {
            lemma_reserved_filter(sv.position.orders);
        }
        let ghost syms0 = self.symbols@;
        let ghost nv = sym@;
        let ghost key = sym.code.code@;
        self.symbols.set_index(idx, sym);
        proof {
            lemma_market_update(syms0, idx as int, (key, nv), Market::Spot);
            lemma_market_update(syms0, idx as int, (key, nv), Market::Swap);
        }
    }
}

} // verus!
