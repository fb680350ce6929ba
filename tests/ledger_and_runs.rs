use fuxi::amount::Amount;
use fuxi::backtest::{Backtest, SymbolConfig};
use fuxi::candle::{Candle, CandleTable};
use fuxi::context::Context;
use fuxi::error::{ConfigError, Error, LedgerError};
use fuxi::model::{LogLevel, Market, OrderStatus, TradeAction, TradeMethod, TradeSide};
use fuxi::order::{Order, OrderMap};
use fuxi::position::{Position, SymbolCode};
use fuxi::time::{str_to_time, Time, NANOS_PER_MINUTE};
use fuxi::wallet::Volume;

fn amt(s: &str) -> Amount {
    Amount::parse(s).unwrap()
}

fn spot_code(base: &str) -> SymbolCode {
    SymbolCode {
        id: format!("@{base}"),
        code: format!("{base}/USDC"),
        market: Market::Spot,
        decimals: 5,
        max_lever: 1,
        base: Some(base.to_string()),
    }
}

fn swap_code(name: &str) -> SymbolCode {
    SymbolCode {
        id: name.to_string(),
        code: format!("{name}/USDC:USDC"),
        market: Market::Swap,
        decimals: 4,
        max_lever: 40,
        base: None,
    }
}

fn config(code: SymbolCode, lever: &str) -> SymbolConfig {
    SymbolConfig { code, taker: amt("0.001"), maker: amt("0.001"), lever: amt(lever) }
}

fn bar(t: Time, open: &str, high: &str, low: &str, close: &str) -> Candle {
    Candle {
        time: t,
        open: amt(open),
        high: amt(high),
        low: amt(low),
        close: amt(close),
        volume: amt("10"),
        finished: false,
    }
}

fn scenario_run() -> Backtest {
    Backtest::new(
        "2024-01-01 00:00:00",
        "2024-01-01 00:05:00",
        vec![config(spot_code("BTC"), "1")],
        amt("1000"),
        amt("0"),
        3,
        false,
    )
    .unwrap()
}

fn minute(t: Time, k: i64) -> Time {
    Time { nanos: t.nanos + (k as i128) * NANOS_PER_MINUTE }
}

fn flat_bars(begin: Time, from: i64, to: i64, price: &str) -> Vec<Candle> {
    (from..=to).map(|k| bar(minute(begin, k), price, price, price, price)).collect()
}

fn check_balanced(v: &Volume) {
    assert_eq!(v.total.units, v.avail.units + v.frozen.units);
}

#[test]
fn scenario_one_spot_instrument_six_bar_events() {
    let mut bt = scenario_run();
    let begin = str_to_time("2024-01-01 00:00:00").unwrap();
    assert_eq!(bt.begin, begin);
    assert_eq!(bt.bar_count(), 6);
    assert_eq!(bt.context.spot.total, amt("1000"));
    assert_eq!(bt.context.spot.avail, amt("1000"));
    let bars = flat_bars(begin, -3, 5, "100");
    bt.install_candles("BTC/USDC", &bars).unwrap();
    assert_eq!(bt.candles[0].rows.len(), 9);
    let history = bt.history_candles(0);
    assert_eq!(history.len(), 3);
    for (k, row) in history.iter().enumerate() {
        assert_eq!(row.unwrap().time, minute(begin, k as i64 - 3));
    }
    let mut events = vec![];
    while let Some(t) = bt.step() {
        if events.is_empty() {
            let window = bt.candles("BTC/USDC", None).unwrap();
            assert_eq!(window.len(), 3);
            assert!(window.iter().all(|r| r.unwrap().time.nanos < begin.nanos));
        }
        events.push(t);
    }
    assert_eq!(events.len(), 6);
    for (k, t) in events.iter().enumerate() {
        assert_eq!(*t, minute(begin, k as i64));
    }
    assert_eq!(bt.context.time, minute(begin, 5));
    assert_eq!(bt.step(), None);
}

#[test]
fn aligned_grid_has_one_row_per_minute_with_gaps_as_none() {
    let mut bt = scenario_run();
    let begin = bt.begin;
    let mut bars = vec![bar(minute(begin, -2), "1", "1", "1", "1"), bar(minute(begin, 4), "2", "2", "2", "2")];
    bars.push(bar(Time { nanos: begin.nanos + 30_000_000_000 }, "9", "9", "9", "9"));
    bars.push(bar(minute(begin, 40), "9", "9", "9", "9"));
    bars.push(bar(minute(begin, 4), "3", "3", "3", "3"));
    bt.install_candles("BTC/USDC", &bars).unwrap();
    let rows = &bt.candles[0].rows;
    assert_eq!(rows.len(), 9);
    assert_eq!(bt.grid_start(), minute(begin, -3));
    assert_eq!(bt.grid_len(), 9);
    for i in 0..rows.len() {
        assert_eq!(bt.candles[0].time_at(i), minute(begin, i as i64 - 3));
    }
    let filled: Vec<usize> = (0..rows.len()).filter(|&i| rows[i].is_some()).collect();
    assert_eq!(filled, vec![1, 7]);
    assert_eq!(rows[1].unwrap().open, amt("1"));
    assert!(rows[1].unwrap().finished);
    assert_eq!(rows[7].unwrap().open, amt("3"));
}

#[test]
fn align_on_empty_source_gives_all_none() {
    let start = Time { nanos: 0 };
    let t = CandleTable::align(start, 4, &vec![]);
    assert_eq!(t.rows.len(), 4);
    assert!(t.rows.iter().all(|r| r.is_none()));
    assert_eq!(t.window(2, 5).len(), 2);
    assert_eq!(t.window(9, 1).len(), 0);
}

#[test]
fn candles_for_unknown_instrument_are_refused() {
    let mut bt = scenario_run();
    assert_eq!(bt.candles("ETH/USDC", None), Err(Error::Config(ConfigError::UnknownSymbol)));
    assert_eq!(
        bt.install_candles("ETH/USDC", &vec![]),
        Err(Error::Config(ConfigError::UnknownSymbol))
    );
}

#[test]
fn candles_with_size_keeps_the_most_recent_rows() {
    let mut bt = scenario_run();
    let begin = bt.begin;
    bt.install_candles("BTC/USDC", &flat_bars(begin, -3, 5, "100")).unwrap();
    bt.step();
    bt.step();
    bt.step();
    let w = bt.candles("BTC/USDC", Some(2)).unwrap();
    assert_eq!(w.len(), 2);
    assert_eq!(w[0].unwrap().time, minute(begin, 0));
    assert_eq!(w[1].unwrap().time, minute(begin, 1));
}

fn run_with(
    symbols: Vec<SymbolConfig>,
    spot: &str,
    swap: &str,
    begin: &str,
    end: &str,
    history: usize,
) -> Result<Backtest, Error> {
    Backtest::new(begin, end, symbols, amt(spot), amt(swap), history, false)
}

#[test]
fn duplicate_instrument_is_refused() {
    let r = run_with(
        vec![config(spot_code("BTC"), "1"), config(spot_code("BTC"), "1")],
        "1000",
        "0",
        "2024-01-01",
        "2024-01-02",
        10,
    );
    assert_eq!(r.err(), Some(Error::Config(ConfigError::DuplicateSymbol)));
}

#[test]
fn fractional_leverage_is_refused() {
    let r = run_with(vec![config(swap_code("ETH"), "1.5")], "0", "1000", "2024-01-01", "2024-01-02", 10);
    assert_eq!(r.err(), Some(Error::Config(ConfigError::FractionalLeverage)));
}

#[test]
fn zero_or_negative_leverage_is_refused() {
    let r = run_with(vec![config(swap_code("ETH"), "0")], "0", "1000", "2024-01-01", "2024-01-02", 10);
    assert_eq!(r.err(), Some(Error::Config(ConfigError::NonPositiveLeverage)));
}

#[test]
fn both_balances_zero_is_refused() {
    let r = run_with(vec![config(spot_code("BTC"), "1")], "0", "0", "2024-01-01", "2024-01-02", 10);
    assert_eq!(r.err(), Some(Error::Config(ConfigError::EmptyBalance)));
}

#[test]
fn negative_balance_is_refused() {
    let r = run_with(vec![config(spot_code("BTC"), "1")], "-1", "10", "2024-01-01", "2024-01-02", 10);
    assert_eq!(r.err(), Some(Error::Config(ConfigError::NegativeBalance)));
}

#[test]
fn begin_not_before_end_is_refused() {
    let same = run_with(vec![], "1", "0", "2024-01-01 00:00:10", "2024-01-01 00:00:50", 10);
    assert_eq!(same.err(), Some(Error::Config(ConfigError::InvalidTimeRange)));
    let reversed = run_with(vec![], "1", "0", "2024-01-02", "2024-01-01", 10);
    assert_eq!(reversed.err(), Some(Error::Config(ConfigError::InvalidTimeRange)));
}

#[test]
fn zero_history_is_refused() {
    let r = run_with(vec![], "1", "0", "2024-01-01", "2024-01-02", 0);
    assert_eq!(r.err(), Some(Error::Config(ConfigError::ZeroHistorySize)));
}

#[test]
fn negative_maker_fee_is_a_rebate() {
    let mut c = config(spot_code("BTC"), "1");
    c.maker = amt("-0.001");
    let mut bt = run_with(vec![c], "1000", "0", "2024-01-01 00:00", "2024-01-01 00:05", 1).unwrap();
    let begin = bt.begin;
    bt.install_candles("BTC/USDC", &flat_bars(begin, -1, 5, "100")).unwrap();
    let id = bt
        .place_order("BTC/USDC", TradeMethod::Limit, TradeSide::Long, TradeAction::Buy, amt("1"), amt("100"), None)
        .unwrap()
        .id;
    bt.step();
    bt.step();
    bt.step();
    let o = bt.context.symbols.get_index(0).unwrap().position.orders.get(id).unwrap();
    assert_eq!(o.status, OrderStatus::Completed);
    assert_eq!(o.deal_fee, amt("-0.1"));
    assert_eq!(bt.context.spot.total, amt("900.1"));
    check_balanced(&bt.context.spot);
}

#[test]
fn bad_time_literal_is_a_time_format_error() {
    let r = run_with(vec![], "1", "0", "2024-1-01", "2024-01-02", 1);
    assert_eq!(r.err(), Some(Error::TimeFormat));
}

#[test]
fn begin_and_end_are_truncated_to_the_minute() {
    let bt = run_with(vec![], "1", "0", "2024-01-01 00:00:59", "2024-01-01 00:02:01", 1).unwrap();
    assert_eq!(bt.begin, str_to_time("2024-01-01 00:00").unwrap());
    assert_eq!(bt.end, str_to_time("2024-01-01 00:02").unwrap());
    assert_eq!(bt.bar_count(), 3);
}

#[test]
fn market_buy_is_dispatched_accepted_and_filled() {
    let mut bt = scenario_run();
    let begin = bt.begin;
    let mut bars = flat_bars(begin, -3, 5, "100");
    bars[5] = bar(minute(begin, 2), "101", "102", "99", "101");
    bt.install_candles("BTC/USDC", &bars).unwrap();
    let o = bt
        .place_order("BTC/USDC", TradeMethod::Market, TradeSide::Long, TradeAction::Buy, amt("1"), amt("100"), None)
        .unwrap();
    assert_eq!(o.status, OrderStatus::New);
    assert_eq!(o.create_time, begin);
    let id = o.id;
    let status = |bt: &Backtest| {
        bt.context.symbols.get_index(0).unwrap().position.orders.get(id).unwrap().status
    };
    bt.step();
    assert_eq!(status(&bt), OrderStatus::Submitting);
    bt.step();
    assert_eq!(status(&bt), OrderStatus::Pending);
    assert_eq!(bt.context.spot.frozen, amt("100.1"));
    assert_eq!(bt.context.spot.avail, amt("899.9"));
    check_balanced(&bt.context.spot);
    bt.step();
    let sym = bt.context.symbols.get_index(0).unwrap();
    let filled = sym.position.orders.get(id).unwrap();
    assert_eq!(filled.status, OrderStatus::Completed);
    assert_eq!(filled.deal_size, amt("1"));
    assert_eq!(filled.deal_price, amt("101"));
    assert_eq!(filled.deal_fee, amt("0.101"));
    assert_eq!(bt.context.spot.total, amt("898.899"));
    assert_eq!(bt.context.spot.frozen, amt("0"));
    check_balanced(&bt.context.spot);
    assert_eq!(sym.position.margin.total, amt("101"));
    assert_eq!(sym.position.long.size.total, amt("1"));
    assert_eq!(sym.position.long.price, amt("101"));
    check_balanced(&sym.position.margin);
    check_balanced(&sym.position.long.size);
}

#[test]
fn limit_buy_waits_until_the_low_reaches_its_price() {
    let mut bt = scenario_run();
    let begin = bt.begin;
    let mut bars = flat_bars(begin, -3, 5, "100");
    bars[7] = bar(minute(begin, 4), "100", "100", "94", "95");
    bt.install_candles("BTC/USDC", &bars).unwrap();
    let id = bt
        .place_order("BTC/USDC", TradeMethod::Limit, TradeSide::Long, TradeAction::Buy, amt("2"), amt("95"), None)
        .unwrap()
        .id;
    for _ in 0..4 {
        bt.step();
    }
    let pending = bt.context.symbols.get_index(0).unwrap().position.orders.get(id).unwrap();
    assert_eq!(pending.status, OrderStatus::Pending);
    bt.step();
    let done = bt.context.symbols.get_index(0).unwrap().position.orders.get(id).unwrap();
    assert_eq!(done.status, OrderStatus::Completed);
    assert_eq!(done.deal_price, amt("95"));
    assert_eq!(done.deal_fee, amt("0.19"));
}

#[test]
fn closing_sell_realizes_profit_into_the_wallet() {
    let mut bt = scenario_run();
    let begin = bt.begin;
    let mut bars = flat_bars(begin, -3, 5, "100");
    bars[8] = bar(minute(begin, 5), "110", "110", "110", "110");
    bt.install_candles("BTC/USDC", &bars).unwrap();
    bt.place_order("BTC/USDC", TradeMethod::Market, TradeSide::Long, TradeAction::Buy, amt("1"), amt("100"), None)
        .unwrap();
    bt.step();
    bt.step();
    bt.step();
    let sell = bt
        .place_order("BTC/USDC", TradeMethod::Market, TradeSide::Long, TradeAction::Sell, amt("1"), amt("110"), None)
        .unwrap()
        .id;
    bt.step();
    bt.step();
    let sym = bt.context.symbols.get_index(0).unwrap();
    assert_eq!(sym.position.long.size.frozen, amt("1"));
    bt.step();
    let sym = bt.context.symbols.get_index(0).unwrap();
    let o = sym.position.orders.get(sell).unwrap();
    assert_eq!(o.status, OrderStatus::Completed);
    assert_eq!(sym.position.long.size.total, amt("0"));
    assert_eq!(sym.position.margin.total, amt("0"));
    // 1000 - 100 - 0.1 (buy) + 100 + 10 - 0.11 (sell)
    assert_eq!(bt.context.spot.total, amt("1009.79"));
    check_balanced(&bt.context.spot);
}

#[test]
fn order_without_funds_is_rejected_and_unfreezes_nothing() {
    let mut bt = scenario_run();
    let id = bt
        .place_order("BTC/USDC", TradeMethod::Limit, TradeSide::Long, TradeAction::Buy, amt("100"), amt("100"), None)
        .unwrap()
        .id;
    bt.step();
    bt.step();
    let o = bt.context.symbols.get_index(0).unwrap().position.orders.get(id).unwrap();
    assert_eq!(o.status, OrderStatus::Rejected);
    assert_eq!(bt.context.spot.avail, amt("1000"));
    assert_eq!(bt.context.spot.frozen, amt("0"));
}

#[test]
fn closing_more_than_held_is_rejected() {
    let mut bt = scenario_run();
    let id = bt
        .place_order("BTC/USDC", TradeMethod::Market, TradeSide::Long, TradeAction::Sell, amt("1"), amt("100"), None)
        .unwrap()
        .id;
    bt.step();
    bt.step();
    let o = bt.context.symbols.get_index(0).unwrap().position.orders.get(id).unwrap();
    assert_eq!(o.status, OrderStatus::Rejected);
}

#[test]
fn cancel_moves_pending_to_cancelled_and_releases_reserve() {
    let mut bt = scenario_run();
    let id = bt
        .place_order("BTC/USDC", TradeMethod::Limit, TradeSide::Long, TradeAction::Buy, amt("1"), amt("50"), None)
        .unwrap()
        .id;
    assert_eq!(bt.cancel_order("BTC/USDC", id), Err(Error::Ledger(LedgerError::NotCancellable)));
    bt.step();
    bt.step();
    assert_eq!(bt.context.spot.frozen, amt("50.05"));
    bt.cancel_order("BTC/USDC", id).unwrap();
    let o = bt.context.symbols.get_index(0).unwrap().position.orders.get(id).unwrap();
    assert_eq!(o.status, OrderStatus::Cancelling);
    bt.step();
    let o = bt.context.symbols.get_index(0).unwrap().position.orders.get(id).unwrap();
    assert_eq!(o.status, OrderStatus::Cancelled);
    assert_eq!(bt.context.spot.frozen, amt("0"));
    assert_eq!(bt.context.spot.avail, amt("1000"));
    assert_eq!(bt.cancel_order("BTC/USDC", 7), Err(Error::Ledger(LedgerError::UnknownOrder)));
    assert_eq!(bt.cancel_order("ETH/USDC", id), Err(Error::Config(ConfigError::UnknownSymbol)));
}

#[test]
fn placing_orders_checks_instrument_amounts_and_ids() {
    let mut ctx = Context::new();
    let r = ctx.place_order("BTC/USDC", TradeMethod::Market, TradeSide::Long, TradeAction::Buy, amt("1"), amt("1"), None);
    assert_eq!(r.err(), Some(Error::Config(ConfigError::UnknownSymbol)));
    let mut bt = scenario_run();
    let r = bt.place_order("BTC/USDC", TradeMethod::Market, TradeSide::Long, TradeAction::Buy, amt("0"), amt("1"), None);
    assert_eq!(r.err(), Some(Error::Ledger(LedgerError::InvalidAmount)));
    let first = bt
        .context
        .place_order_with_id(9, "BTC/USDC", TradeMethod::Limit, TradeSide::Short, TradeAction::Sell, amt("1"), amt("1"), Some("note".to_string()))
        .unwrap();
    assert_eq!(first.id, 9);
    assert_eq!(first.remark, Some("note".to_string()));
    let again = bt.context.place_order_with_id(9, "BTC/USDC", TradeMethod::Limit, TradeSide::Short, TradeAction::Sell, amt("1"), amt("1"), None);
    assert_eq!(again.err(), Some(Error::Ledger(LedgerError::DuplicateOrderId)));
}

fn order(id: u128, status: OrderStatus) -> Order {
    Order {
        code: "BTC/USDC".to_string(),
        id,
        method: TradeMethod::Limit,
        side: TradeSide::Long,
        action: TradeAction::Buy,
        status,
        size: amt("1"),
        price: amt("1"),
        deal_size: amt("0"),
        deal_price: amt("0"),
        deal_fee: amt("0"),
        margin: amt("0"),
        remark: None,
        create_time: Time { nanos: 0 },
        update_time: Time { nanos: 0 },
    }
}

#[test]
fn remove_expired_drops_only_terminal_orders() {
    let mut m = OrderMap::new();
    let all = [
        OrderStatus::New,
        OrderStatus::Submitting,
        OrderStatus::Rejected,
        OrderStatus::Pending,
        OrderStatus::Completed,
        OrderStatus::Cancelling,
        OrderStatus::Cancelled,
    ];
    for (i, s) in all.iter().enumerate() {
        m.insert_new(order(i as u128, *s)).unwrap();
    }
    assert_eq!(m.insert_new(order(0, OrderStatus::New)), Err(LedgerError::DuplicateOrderId));
    m.remove_expired();
    assert_eq!(m.len(), 4);
    let kept: Vec<u128> = (0..m.len()).map(|i| m.get_index(i).unwrap().id).collect();
    assert_eq!(kept, vec![0, 1, 3, 5]);
    m.remove_expired();
    assert_eq!(m.len(), 4);
}

#[test]
fn lifecycle_edges_and_terminal_states() {
    let all = [
        OrderStatus::New,
        OrderStatus::Submitting,
        OrderStatus::Rejected,
        OrderStatus::Pending,
        OrderStatus::Completed,
        OrderStatus::Cancelling,
        OrderStatus::Cancelled,
    ];
    assert!(OrderStatus::New.can_move_to(OrderStatus::Submitting));
    assert!(OrderStatus::Submitting.can_move_to(OrderStatus::Pending));
    assert!(OrderStatus::Submitting.can_move_to(OrderStatus::Rejected));
    assert!(OrderStatus::Pending.can_move_to(OrderStatus::Completed));
    assert!(OrderStatus::Pending.can_move_to(OrderStatus::Cancelling));
    assert!(OrderStatus::Cancelling.can_move_to(OrderStatus::Cancelled));
    assert!(!OrderStatus::New.can_move_to(OrderStatus::Pending));
    for t in [OrderStatus::Rejected, OrderStatus::Completed, OrderStatus::Cancelled] {
        assert!(t.is_terminal());
        for to in all {
            assert!(!t.can_move_to(to));
        }
    }
    assert!(!OrderStatus::Pending.is_terminal());
}

#[test]
fn terminal_orders_are_untouched_by_steps() {
    let mut bt = scenario_run();
    let id = bt
        .place_order("BTC/USDC", TradeMethod::Market, TradeSide::Long, TradeAction::Sell, amt("1"), amt("100"), None)
        .unwrap()
        .id;
    bt.step();
    bt.step();
    let rejected = bt.context.symbols.get_index(0).unwrap().position.orders.get(id).unwrap();
    assert_eq!(rejected.status, OrderStatus::Rejected);
    bt.step();
    bt.step();
    let later = bt.context.symbols.get_index(0).unwrap().position.orders.get(id).unwrap();
    assert_eq!(later.status, OrderStatus::Rejected);
    assert_eq!(later.update_time, rejected.update_time);
    bt.context.remove_expired_orders(0);
    assert_eq!(bt.context.symbols.get_index(0).unwrap().position.orders.len(), 0);
}

#[test]
fn wallet_operations_keep_total_equal_to_parts() {
    let mut v = Volume::new(amt("100"));
    v.freeze(amt("30")).unwrap();
    check_balanced(&v);
    assert_eq!(v.freeze(amt("71")), Err(LedgerError::InsufficientFunds));
    assert_eq!(v.freeze(amt("-1")), Err(LedgerError::InvalidAmount));
    v.unfreeze(amt("10")).unwrap();
    assert_eq!(v.unfreeze(amt("21")), Err(LedgerError::InsufficientFunds));
    v.deposit(amt("5")).unwrap();
    v.withdraw(amt("80")).unwrap();
    assert_eq!(v.withdraw(amt("6")), Err(LedgerError::InsufficientFunds));
    check_balanced(&v);
    assert_eq!(v.total, amt("25"));
    assert_eq!(v.avail, amt("5"));
    assert_eq!(v.frozen, amt("20"));
    let mut big = Volume::new(Amount { units: i128::MAX });
    assert_eq!(big.deposit(amt("1")), Err(LedgerError::Overflow));
    let d = Volume::default();
    assert_eq!(d.total, amt("0"));
}

#[test]
fn log_gate_compares_against_each_threshold() {
    let mut ctx = Context::new();
    assert!(ctx.should_log(true, LogLevel::Info));
    assert!(!ctx.should_log(true, LogLevel::Debug));
    ctx.set_log_level(LogLevel::Trace, LogLevel::Error);
    assert!(ctx.should_log(true, LogLevel::Trace));
    assert!(!ctx.should_log(false, LogLevel::Warn));
    assert!(ctx.should_log(false, LogLevel::Error));
    assert_eq!(ctx.log_config().strategy_level, LogLevel::Error);
}

#[test]
fn new_position_is_flat() {
    let p = Position::new(amt("3"));
    assert_eq!(p.lever, amt("3"));
    assert_eq!(p.long.side, TradeSide::Long);
    assert_eq!(p.short.side, TradeSide::Short);
    assert_eq!(p.orders.len(), 0);
    assert_eq!(p.margin.total, amt("0"));
}

#[test]
fn swap_orders_pay_from_the_swap_wallet_with_leverage() {
    let mut bt = Backtest::new(
        "2024-01-01 00:00",
        "2024-01-01 00:05",
        vec![config(swap_code("ETH"), "10")],
        amt("0"),
        amt("1000"),
        2,
        false,
    )
    .unwrap();
    let begin = bt.begin;
    bt.install_candles("ETH/USDC:USDC", &flat_bars(begin, -2, 5, "2000")).unwrap();
    bt.place_order("ETH/USDC:USDC", TradeMethod::Market, TradeSide::Short, TradeAction::Sell, amt("1"), amt("2000"), None)
        .unwrap();
    bt.step();
    bt.step();
    assert_eq!(bt.context.swap.frozen, amt("202"));
    bt.step();
    let sym = bt.context.symbols.get_index(0).unwrap();
    assert_eq!(sym.position.short.size.total, amt("1"));
    assert_eq!(sym.position.margin.total, amt("200"));
    assert_eq!(bt.context.swap.total, amt("798"));
    check_balanced(&bt.context.swap);
}

#[test]
fn placed_orders_get_distinct_ids() {
    let mut bt = scenario_run();
    let a = bt
        .place_order("BTC/USDC", TradeMethod::Limit, TradeSide::Long, TradeAction::Buy, amt("1"), amt("10"), None)
        .unwrap();
    let b = bt
        .place_order("BTC/USDC", TradeMethod::Limit, TradeSide::Long, TradeAction::Buy, amt("1"), amt("10"), None)
        .unwrap();
    assert_ne!(a.id, b.id);
    assert_eq!(bt.context.symbols.get_index(0).unwrap().position.orders.len(), 2);
}

#[test]
fn from_times_builds_a_run_at_the_truncated_begin() {
    let begin = str_to_time("2024-03-01 10:00:30").unwrap();
    let end = str_to_time("2024-03-01 11:00").unwrap();
    let bt = Backtest::from_times(begin, end, vec![config(swap_code("SOL"), "5")], amt("0"), amt("50"), 60, true)
        .unwrap();
    assert_eq!(bt.begin, str_to_time("2024-03-01 10:00").unwrap());
    assert_eq!(bt.context.time, bt.begin);
    assert_eq!(bt.bar_count(), 61);
    assert_eq!(bt.grid_len(), 121);
    assert_eq!(bt.context.swap.avail, amt("50"));
    assert!(bt.force_sync_data);
    assert_eq!(bt.steps, 0);
}

#[test]
fn frozen_balance_is_exactly_the_resting_reserves() {
    let mut bt = Backtest::new(
        "2024-01-01 00:00",
        "2024-01-01 00:10",
        vec![config(spot_code("BTC"), "1"), config(spot_code("ETH"), "1")],
        amt("1000"),
        amt("0"),
        1,
        false,
    )
    .unwrap();
    let a = bt
        .place_order("BTC/USDC", TradeMethod::Limit, TradeSide::Long, TradeAction::Buy, amt("1"), amt("100"), None)
        .unwrap()
        .id;
    bt.place_order("ETH/USDC", TradeMethod::Limit, TradeSide::Long, TradeAction::Buy, amt("2"), amt("50"), None)
        .unwrap();
    bt.step();
    bt.step();
    assert_eq!(bt.context.spot.frozen, amt("200.2"));
    bt.cancel_order("BTC/USDC", a).unwrap();
    bt.step();
    assert_eq!(bt.context.spot.frozen, amt("100.1"));
    assert_eq!(bt.context.spot.avail, amt("899.9"));
    check_balanced(&bt.context.spot);
    bt.context.remove_expired_orders(0);
    assert_eq!(bt.context.symbols.get_index(0).unwrap().position.orders.len(), 0);
    assert_eq!(bt.context.spot.frozen, amt("100.1"));
}
