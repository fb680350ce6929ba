//! What resting orders hold frozen: sums over an order table and over the
//! instruments of a market, with the facts that keep them in step with the
//! frozen parts of wallets and sub-positions.
use vstd::prelude::*;

use crate::ledger::{reserve_held, size_held};
use crate::model::{Market, TradeSide};
use crate::order::{live_entry, OrderView};
use crate::position::{PositionView, SymbolView};

verus! {

/// The reserves that the orders of a table hold frozen in their wallet.
pub open spec fn reserved(s: Seq<(u128, OrderView)>) -> int
    decreases s.len(),
{
    if s.len() == 0 {
        0
    } else {
        reserved(s.drop_last()) + reserve_held(s.last().1)
    }
}

/// The sizes that the orders of a table hold frozen in the `side`
/// sub-position.
pub open spec fn size_reserved(s: Seq<(u128, OrderView)>, side: TradeSide) -> int
    decreases s.len(),
{
    if s.len() == 0 {
        0
    } else {
        size_reserved(s.drop_last(), side) + size_held(s.last().1, side)
    }
}

/// Each sub-position has frozen exactly the sizes its resting closing
/// orders hold.
pub open spec fn sides_exact(p: PositionView) -> bool {
    &&& p.long.size.frozen.units == size_reserved(p.orders, TradeSide::Long)
    &&& p.short.size.frozen.units == size_reserved(p.orders, TradeSide::Short)
}

/// What the orders of an instrument hold frozen in the wallet of market `m`.
pub open spec fn reserved_in(s: SymbolView, m: Market) -> int {
    if s.code.market == m {
        reserved(s.position.orders)
    } else {
        0
    }
}

/// What the orders of all instruments hold frozen in the wallet of market
/// `m`.
pub open spec fn market_reserved(syms: Seq<(Seq<char>, SymbolView)>, m: Market) -> int
    decreases syms.len(),
{
    if syms.len() == 0 {
        0
    } else {
        market_reserved(syms.drop_last(), m) + reserved_in(syms.last().1, m)
    }
}

pub open spec fn orders_wf(s: Seq<(u128, OrderView)>) -> bool {
    forall|i: int| 0 <= i < s.len() ==> (#[trigger] s[i]).1.wf()
}

pub proof fn lemma_reserved_push(s: Seq<(u128, OrderView)>, x: (u128, OrderView))
    ensures
        reserved(s.push(x)) == reserved(s) + reserve_held(x.1),
        size_reserved(s.push(x), TradeSide::Long) == size_reserved(s, TradeSide::Long) + size_held(
            x.1,
            TradeSide::Long,
        ),
        size_reserved(s.push(x), TradeSide::Short) == size_reserved(s, TradeSide::Short)
            + size_held(x.1, TradeSide::Short),
{
    assert(s.push(x).drop_last() =~= s);
}

pub proof fn lemma_reserved_update(s: Seq<(u128, OrderView)>, i: int, x: (u128, OrderView))
    requires
        0 <= i < s.len(),
    ensures
        reserved(s.update(i, x)) == reserved(s) - reserve_held(s[i].1) + reserve_held(x.1),
        size_reserved(s.update(i, x), TradeSide::Long) == size_reserved(s, TradeSide::Long)
            - size_held(s[i].1, TradeSide::Long) + size_held(x.1, TradeSide::Long),
        size_reserved(s.update(i, x), TradeSide::Short) == size_reserved(s, TradeSide::Short)
            - size_held(s[i].1, TradeSide::Short) + size_held(x.1, TradeSide::Short),
    decreases s.len(),
{
    let u = s.update(i, x);
    if i == s.len() - 1 {
        assert(u.drop_last() =~= s.drop_last());
    } else {
        assert(u.drop_last() =~= s.drop_last().update(i, x));
        lemma_reserved_update(s.drop_last(), i, x);
    }
}

pub proof fn lemma_reserved_filter(s: Seq<(u128, OrderView)>)
    ensures
        reserved(s.filter(|e: (u128, OrderView)| live_entry(e))) == reserved(s),
        size_reserved(s.filter(|e: (u128, OrderView)| live_entry(e)), TradeSide::Long)
            == size_reserved(s, TradeSide::Long),
        size_reserved(s.filter(|e: (u128, OrderView)| live_entry(e)), TradeSide::Short)
            == size_reserved(s, TradeSide::Short),
    decreases s.len(),
{
    let f = |e: (u128, OrderView)| live_entry(e);
    if s.len() > 0 {
        lemma_reserved_filter(s.drop_last());
        reveal_with_fuel(Seq::filter, 1);
        assert(s.filter(f) == (if f(s.last()) {
            s.drop_last().filter(f).push(s.last())
        } else {
            s.drop_last().filter(f)
        }));
        if f(s.last()) {
            lemma_reserved_push(s.drop_last().filter(f), s.last());
        }
    }
}

pub proof fn lemma_reserved_bounds(s: Seq<(u128, OrderView)>, i: int)
    requires
        orders_wf(s),
        0 <= i < s.len(),
    ensures
        0 <= reserve_held(s[i].1) <= reserved(s),
        0 <= size_held(s[i].1, TradeSide::Long) <= size_reserved(s, TradeSide::Long),
        0 <= size_held(s[i].1, TradeSide::Short) <= size_reserved(s, TradeSide::Short),
    decreases s.len(),
{
    lemma_reserved_nonneg(s.drop_last());
    if i < s.len() - 1 {
        assert(s.drop_last()[i] == s[i]);
        lemma_reserved_bounds(s.drop_last(), i);
    }
    assert(s.last() == s[s.len() - 1]);
}

pub proof fn lemma_reserved_nonneg(s: Seq<(u128, OrderView)>)
    requires
        orders_wf(s),
    ensures
        reserved(s) >= 0,
        size_reserved(s, TradeSide::Long) >= 0,
        size_reserved(s, TradeSide::Short) >= 0,
    decreases s.len(),
{
    if s.len() > 0 {
        assert(s.last() == s[s.len() - 1]);
        lemma_reserved_nonneg(s.drop_last());
    }
}

pub proof fn lemma_market_push(syms: Seq<(Seq<char>, SymbolView)>, x: (Seq<char>, SymbolView), m: Market)
    ensures
        market_reserved(syms.push(x), m) == market_reserved(syms, m) + reserved_in(x.1, m),
{
    assert(syms.push(x).drop_last() =~= syms);
}

pub proof fn lemma_market_update(
    syms: Seq<(Seq<char>, SymbolView)>,
    i: int,
    x: (Seq<char>, SymbolView),
    m: Market,
)
    requires
        0 <= i < syms.len(),
    ensures
        market_reserved(syms.update(i, x), m) == market_reserved(syms, m) - reserved_in(syms[i].1, m)
            + reserved_in(x.1, m),
    decreases syms.len(),
{
    let u = syms.update(i, x);
    if i == syms.len() - 1 {
        assert(u.drop_last() =~= syms.drop_last());
    } else {
        assert(u.drop_last() =~= syms.drop_last().update(i, x));
        lemma_market_update(syms.drop_last(), i, x, m);
    }
}

pub proof fn lemma_market_bounds(syms: Seq<(Seq<char>, SymbolView)>, i: int, m: Market)
    requires
        forall|k: int| 0 <= k < syms.len() ==> orders_wf((#[trigger] syms[k]).1.position.orders),
        0 <= i < syms.len(),
    ensures
        0 <= reserved_in(syms[i].1, m) <= market_reserved(syms, m),
    decreases syms.len(),
{
    lemma_market_nonneg(syms.drop_last(), m);
    assert(syms.last() == syms[syms.len() - 1]);
    lemma_reserved_nonneg(syms[syms.len() - 1].1.position.orders);
    lemma_reserved_nonneg(syms[i].1.position.orders);
    if i < syms.len() - 1 {
        assert(syms.drop_last()[i] == syms[i]);
        lemma_market_bounds(syms.drop_last(), i, m);
    }
}

pub proof fn lemma_market_nonneg(syms: Seq<(Seq<char>, SymbolView)>, m: Market)
    requires
        forall|k: int| 0 <= k < syms.len() ==> orders_wf((#[trigger] syms[k]).1.position.orders),
    ensures
        market_reserved(syms, m) >= 0,
    decreases syms.len(),
{
    if syms.len() > 0 {
        assert(syms.last() == syms[syms.len() - 1]);
        lemma_reserved_nonneg(syms[syms.len() - 1].1.position.orders);
        assert forall|k: int| 0 <= k < syms.drop_last().len() implies orders_wf(
            (#[trigger] syms.drop_last()[k]).1.position.orders,
        ) by {
            assert(syms.drop_last()[k] == syms[k]);
        }
        lemma_market_nonneg(syms.drop_last(), m);
    }
}

} // verus!
