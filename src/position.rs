//! Instruments, their long/short sub-positions, and the table of the
//! instruments of a run.
use indexmap::IndexMap;
use std::hash::RandomState;
use vstd::prelude::*;

use crate::amount::{Amount, AMOUNT_ONE};
use crate::model::{Market, TradeSide};
use crate::order::{opt_str_view, OrderMap, OrderView};
use crate::wallet::{Pnl, Volume};

verus! {

/// An entry of the instrument catalog: exchange id, display code (the key
/// of the instrument in a run), market, size decimals, maximum leverage and,
/// for a spot pair, the base coin.
#[derive(Debug)]
pub struct SymbolCode {
    pub id: String,
    pub code: String,
    pub market: Market,
    pub decimals: u32,
    pub max_lever: u32,
    pub base: Option<String>,
}

pub struct SymbolCodeView {
    pub id: Seq<char>,
    pub code: Seq<char>,
    pub market: Market,
    pub decimals: u32,
    pub max_lever: u32,
    pub base: Option<Seq<char>>,
}

impl View for SymbolCode {
    type V = SymbolCodeView;

    open spec fn view(&self) -> SymbolCodeView {
        SymbolCodeView {
            id: self.id@,
            code: self.code@,
            market: self.market,
            decimals: self.decimals,
            max_lever: self.max_lever,
            base: opt_str_view(self.base),
        }
    }
}

impl Clone for SymbolCode {
    fn clone(&self) -> (r: SymbolCode)
        ensures
            r@ == self@,
    {
        let base = match &self.base {
            Some(b) => Some(b.clone()),
            None => None,
        };
        SymbolCode {
            id: self.id.clone(),
            code: self.code.clone(),
            market: self.market,
            decimals: self.decimals,
            max_lever: self.max_lever,
            base,
        }
    }
}

/// One direction of an instrument's position: size held (total, available,
/// frozen by closing orders), average entry price and profit.
#[derive(Clone, Copy, Debug, PartialEq, Eq, Structural)]
pub struct SidePosition {
    pub side: TradeSide,
    pub size: Volume,
    pub price: Amount,
    pub pnl: Pnl,
}

impl SidePosition {
    pub open spec fn wf(self) -> bool {
        &&& self.size.wf()
        &&& self.price.units >= 0
    }

    /// An empty sub-position.
    pub fn new(side: TradeSide) -> (r: SidePosition)
        ensures
            r.wf(),
            r.side == side,
            r.size.total.units == 0,
            r.price.units == 0,
            r.pnl.realized.units == 0,
            r.pnl.unrealized.units == 0,
            r.size.avail.units == 0,
            r.size.frozen.units == 0,
    {
        SidePosition { side, size: Volume::default(), price: Amount::zero(), pnl: Pnl::default() }
    }
}

/// An instrument's position: margin, profit, the two sub-positions, the
/// leverage and the orders.
#[derive(Clone)]
pub struct Position {
    pub margin: Volume,
    pub pnl: Pnl,
    pub long: SidePosition,
    pub short: SidePosition,
    pub lever: Amount,
    pub orders: OrderMap,
}

pub struct PositionView {
    pub margin: Volume,
    pub pnl: Pnl,
    pub long: SidePosition,
    pub short: SidePosition,
    pub lever: Amount,
    pub orders: Seq<(u128, OrderView)>,
}

impl View for Position {
    type V = PositionView;

    open spec fn view(&self) -> PositionView {
        PositionView {
            margin: self.margin,
            pnl: self.pnl,
            long: self.long,
            short: self.short,
            lever: self.lever,
            orders: self.orders@,
        }
    }
}

/// A position with no size, margin or profit, leverage `lever` and no
/// orders.
pub open spec fn flat_position(lever: Amount) -> PositionView {
    let zero = Amount { units: 0 };
    let empty = Volume { total: zero, avail: zero, frozen: zero };
    let no_pnl = Pnl { realized: zero, unrealized: zero };
    PositionView {
        margin: empty,
        pnl: no_pnl,
        long: SidePosition { side: TradeSide::Long, size: empty, price: zero, pnl: no_pnl },
        short: SidePosition { side: TradeSide::Short, size: empty, price: zero, pnl: no_pnl },
        lever,
        orders: Seq::empty(),
    }
}

/// A leverage is a whole number of at least one.
pub open spec fn valid_lever(lever: Amount) -> bool {
    lever.units >= AMOUNT_ONE && lever.units % AMOUNT_ONE == 0
}

impl Position {
    pub open spec fn wf(&self) -> bool {
        &&& self.margin.wf()
        &&& self.long.wf()
        &&& self.long.side == TradeSide::Long
        &&& self.short.wf()
        &&& self.short.side == TradeSide::Short
        &&& valid_lever(self.lever)
        &&& self.orders.wf()
    }

    /// A flat position with leverage `lever` and no orders.
    pub fn new(lever: Amount) -> (r: Position)
        requires
            valid_lever(lever),
        ensures
            r.wf(),
            r@ == flat_position(lever),
    {
        Position {
            margin: Volume::default(),
            pnl: Pnl::default(),
            long: SidePosition::new(TradeSide::Long),
            short: SidePosition::new(TradeSide::Short),
            lever,
            orders: OrderMap::new(),
        }
    }
}

/// A traded instrument of a run: its catalog entry, taker and maker fee
/// rates, and its position.
#[derive(Clone)]
pub struct Symbol {
    pub code: SymbolCode,
    pub taker: Amount,
    pub maker: Amount,
    pub position: Position,
}

pub struct SymbolView {
    pub code: SymbolCodeView,
    pub taker: Amount,
    pub maker: Amount,
    pub position: PositionView,
}

impl View for Symbol {
    type V = SymbolView;

    open spec fn view(&self) -> SymbolView {
        SymbolView {
            code: self.code@,
            taker: self.taker,
            maker: self.maker,
            position: self.position@,
        }
    }
}

impl Symbol {
    pub open spec fn wf(&self) -> bool {
        &&& self.position.wf()
        &&& crate::holdings::sides_exact(self.position@)
    }

    pub fn new(code: SymbolCode, taker: Amount, maker: Amount, lever: Amount) -> (r: Symbol)
        requires
            valid_lever(lever),
        ensures
            r.wf(),
            r@ == (SymbolView { code: code@, taker, maker, position: flat_position(lever) }),
    {
        Symbol { code, taker, maker, position: Position::new(lever) }
    }
}

pub open spec fn has_code<V>(s: Seq<(Seq<char>, V)>, k: Seq<char>) -> bool {
    exists|i: int| 0 <= i < s.len() && s[i].0 == k
}

pub open spec fn codes_unique<V>(s: Seq<(Seq<char>, V)>) -> bool {
    forall|i: int, j: int| 0 <= i < s.len() && 0 <= j < s.len() && s[i].0 == s[j].0 ==> i == j
}

/// The entries of an instrument table, in insertion order.
pub uninterp spec fn symbol_entries(m: IndexMap<String, Symbol>) -> Seq<(Seq<char>, SymbolView)>;

/// Relies on `IndexMap::new`: an empty map.
#[verifier::external_body]
fn symbol_map_new() -> (r: IndexMap<String, Symbol>)
    ensures
        symbol_entries(r) == Seq::<(Seq<char>, SymbolView)>::empty(),
{
    IndexMap::new()
}

/// Relies on `IndexMap::len`: the number of entries.
#[verifier::external_body]
fn symbol_map_len(m: &IndexMap<String, Symbol>) -> (r: usize)
    ensures
        r == symbol_entries(*m).len(),
{
    m.len()
}

/// Relies on `IndexMap::get_index_of`: the position of the entry under `k`.
#[verifier::external_body]
fn symbol_map_index_of(m: &IndexMap<String, Symbol>, k: &str) -> (r: Option<usize>)
    ensures
        match r {
            Some(i) => i < symbol_entries(*m).len() && symbol_entries(*m)[i as int].0 == k@,
            None => !has_code(symbol_entries(*m), k@),
        },
{
    m.get_index_of(k)
}

/// Relies on `IndexMap::get_index`: the entry at position `i`, cloned.
#[verifier::external_body]
fn symbol_map_get_index(m: &IndexMap<String, Symbol>, i: usize) -> (r: Option<Symbol>)
    ensures
        match r {
            Some(s) => i < symbol_entries(*m).len() && symbol_entries(*m)[i as int].1 == s@,
            None => i >= symbol_entries(*m).len(),
        },
{
    m.get_index(i).map(|(_, s)| s.clone())
}

/// Relies on `IndexMap::insert`: an existing key keeps its place and gets
/// the new value; a new key is appended.
#[verifier::external_body]
fn symbol_map_insert(m: &mut IndexMap<String, Symbol>, k: String, v: Symbol)
    ensures
        codes_unique(symbol_entries(*final(m))),
        forall|i: int|
            0 <= i < symbol_entries(*old(m)).len() && symbol_entries(*old(m))[i].0 == k@
                ==> symbol_entries(*final(m)) == symbol_entries(*old(m)).update(i, (k@, v@)),
        !has_code(symbol_entries(*old(m)), k@) ==> symbol_entries(*final(m)) == symbol_entries(
            *old(m),
        ).push((k@, v@)),
{
    m.insert(k, v);
}

/// The instruments of a run, keyed by display code, in the order they were
/// configured.
pub struct SymbolMap {
    map: IndexMap<String, Symbol, RandomState>,
}

impl View for SymbolMap {
    type V = Seq<(Seq<char>, SymbolView)>;

    closed spec fn view(&self) -> Seq<(Seq<char>, SymbolView)> {
        symbol_entries(self.map)
    }
}

pub open spec fn symbol_view_wf(s: SymbolView) -> bool {
    &&& s.position.margin.wf()
    &&& s.position.long.wf()
    &&& s.position.long.side == TradeSide::Long
    &&& s.position.short.wf()
    &&& s.position.short.side == TradeSide::Short
    &&& valid_lever(s.position.lever)
    &&& crate::order::keys_unique(s.position.orders)
    &&& forall|i: int|
        0 <= i < s.position.orders.len() ==> (#[trigger] s.position.orders[i]).0
            == s.position.orders[i].1.id && s.position.orders[i].1.wf()
    &&& crate::holdings::sides_exact(s.position)
}

impl SymbolMap {
    /// Codes are unique, each entry sits under its instrument's code, and
    /// every instrument is well-formed.
    pub open spec fn wf(&self) -> bool {
        &&& codes_unique(self@)
        &&& forall|i: int| 0 <= i < self@.len() ==> (#[trigger] self@[i]).0 == self@[i].1.code.code
        &&& forall|i: int| 0 <= i < self@.len() ==> symbol_view_wf(#[trigger] self@[i].1)
    }

    pub fn new() -> (r: SymbolMap)
        ensures
            r.wf(),
            r@ == Seq::<(Seq<char>, SymbolView)>::empty(),
    {
        SymbolMap { map: symbol_map_new() }
    }

    pub fn len(&self) -> (r: usize)
        ensures
            r == self@.len(),
    {
        symbol_map_len(&self.map)
    }

    /// Where the instrument with display code `code` stands, if configured.
    pub fn index_of(&self, code: &str) -> (r: Option<usize>)
        ensures
            match r {
                Some(i) => i < self@.len() && self@[i as int].0 == code@,
                None => !has_code(self@, code@),
            },
    {
        symbol_map_index_of(&self.map, code)
    }

    /// Whether an instrument with display code `code` is configured.
    pub fn contains(&self, code: &str) -> (r: bool)
        ensures
            r == has_code(self@, code@),
    {
        symbol_map_index_of(&self.map, code).is_some()
    }

    /// The instrument at position `i`.
    pub fn get_index(&self, i: usize) -> (r: Option<Symbol>)
        ensures
            match r {
                Some(s) => i < self@.len() && self@[i as int].1 == s@,
                None => i >= self@.len(),
            },
    {
        symbol_map_get_index(&self.map, i)
    }

    /// Adds an instrument whose code is not configured yet.
    pub fn insert_new(&mut self, symbol: Symbol)
        requires
            old(self).wf(),
            symbol.wf(),
            !has_code(old(self)@, symbol.code.code@),
        ensures
            final(self).wf(),
            final(self)@ == old(self)@.push((symbol.code.code@, symbol@)),
    {
        let ghost before = self@;
        let key = symbol.code.code.clone();
        symbol_map_insert(&mut self.map, key, symbol);
        assert forall|i: int| 0 <= i < self@.len() implies (#[trigger] self@[i]).0
            == self@[i].1.code.code && symbol_view_wf(self@[i].1) by {
            if i < before.len() {
                assert(self@[i] == before[i]);
            }
        }
    }

    /// Puts `symbol` at position `i`, in place of the instrument with the
    /// same code.
    pub fn set_index(&mut self, i: usize, symbol: Symbol)
        requires
            old(self).wf(),
            symbol.wf(),
            i < old(self)@.len(),
            old(self)@[i as int].0 == symbol.code.code@,
        ensures
            final(self).wf(),
            final(self)@ == old(self)@.update(i as int, (symbol.code.code@, symbol@)),
    {
        let ghost before = self@;
        let ghost sv = symbol@;
        let key = symbol.code.code.clone();
        symbol_map_insert(&mut self.map, key, symbol);
        assert(before[i as int].0 == sv.code.code);
        assert(self@ == before.update(i as int, (sv.code.code, sv)));
        assert forall|j: int| 0 <= j < self@.len() implies (#[trigger] self@[j]).0
            == self@[j].1.code.code && symbol_view_wf(self@[j].1) by {
            if j != i {
                assert(self@[j] == before[j]);
            }
        }
    }
}

} // verus!
