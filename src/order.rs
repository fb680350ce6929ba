//! Orders and the per-instrument order table.
use indexmap::IndexMap;
use std::hash::RandomState;
use vstd::prelude::*;

use crate::amount::Amount;
use crate::model::{OrderStatus, TradeAction, TradeMethod, TradeSide};
use crate::time::Time;

verus! {

#[verifier::external_type_specification]
#[verifier::external_body]
#[verifier::reject_recursive_types(K)]
#[verifier::reject_recursive_types(V)]
#[verifier::reject_recursive_types(S)]
pub struct ExIndexMap<K, V, S>(IndexMap<K, V, S>);

/// `IndexMap`'s `Clone`, relied on only so that tables holding one can be
/// cloned; nothing is promised of the copy.
pub assume_specification<K, V, S>[ <IndexMap<K, V, S> as Clone>::clone ](
    m: &IndexMap<K, V, S>,
) -> IndexMap<K, V, S>
    where
        K: Clone,
        V: Clone,
        S: Clone,
;

/// An order: identity fields fixed at creation, lifecycle fields that the
/// matching step fills in.
#[derive(Clone, Debug)]
pub struct Order {
    pub code: String,
    pub id: u128,
    pub method: TradeMethod,
    pub side: TradeSide,
    pub action: TradeAction,
    pub status: OrderStatus,
    pub size: Amount,
    pub price: Amount,
    pub deal_size: Amount,
    pub deal_price: Amount,
    pub deal_fee: Amount,
    pub margin: Amount,
    pub remark: Option<String>,
    pub create_time: Time,
    pub update_time: Time,
}

/// What an order holds, with its strings as character sequences.
pub struct OrderView {
    pub code: Seq<char>,
    pub id: u128,
    pub method: TradeMethod,
    pub side: TradeSide,
    pub action: TradeAction,
    pub status: OrderStatus,
    pub size: Amount,
    pub price: Amount,
    pub deal_size: Amount,
    pub deal_price: Amount,
    pub deal_fee: Amount,
    pub margin: Amount,
    pub remark: Option<Seq<char>>,
    pub create_time: Time,
    pub update_time: Time,
}

pub open spec fn opt_str_view(s: Option<String>) -> Option<Seq<char>> {
    match s {
        Some(t) => Some(t@),
        None => None,
    }
}

impl View for Order {
    type V = OrderView;

    open spec fn view(&self) -> OrderView {
        OrderView {
            code: self.code@,
            id: self.id,
            method: self.method,
            side: self.side,
            action: self.action,
            status: self.status,
            size: self.size,
            price: self.price,
            deal_size: self.deal_size,
            deal_price: self.deal_price,
            deal_fee: self.deal_fee,
            margin: self.margin,
            remark: opt_str_view(self.remark),
            create_time: self.create_time,
            update_time: self.update_time,
        }
    }
}

impl OrderView {
    /// A positive size, a fill that never exceeds it, and no negative
    /// margin.
    pub open spec fn wf(self) -> bool {
        &&& self.size.units > 0
        &&& 0 <= self.deal_size.units <= self.size.units
        &&& self.margin.units >= 0
    }

    /// `next` is `self` after a lifecycle move to `to` at `now`, with its
    /// fill fields as given and everything else kept.
    pub open spec fn moved(self, next: OrderView, to: OrderStatus, now: Time) -> bool {
        &&& self.status.may_move_to(to)
        &&& next.status == to
        &&& next.update_time == now
        &&& next.code == self.code
        &&& next.id == self.id
        &&& next.method == self.method
        &&& next.side == self.side
        &&& next.action == self.action
        &&& next.size == self.size
        &&& next.price == self.price
        &&& next.remark == self.remark
        &&& next.create_time == self.create_time
    }
}

pub open spec fn has_key<V>(s: Seq<(u128, V)>, k: u128) -> bool {
    exists|i: int| 0 <= i < s.len() && s[i].0 == k
}

pub open spec fn keys_unique<V>(s: Seq<(u128, V)>) -> bool {
    forall|i: int, j: int| 0 <= i < s.len() && 0 <= j < s.len() && s[i].0 == s[j].0 ==> i == j
}

/// The entries of an order table, in insertion order.
pub uninterp spec fn order_entries(m: IndexMap<u128, Order>) -> Seq<(u128, OrderView)>;

/// Relies on `IndexMap::new`: an empty map.
#[verifier::external_body]
fn index_map_new() -> (r: IndexMap<u128, Order>)
    ensures
        order_entries(r) == Seq::<(u128, OrderView)>::empty(),
{
    IndexMap::new()
}

/// Relies on `IndexMap::len`: the number of entries.
#[verifier::external_body]
fn index_map_len(m: &IndexMap<u128, Order>) -> (r: usize)
    ensures
        r == order_entries(*m).len(),
{
    m.len()
}

/// Relies on `IndexMap::get`: the value stored under `k`, cloned.
#[verifier::external_body]
fn index_map_get(m: &IndexMap<u128, Order>, k: u128) -> (r: Option<Order>)
    ensures
        match r {
            Some(o) => exists|i: int|
                0 <= i < order_entries(*m).len() && order_entries(*m)[i] == (k, o@),
            None => !has_key(order_entries(*m), k),
        },
{
    m.get(&k).cloned()
}

/// Relies on `IndexMap::get_index`: the value at position `i`, cloned.
#[verifier::external_body]
fn index_map_get_index(m: &IndexMap<u128, Order>, i: usize) -> (r: Option<Order>)
    ensures
        match r {
            Some(o) => i < order_entries(*m).len() && order_entries(*m)[i as int].1 == o@,
            None => i >= order_entries(*m).len(),
        },
{
    m.get_index(i).map(|(_, o)| o.clone())
}

/// Relies on `IndexMap::insert`: an existing key keeps its place and gets
/// the new value; a new key is appended.
#[verifier::external_body]
fn index_map_insert(m: &mut IndexMap<u128, Order>, k: u128, v: Order)
    ensures
        keys_unique(order_entries(*final(m))),
        forall|i: int|
            0 <= i < order_entries(*old(m)).len() && order_entries(*old(m))[i].0 == k
                ==> order_entries(*final(m)) == order_entries(*old(m)).update(i, (k, v@)),
        !has_key(order_entries(*old(m)), k) ==> order_entries(*final(m)) == order_entries(
            *old(m),
        ).push((k, v@)),
{
    m.insert(k, v);
}

pub open spec fn live_entry(e: (u128, OrderView)) -> bool {
    !e.1.status.terminal()
}

/// Relies on `IndexMap::retain`: keeps, in order, the entries whose order
/// is not in a terminal state.
#[verifier::external_body]
fn index_map_retain_live(m: &mut IndexMap<u128, Order>)
    ensures
        keys_unique(order_entries(*final(m))),
        order_entries(*final(m)) == order_entries(*old(m)).filter(|e: (u128, OrderView)| live_entry(e)),
{
    m.retain(|_, o| o.is_live());
}

impl Order {
    /// Whether the order is still in play (not in a terminal state).
    pub fn is_live(&self) -> (r: bool)
        ensures
            r == !self.status.terminal(),
    {
        !self.status.is_terminal()
    }
}

/// An instrument's orders, keyed by id and kept in insertion order.
#[derive(Clone)]
pub struct OrderMap {
    map: IndexMap<u128, Order, RandomState>,
}

impl View for OrderMap {
    type V = Seq<(u128, OrderView)>;

    closed spec fn view(&self) -> Seq<(u128, OrderView)> {
        order_entries(self.map)
    }
}

impl OrderMap {
    /// Ids are unique, each entry sits under its order's id, and every
    /// order is well-formed.
    pub open spec fn wf(&self) -> bool {
        &&& keys_unique(self@)
        &&& forall|i: int| 0 <= i < self@.len() ==> (#[trigger] self@[i]).0 == self@[i].1.id
        &&& forall|i: int| 0 <= i < self@.len() ==> (#[trigger] self@[i]).1.wf()
    }

    pub fn new() -> (r: OrderMap)
        ensures
            r.wf(),
            r@ == Seq::<(u128, OrderView)>::empty(),
    {
        OrderMap { map: index_map_new() }
    }

    pub fn len(&self) -> (r: usize)
        ensures
            r == self@.len(),
    {
        index_map_len(&self.map)
    }

    /// The order with id `id`, if there is one.
    pub fn get(&self, id: u128) -> (r: Option<Order>)
        requires
            self.wf(),
        ensures
            match r {
                Some(o) => exists|i: int| 0 <= i < self@.len() && self@[i] == (id, o@),
                None => !has_key(self@, id),
            },
    {
        index_map_get(&self.map, id)
    }

    /// The order at position `i` in insertion order.
    pub fn get_index(&self, i: usize) -> (r: Option<Order>)
        ensures
            match r {
                Some(o) => i < self@.len() && self@[i as int].1 == o@,
                None => i >= self@.len(),
            },
    {
        index_map_get_index(&self.map, i)
    }

    /// Adds a new order under its id; refused where that id is taken.
    pub fn insert_new(&mut self, order: Order) -> (r: Result<(), crate::error::LedgerError>)
        requires
            old(self).wf(),
            order@.wf(),
        ensures
            final(self).wf(),
            match r {
                Ok(()) => !has_key(old(self)@, order.id) && final(self)@ == old(self)@.push(
                    (order.id, order@),
                ),
                Err(e) => e == crate::error::LedgerError::DuplicateOrderId && has_key(
                    old(self)@,
                    order.id,
                ) && final(self)@ == old(self)@,
            },
    {
        let id = order.id;
        match index_map_get(&self.map, id) {
            Some(_) => Err(crate::error::LedgerError::DuplicateOrderId),
            None => {
                let ghost before = self@;
                index_map_insert(&mut self.map, id, order);
                assert forall|i: int| 0 <= i < self@.len() implies (#[trigger] self@[i]).0
                    == self@[i].1.id && self@[i].1.wf() by {
                    if i < before.len() {
                        assert(self@[i] == before[i]);
                    }
                }
                Ok(())
            },
        }
    }

    /// Puts `order` in place of the stored order with the same id.
    pub fn replace(&mut self, order: Order)
        requires
            old(self).wf(),
            order@.wf(),
            has_key(old(self)@, order.id),
        ensures
            final(self).wf(),
            forall|i: int|
                0 <= i < old(self)@.len() && old(self)@[i].0 == order.id ==> final(self)@
                    == old(self)@.update(i, (order.id, order@)),
    {
        let ghost before = self@;
        let id = order.id;
        index_map_insert(&mut self.map, id, order);
        let ghost k = choose|k: int| 0 <= k < before.len() && before[k].0 == id;
        assert(self@ == before.update(k, (id, order@)));
        assert forall|i: int| 0 <= i < self@.len() implies (#[trigger] self@[i]).0
            == self@[i].1.id && self@[i].1.wf() by {
            if i != k {
                assert(self@[i] == before[i]);
            }
        }
    }

    /// Deletes every order in a terminal state (rejected, completed or
    /// cancelled) and keeps the others, in their order.
    pub fn remove_expired(&mut self)
        requires
            old(self).wf(),
        ensures
            final(self).wf(),
            final(self)@ == old(self)@.filter(|e: (u128, OrderView)| live_entry(e)),
            forall|i: int|
                0 <= i < final(self)@.len() ==> !(#[trigger] final(self)@[i]).1.status.terminal()
                    && old(self)@.contains(final(self)@[i]),
            forall|i: int|
                0 <= i < old(self)@.len() && !(#[trigger] old(self)@[i]).1.status.terminal()
                    ==> final(self)@.contains(old(self)@[i]),
    {
        let ghost before = self@;
        index_map_retain_live(&mut self.map);
        proof {
            let f = |e: (u128, OrderView)| live_entry(e);
            assert(self@ == before.filter(f));
            assert forall|i: int| 0 <= i < self@.len() implies !(#[trigger] self@[i]).1.status.terminal()
                && before.contains(self@[i]) && self@[i].0 == self@[i].1.id && self@[i].1.wf() by {
                before.lemma_filter_pred(f, i);
                assert(before.filter(f).contains(self@[i]));
                before.lemma_filter_contains_rev(f, self@[i]);
                let j = choose|j: int| 0 <= j < before.len() && before[j] == self@[i];
                assert(before[j].0 == before[j].1.id && before[j].1.wf());
            }
            assert forall|i: int| 0 <= i < before.len() && !(#[trigger] before[i]).1.status.terminal()
                implies self@.contains(before[i]) by {
                before.lemma_filter_contains(f, i);
            }
        }
    }
}

impl Default for OrderMap {
    fn default() -> (r: OrderMap)
        ensures
            r.wf(),
            r@ == Seq::<(u128, OrderView)>::empty(),
    {
        OrderMap::new()
    }
}

} // verus!
