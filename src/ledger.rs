//! The order lifecycle against one instrument's position and its market's
//! wallet, bar by bar.
//!
//! Matching policy:
//! - A new order is dispatched (`New -> Submitting`) on the first step
//!   after it was placed.
//! - On the next step it is accepted or rejected. An order that opens size
//!   (buy long, sell short) freezes its reserve in the wallet: the margin
//!   `size * price / lever` plus the taker fee on `size * price`. An order
//!   that closes size (sell long, buy short) freezes that size of the
//!   sub-position. Where that cannot be frozen the order is rejected.
//! - A pending order fills whole, on a bar that has data: a market order at
//!   the bar's open with the taker rate, a limit buy at its price once the
//!   bar's low reaches it, a limit sell at its price once the bar's high
//!   reaches it, both with the maker rate. A fill that the wallet cannot
//!   pay waits for a later bar.
//! - Opening fills release the reserve, pay margin and fee at the fill
//!   price, add the size to the sub-position and move its average price.
//!   Closing fills spend the frozen size, release the margin of that size at
//!   the average price, and pay the realized profit less the fee into the
//!   wallet.
//! - A cancel request (`Pending -> Cancelling`) is confirmed on the next
//!   step (`Cancelling -> Cancelled`), which unfreezes what acceptance froze.
use vstd::prelude::*;

use crate::amount::{div_trunc, in_i128, Amount, AMOUNT_ONE};
use crate::candle::Candle;
use crate::model::{OrderStatus, TradeAction, TradeMethod, TradeSide};
use crate::order::{Order, OrderView};
use crate::position::{valid_lever, Position, PositionView};
use crate::time::Time;
use crate::wallet::Volume;

verus! {

/// Whether an order of this side and action adds to its sub-position.
pub open spec fn opens(side: TradeSide, action: TradeAction) -> bool {
    (side is Long && action is Buy) || (side is Short && action is Sell)
}

/// `a * b` for amounts, rounded toward zero.
pub open spec fn mul_amount(a: int, b: int) -> int {
    div_trunc(a * b, AMOUNT_ONE as int)
}

/// The margin of `size` at `price` under leverage `lever`, where every
/// intermediate value fits.
pub open spec fn margin_of(size: Amount, price: Amount, lever: Amount) -> Option<int> {
    if in_i128(size.units * price.units) {
        Some(div_trunc(mul_amount(size.units as int, price.units as int), lever.units / AMOUNT_ONE))
    } else {
        None
    }
}

/// The fee on `size` at `price` with fee rate `rate`.
pub open spec fn fee_of(size: Amount, price: Amount, rate: Amount) -> Option<int> {
    if in_i128(size.units * price.units) {
        let n = mul_amount(size.units as int, price.units as int);
        if in_i128(n * rate.units) {
            Some(mul_amount(n, rate.units as int))
        } else {
            None
        }
    } else {
        None
    }
}

/// What an order that opens size reserves: margin plus taker fee at its own
/// price.
pub open spec fn reserve_of(size: Amount, price: Amount, lever: Amount, taker: Amount) -> Option<
    int,
> {
    match (margin_of(size, price, lever), fee_of(size, price, taker)) {
        (Some(m), Some(f)) => if in_i128(m + f) {
            Some(m + f)
        } else {
            None
        },
        _ => None,
    }
}

/// The price at which a pending order fills on `bar`, if it does.
pub open spec fn fill_price(o: OrderView, bar: Candle) -> Option<Amount> {
    match o.method {
        TradeMethod::Market => Some(bar.open),
        TradeMethod::Limit => if (o.action is Buy && bar.low.units <= o.price.units) || (
        o.action is Sell && bar.high.units >= o.price.units) {
            Some(o.price)
        } else {
            None
        },
    }
}

/// The margin of `size` at `price` under `lever`.
pub fn margin_for(size: Amount, price: Amount, lever: Amount) -> (r: Option<Amount>)
    requires
        valid_lever(lever),
    ensures
        match r {
            Some(a) => margin_of(size, price, lever) == Some(a.units as int),
            None => margin_of(size, price, lever) is None,
        },
{
    match size.checked_mul(price) {
        Some(n) => {
            let l = lever.whole_part();
            Some(n.div_whole(l))
        },
        None => None,
    }
}

/// The fee on `size` at `price` with rate `rate`.
pub fn fee_for(size: Amount, price: Amount, rate: Amount) -> (r: Option<Amount>)
    ensures
        match r {
            Some(a) => fee_of(size, price, rate) == Some(a.units as int),
            None => fee_of(size, price, rate) is None,
        },
{
    match size.checked_mul(price) {
        Some(n) => n.checked_mul(rate),
        None => None,
    }
}

/// The reserve of an order that opens size.
pub fn reserve_for(size: Amount, price: Amount, lever: Amount, taker: Amount) -> (r: Option<Amount>)
    requires
        valid_lever(lever),
    ensures
        match r {
            Some(a) => reserve_of(size, price, lever, taker) == Some(a.units as int),
            None => reserve_of(size, price, lever, taker) is None,
        },
{
    match (margin_for(size, price, lever), fee_for(size, price, taker)) {
        (Some(m), Some(f)) => m.checked_add(f),
        _ => None,
    }
}

/// The price at which `o` fills on `bar`, if it does.
pub fn fill_price_on(o: &Order, bar: &Candle) -> (r: Option<Amount>)
    ensures
        r == fill_price(o@, *bar),
{
    match o.method {
        TradeMethod::Market => Some(bar.open),
        TradeMethod::Limit => {
            let buy = match o.action {
                TradeAction::Buy => true,
                TradeAction::Sell => false,
            };
            if (buy && bar.low.units <= o.price.units) || (!buy && bar.high.units
                >= o.price.units) {
                Some(o.price)
            } else {
                None
            }
        },
    }
}

/// Whether `o` adds to its sub-position.
pub fn is_opening(o: &Order) -> (r: bool)
    ensures
        r == opens(o.side, o.action),
{
    match (o.side, o.action) {
        (TradeSide::Long, TradeAction::Buy) => true,
        (TradeSide::Short, TradeAction::Sell) => true,
        _ => false,
    }
}

/// The sub-position an order of `side` belongs to.
pub open spec fn side_of(p: PositionView, side: TradeSide) -> crate::position::SidePosition {
    match side {
        TradeSide::Long => p.long,
        TradeSide::Short => p.short,
    }
}

/// What closing at `price` gains per unit against the average entry `avg`.
pub open spec fn gain_of(side: TradeSide, price: Amount, avg: Amount) -> int {
    match side {
        TradeSide::Long => price.units - avg.units,
        TradeSide::Short => avg.units - price.units,
    }
}

/// How acceptance leaves an order `o0` (now `o1`), the wallet (`w0` to
/// `w1`) and the position (`pos0` to `pos1`): an opening order is accepted
/// exactly when its reserve is defined and available, and freezes it; a
/// closing order is accepted exactly when the size it closes is available
/// in its sub-position, and freezes that; a rejection changes nothing else.
pub open spec fn accepted(
    o0: OrderView,
    o1: OrderView,
    w0: Volume,
    w1: Volume,
    pos0: PositionView,
    pos1: PositionView,
    taker: Amount,
) -> bool {
    &&& o1.status == OrderStatus::Rejected ==> w1 == w0 && pos1 == pos0
    &&& opens(o0.side, o0.action) ==> match reserve_of(o0.size, o0.price, pos0.lever, taker) {
        Some(r) => {
            &&& (o1.status == OrderStatus::Pending) == (0 <= r <= w0.avail.units)
            &&& o1.status == OrderStatus::Pending ==> o1.margin.units == r && w1.frozen.units
                == w0.frozen.units + r && w1.avail.units == w0.avail.units - r && pos1 == pos0
        },
        None => o1.status == OrderStatus::Rejected,
    }
    &&& !opens(o0.side, o0.action) ==> {
        &&& (o1.status == OrderStatus::Pending) == (o0.size.units <= side_of(pos0, o0.side).size.avail.units)
        &&& o1.status == OrderStatus::Pending ==> w1 == w0 && side_of(pos1, o0.side).size.frozen.units
            == side_of(pos0, o0.side).size.frozen.units + o0.size.units && o1.margin == o0.margin
    }
}

/// What an order holds frozen in its market's wallet: the reserve of an
/// accepted opening order that is still resting (pending or being
/// cancelled).
pub open spec fn reserve_held(o: OrderView) -> int {
    if opens(o.side, o.action) && (o.status is Pending || o.status is Cancelling) {
        o.margin.units as int
    } else {
        0
    }
}

/// What an order holds frozen in the `side` sub-position's size: the size
/// of an accepted closing order on that side that is still resting.
pub open spec fn size_held(o: OrderView, side: TradeSide) -> int {
    if !opens(o.side, o.action) && o.side == side && (o.status is Pending || o.status is Cancelling) {
        o.size.units as int
    } else {
        0
    }
}

/// The frozen parts of the wallet and of both sub-positions moved exactly
/// by what the order holds frozen before and after.
pub open spec fn frozen_follows(
    o0: OrderView,
    o1: OrderView,
    w0: Volume,
    w1: Volume,
    pos0: PositionView,
    pos1: PositionView,
) -> bool {
    &&& w1.frozen.units - w0.frozen.units == reserve_held(o1) - reserve_held(o0)
    &&& pos1.long.size.frozen.units - pos0.long.size.frozen.units == size_held(o1, TradeSide::Long)
        - size_held(o0, TradeSide::Long)
    &&& pos1.short.size.frozen.units - pos0.short.size.frozen.units == size_held(
        o1,
        TradeSide::Short,
    ) - size_held(o0, TradeSide::Short)
}

/// The order's frozen holdings are covered by what is frozen.
pub open spec fn holdings_covered(o: OrderView, w: Volume, pos: PositionView) -> bool {
    &&& reserve_held(o) <= w.frozen.units
    &&& size_held(o, TradeSide::Long) <= pos.long.size.frozen.units
    &&& size_held(o, TradeSide::Short) <= pos.short.size.frozen.units
}

/// Well-formed wallet and position.
pub open spec fn books_wf(wallet: Volume, pos: &Position) -> bool {
    wallet.wf() && pos.wf()
}

/// The order after one matching step: either unchanged, or moved along one
/// edge of the lifecycle with its identity kept.
pub open spec fn stepped(before: OrderView, after: OrderView, now: Time) -> bool {
    after == before || exists|to: OrderStatus| before.moved(after, to, now)
}

/// What one matching step against `bar` at `now` does to an order, by its
/// state: terminal orders stay as they are; a new order is dispatched; a
/// submitted one is accepted or rejected; a cancel request is confirmed; a
/// pending order stays as it is unless the bar reaches its fill price,
/// and if it fills, it fills whole at that price.
pub open spec fn order_stepped(before: OrderView, after: OrderView, bar: Option<Candle>, now: Time) -> bool {
    &&& stepped(before, after, now)
    &&& after.id == before.id
    &&& before.status.terminal() ==> after == before
    &&& before.status == OrderStatus::New ==> after == (OrderView {
        status: OrderStatus::Submitting,
        update_time: now,
        ..before
    })
    &&& before.status == OrderStatus::Submitting ==> (after.status == OrderStatus::Pending
        || after.status == OrderStatus::Rejected)
    &&& before.status == OrderStatus::Cancelling ==> after.status == OrderStatus::Cancelled
    &&& before.status == OrderStatus::Pending ==> match bar {
        None => after == before,
        Some(b) => match fill_price(before, b) {
            None => after == before,
            Some(p) => after == before || (after.status == OrderStatus::Completed
                && after.deal_size == before.size && after.deal_price == p),
        },
    }
}

/// Accepts or rejects a submitted order, freezing its reserve (or the size
/// it closes).
pub fn accept(o: &mut Order, wallet: &mut Volume, pos: &mut Position, taker: Amount, now: Time)
    requires
        old(o)@.wf(),
        old(o).status == OrderStatus::Submitting,
        books_wf(*old(wallet), old(pos)),
    ensures
        frozen_follows(old(o)@, final(o)@, *old(wallet), *final(wallet), old(pos)@, final(pos)@),
        final(o)@.wf(),
        books_wf(*final(wallet), final(pos)),
        final(o).status == OrderStatus::Pending || final(o).status == OrderStatus::Rejected,
        old(o)@.moved(final(o)@, final(o).status, now),
        accepted(old(o)@, final(o)@, *old(wallet), *final(wallet), old(pos)@, final(pos)@, taker),
        final(o).deal_size == old(o).deal_size,
        final(pos).lever == old(pos).lever,
        final(pos).orders@ == old(pos).orders@,
        final(wallet).total == old(wallet).total,
{
    if is_opening(o) {
        match reserve_for(o.size, o.price, pos.lever, taker) {
            Some(reserve) => {
                if reserve.units >= 0 && wallet.freeze(reserve).is_ok() {
                    o.margin = reserve;
                    o.status = OrderStatus::Pending;
                } else {
                    o.status = OrderStatus::Rejected;
                }
            },
            None => {
                o.status = OrderStatus::Rejected;
            },
        }
    } else {
        let r = match o.side {
            TradeSide::Long => pos.long.size.freeze(o.size),
            TradeSide::Short => pos.short.size.freeze(o.size),
        };
        if r.is_ok() {
            o.status = OrderStatus::Pending;
        } else {
            o.status = OrderStatus::Rejected;
        }
    }
    o.update_time = now;
}

/// Confirms a cancellation, unfreezing what acceptance froze.
pub fn confirm_cancel(o: &mut Order, wallet: &mut Volume, pos: &mut Position, now: Time)
    requires
        old(o)@.wf(),
        old(o).status == OrderStatus::Cancelling,
        books_wf(*old(wallet), old(pos)),
        holdings_covered(old(o)@, *old(wallet), old(pos)@),
    ensures
        frozen_follows(old(o)@, final(o)@, *old(wallet), *final(wallet), old(pos)@, final(pos)@),
        final(o)@.wf(),
        books_wf(*final(wallet), final(pos)),
        final(o)@ == (OrderView { status: OrderStatus::Cancelled, update_time: now, ..old(o)@ }),
        opens(old(o).side, old(o).action) ==> final(pos)@ == old(pos)@ && final(wallet).frozen.units
            == old(wallet).frozen.units - old(o).margin.units && final(wallet).avail.units
            == old(wallet).avail.units + old(o).margin.units,
        !opens(old(o).side, old(o).action) ==> *final(wallet) == *old(wallet) && side_of(
            final(pos)@,
            old(o).side,
        ).size.frozen.units == side_of(old(pos)@, old(o).side).size.frozen.units - old(o).size.units,
        final(pos).lever == old(pos).lever,
        final(pos).orders@ == old(pos).orders@,
        final(wallet).total == old(wallet).total,
{
    if is_opening(o) {
        let _ = wallet.unfreeze(o.margin);
    } else {
        let _ = match o.side {
            TradeSide::Long => pos.long.size.unfreeze(o.size),
            TradeSide::Short => pos.short.size.unfreeze(o.size),
        };
    }
    o.status = OrderStatus::Cancelled;
    o.update_time = now;
}

/// The size-weighted average of `avg` over `held` and `price` over `size`.
pub open spec fn average_of(held: Amount, avg: Amount, size: Amount, price: Amount) -> int {
    div_trunc(
        (mul_amount(held.units as int, avg.units as int) + mul_amount(size.units as int, price.units as int))
            * AMOUNT_ONE,
        held.units + size.units,
    )
}

/// Whether every intermediate value of `average_of` fits.
pub open spec fn average_defined(held: Amount, avg: Amount, size: Amount, price: Amount) -> bool {
    let sum = mul_amount(held.units as int, avg.units as int) + mul_amount(size.units as int, price.units as int);
    &&& in_i128(held.units * avg.units)
    &&& in_i128(size.units * price.units)
    &&& in_i128(held.units + size.units)
    &&& in_i128(sum)
    &&& held.units + size.units > 0
    &&& sum >= 0
    &&& in_i128(sum * AMOUNT_ONE)
}

/// Whether a pending opening order `o` fills at `price` with fee rate
/// `rate` against wallet `w` and position `p`: margin and fee are defined,
/// the reserve it froze is still frozen, the wallet can pay margin and fee
/// from what is available plus that reserve, and every new balance fits.
pub open spec fn opening_fill_ok(o: OrderView, w: Volume, p: PositionView, price: Amount, rate: Amount) -> bool {
    let side = side_of(p, o.side);
    match (margin_of(o.size, price, p.lever), fee_of(o.size, price, rate)) {
        (Some(m), Some(f)) => {
            &&& in_i128(m + f)
            &&& m >= 0
            &&& m + f >= 0
            &&& o.margin.units <= w.frozen.units
            &&& average_defined(side.size.total, side.price, o.size, price)
            &&& in_i128(side.pnl.realized.units - f)
            &&& m <= i128::MAX - p.margin.total.units
            &&& o.size.units <= i128::MAX - side.size.total.units
            &&& m + f <= w.avail.units + o.margin.units
        },
        _ => false,
    }
}

/// What filling `o0` (now `o1`) did to the wallet (`w0` to `w1`) and the
/// position (`pos0` to `pos1`). Opening: the reserve leaves frozen, the
/// margin at the fill price moves into the position and the fee is paid.
/// Closing: the size leaves the sub-position, and wallet plus margin change
/// by the realized profit less the fee.
pub open spec fn filled_books(
    o0: OrderView,
    o1: OrderView,
    w0: Volume,
    w1: Volume,
    pos0: PositionView,
    pos1: PositionView,
) -> bool {
    let s0 = side_of(pos0, o0.side);
    let s1 = side_of(pos1, o0.side);
    if opens(o0.side, o0.action) {
        &&& margin_of(o0.size, o1.deal_price, pos0.lever) == Some(
            pos1.margin.total.units - pos0.margin.total.units,
        )
        &&& w1.total.units + pos1.margin.total.units == w0.total.units + pos0.margin.total.units
            - o1.deal_fee.units
        &&& w1.frozen.units == w0.frozen.units - o0.margin.units
        &&& s1.size.total.units == s0.size.total.units + o0.size.units
        &&& s1.price.units == average_of(s0.size.total, s0.price, o0.size, o1.deal_price)
    } else {
        &&& w1.total.units + pos1.margin.total.units == w0.total.units + pos0.margin.total.units
            + mul_amount(gain_of(o0.side, o1.deal_price, s0.price), o0.size.units as int)
            - o1.deal_fee.units
        &&& s1.size.total.units == s0.size.total.units - o0.size.units
        &&& s1.size.frozen.units == s0.size.frozen.units - o0.size.units
    }
}

/// Whether a pending order `o` fills at `price` with fee rate `rate`.
pub open spec fn fill_ok(o: OrderView, w: Volume, p: PositionView, price: Amount, rate: Amount) -> bool {
    &&& price.units >= 0
    &&& if opens(o.side, o.action) {
        opening_fill_ok(o, w, p, price, rate)
    } else {
        closing_fill_ok(o, w, p, price, rate)
    }
}

/// What a closing fill releases from the position's margin: the margin of
/// the size at the average price, at most what is available.
pub open spec fn released_of(o: OrderView, p: PositionView) -> Option<int> {
    match margin_of(o.size, side_of(p, o.side).price, p.lever) {
        Some(m) => if m < 0 {
            None
        } else if m > p.margin.avail.units {
            Some(p.margin.avail.units as int)
        } else {
            Some(m)
        },
        None => None,
    }
}

/// Whether a pending closing order `o` fills at `price` with fee rate
/// `rate` against wallet `w` and position `p`: the size it closes is still
/// frozen, profit, fee and released margin are defined, and the wallet can
/// take the net amount (or pay it, where it is negative).
pub open spec fn closing_fill_ok(o: OrderView, w: Volume, p: PositionView, price: Amount, rate: Amount) -> bool {
    let side = side_of(p, o.side);
    let g = gain_of(o.side, price, side.price);
    let profit = mul_amount(g, o.size.units as int);
    match (fee_of(o.size, price, rate), released_of(o, p)) {
        (Some(f), Some(rel)) => {
            let net = rel + profit - f;
            &&& o.size.units <= side.size.frozen.units
            &&& in_i128(g)
            &&& in_i128(g * o.size.units)
            &&& in_i128(rel + profit)
            &&& in_i128(net)
            &&& in_i128(side.pnl.realized.units + profit)
            &&& in_i128(side.pnl.realized.units + profit - f)
            &&& (net >= 0 ==> net <= i128::MAX - w.total.units)
            &&& (net < 0 ==> -net <= w.avail.units)
        },
        _ => false,
    }
}

/// The sub-position's average price after adding `size` at `price` to
/// `held` at `avg`, where every intermediate value fits.
fn average_price(held: Amount, avg: Amount, size: Amount, price: Amount) -> (r: Option<Amount>)
    requires
        held.units >= 0,
        avg.units >= 0,
        size.units > 0,
        price.units >= 0,
    ensures
        match r {
            Some(a) => a.units >= 0 && a.units == average_of(held, avg, size, price)
                && average_defined(held, avg, size, price),
            None => !average_defined(held, avg, size, price),
        },
{
    match (held.checked_mul(avg), size.checked_mul(price), held.checked_add(size)) {
        (Some(a), Some(b), Some(total)) => match a.checked_add(b) {
            Some(sum) => {
                if total.units > 0 && sum.units >= 0 {
                    match sum.units.checked_mul(AMOUNT_ONE) {
                        Some(scaled) => Some(Amount { units: scaled / total.units }),
                        None => None,
                    }
                } else {
                    None
                }
            },
            None => None,
        },
        _ => None,
    }
}

/// Fills an opening order at `price` with fee rate `rate`, where the wallet
/// can pay; otherwise leaves everything as it was.
fn fill_opening(
    o: &mut Order,
    wallet: &mut Volume,
    pos: &mut Position,
    price: Amount,
    rate: Amount,
    now: Time,
)
    requires
        old(o)@.wf(),
        old(o).status == OrderStatus::Pending,
        opens(old(o).side, old(o).action),
        books_wf(*old(wallet), old(pos)),
        price.units >= 0,
    ensures
        frozen_follows(old(o)@, final(o)@, *old(wallet), *final(wallet), old(pos)@, final(pos)@),
        final(o)@.wf(),
        books_wf(*final(wallet), final(pos)),
        stepped(old(o)@, final(o)@, now),
        final(o).status == OrderStatus::Pending || final(o).status == OrderStatus::Completed,
        final(pos).lever == old(pos).lever,
        final(pos).orders@ == old(pos).orders@,
        (final(o).status == OrderStatus::Completed) == opening_fill_ok(
            old(o)@,
            *old(wallet),
            old(pos)@,
            price,
            rate,
        ),
        final(o).status == OrderStatus::Pending ==> final(o)@ == old(o)@ && *final(wallet)
            == *old(wallet) && final(pos)@ == old(pos)@,
        final(o).status == OrderStatus::Completed ==> {
            &&& final(o).deal_size == old(o).size
            &&& final(o).deal_price == price
            &&& fee_of(old(o).size, price, rate) == Some(final(o).deal_fee.units as int)
            &&& margin_of(old(o).size, price, old(pos).lever) == Some(
                final(pos).margin.total.units - old(pos).margin.total.units,
            )
            &&& final(wallet).total.units + final(pos).margin.total.units == old(wallet).total.units
                + old(pos).margin.total.units - final(o).deal_fee.units
            &&& final(wallet).frozen.units == old(wallet).frozen.units - old(o).margin.units
            &&& side_of(final(pos)@, old(o).side).size.total.units == side_of(
                old(pos)@,
                old(o).side,
            ).size.total.units + old(o).size.units
            &&& side_of(final(pos)@, old(o).side).price.units == average_of(
                side_of(old(pos)@, old(o).side).size.total,
                side_of(old(pos)@, old(o).side).price,
                old(o).size,
                price,
            )
        },
{
    let margin = match margin_for(o.size, price, pos.lever) {
        Some(m) => m,
        None => return,
    };
    let fee = match fee_for(o.size, price, rate) {
        Some(f) => f,
        None => return,
    };
    let cost = match margin.checked_add(fee) {
        Some(c) => c,
        None => return,
    };
    if margin.units < 0 || cost.units < 0 || o.margin.units > wallet.frozen.units {
        return;
    }
    let side = match o.side {
        TradeSide::Long => pos.long,
        TradeSide::Short => pos.short,
    };
    let new_avg = match average_price(side.size.total, side.price, o.size, price) {
        Some(a) => a,
        None => return,
    };
    let realized = match side.pnl.realized.checked_sub(fee) {
        Some(r) => r,
        None => return,
    };
    if margin.units > i128::MAX - pos.margin.total.units || o.size.units > i128::MAX
        - side.size.total.units {
        return;
    }
    if cost.units > wallet.avail.units + o.margin.units {
        return;
    }
    let ghost w0 = *wallet;
    let _ = wallet.unfreeze(o.margin);
    let _ = wallet.withdraw(cost);
    let _ = pos.margin.deposit(margin);
    let mut next = side;
    let _ = next.size.deposit(o.size);
    next.price = new_avg;
    next.pnl.realized = realized;
    match o.side {
        TradeSide::Long => {
            pos.long = next;
        },
        TradeSide::Short => {
            pos.short = next;
        },
    }
    o.status = OrderStatus::Completed;
    o.deal_size = o.size;
    o.deal_price = price;
    o.deal_fee = fee;
    o.update_time = now;
    assert(old(o)@.moved(o@, OrderStatus::Completed, now));
}

/// Fills a closing order at `price` with fee rate `rate`, where the books
/// allow it; otherwise leaves everything as it was.
fn fill_closing(
    o: &mut Order,
    wallet: &mut Volume,
    pos: &mut Position,
    price: Amount,
    rate: Amount,
    now: Time,
)
    requires
        old(o)@.wf(),
        old(o).status == OrderStatus::Pending,
        !opens(old(o).side, old(o).action),
        books_wf(*old(wallet), old(pos)),
        price.units >= 0,
    ensures
        frozen_follows(old(o)@, final(o)@, *old(wallet), *final(wallet), old(pos)@, final(pos)@),
        final(o)@.wf(),
        books_wf(*final(wallet), final(pos)),
        stepped(old(o)@, final(o)@, now),
        final(o).status == OrderStatus::Pending || final(o).status == OrderStatus::Completed,
        final(pos).lever == old(pos).lever,
        final(pos).orders@ == old(pos).orders@,
        (final(o).status == OrderStatus::Completed) == closing_fill_ok(
            old(o)@,
            *old(wallet),
            old(pos)@,
            price,
            rate,
        ),
        final(o).status == OrderStatus::Pending ==> final(o)@ == old(o)@ && *final(wallet)
            == *old(wallet) && final(pos)@ == old(pos)@,
        final(o).status == OrderStatus::Completed ==> {
            &&& final(o).deal_size == old(o).size
            &&& final(o).deal_price == price
            &&& fee_of(old(o).size, price, rate) == Some(final(o).deal_fee.units as int)
            &&& final(wallet).total.units + final(pos).margin.total.units == old(wallet).total.units
                + old(pos).margin.total.units + mul_amount(
                gain_of(old(o).side, price, side_of(old(pos)@, old(o).side).price),
                old(o).size.units as int,
            ) - final(o).deal_fee.units
            &&& side_of(final(pos)@, old(o).side).size.total.units == side_of(
                old(pos)@,
                old(o).side,
            ).size.total.units - old(o).size.units
            &&& side_of(final(pos)@, old(o).side).size.frozen.units == side_of(
                old(pos)@,
                old(o).side,
            ).size.frozen.units - old(o).size.units
        },
{
    let side = match o.side {
        TradeSide::Long => pos.long,
        TradeSide::Short => pos.short,
    };
    if o.size.units > side.size.frozen.units {
        return;
    }
    let fee = match fee_for(o.size, price, rate) {
        Some(f) => f,
        None => return,
    };
    let diff = match o.side {
        TradeSide::Long => price.checked_sub(side.price),
        TradeSide::Short => side.price.checked_sub(price),
    };
    let profit = match diff {
        Some(d) => match d.checked_mul(o.size) {
            Some(p) => p,
            None => return,
        },
        None => return,
    };
    let released = match margin_for(o.size, side.price, pos.lever) {
        Some(m) => if m.units < 0 {
            return ;
        } else if m.units > pos.margin.avail.units {
            pos.margin.avail
        } else {
            m
        },
        None => return,
    };
    let net = match released.checked_add(profit) {
        Some(x) => match x.checked_sub(fee) {
            Some(y) => y,
            None => return,
        },
        None => return,
    };
    let realized = match side.pnl.realized.checked_add(profit) {
        Some(x) => match x.checked_sub(fee) {
            Some(y) => y,
            None => return,
        },
        None => return,
    };
    if net.units >= 0 {
        if net.units > i128::MAX - wallet.total.units {
            return;
        }
    } else if -net.units > wallet.avail.units {
        return;
    }
    if net.units >= 0 {
        let _ = wallet.deposit(net);
    } else {
        let _ = wallet.withdraw(Amount { units: -net.units });
    }
    let _ = pos.margin.withdraw(released);
    let mut next = side;
    next.size = Volume {
        total: Amount { units: side.size.total.units - o.size.units },
        avail: side.size.avail,
        frozen: Amount { units: side.size.frozen.units - o.size.units },
    };
    next.pnl.realized = realized;
    match o.side {
        TradeSide::Long => {
            pos.long = next;
        },
        TradeSide::Short => {
            pos.short = next;
        },
    }
    o.status = OrderStatus::Completed;
    o.deal_size = o.size;
    o.deal_price = price;
    o.deal_fee = fee;
    o.update_time = now;
    assert(old(o)@.moved(o@, OrderStatus::Completed, now));
}

/// One matching step of one order against the minute's bar (`None` where
/// the minute has no data): dispatch, accept, fill or confirm a cancel, by
/// its state. Terminal orders are left as they are.
pub fn step_order(
    o: &mut Order,
    wallet: &mut Volume,
    pos: &mut Position,
    taker: Amount,
    maker: Amount,
    bar: Option<Candle>,
    now: Time,
)
    requires
        old(o)@.wf(),
        books_wf(*old(wallet), old(pos)),
        holdings_covered(old(o)@, *old(wallet), old(pos)@),
    ensures
        frozen_follows(old(o)@, final(o)@, *old(wallet), *final(wallet), old(pos)@, final(pos)@),
        final(o)@.wf(),
        books_wf(*final(wallet), final(pos)),
        order_stepped(old(o)@, final(o)@, bar, now),
        old(o).status.terminal() ==> final(o)@ == old(o)@,
        old(o).status == OrderStatus::New ==> final(o)@ == (OrderView {
            status: OrderStatus::Submitting,
            update_time: now,
            ..old(o)@
        }),
        old(o).status == OrderStatus::Submitting ==> (final(o).status == OrderStatus::Pending
            || final(o).status == OrderStatus::Rejected),
        old(o).status == OrderStatus::Cancelling ==> final(o).status == OrderStatus::Cancelled,
        old(o).status == OrderStatus::Submitting ==> accepted(
            old(o)@,
            final(o)@,
            *old(wallet),
            *final(wallet),
            old(pos)@,
            final(pos)@,
            taker,
        ),
        old(o).status == OrderStatus::Pending && final(o).status == OrderStatus::Completed
            ==> filled_books(old(o)@, final(o)@, *old(wallet), *final(wallet), old(pos)@, final(pos)@),
        old(o).status == OrderStatus::Pending ==> {
            let unchanged = final(o)@ == old(o)@ && *final(wallet) == *old(wallet) && final(pos)@
                == old(pos)@;
            match bar {
                None => unchanged,
                Some(b) => match fill_price(old(o)@, b) {
                    None => unchanged,
                    Some(p) => {
                        let rate = if old(o).method is Market {
                            taker
                        } else {
                            maker
                        };
                        if fill_ok(old(o)@, *old(wallet), old(pos)@, p, rate) {
                            final(o).status == OrderStatus::Completed && final(o).deal_size
                                == old(o).size && final(o).deal_price == p && fee_of(old(o).size, p, rate)
                                == Some(final(o).deal_fee.units as int)
                        } else {
                            unchanged
                        }
                    },
                },
            }
        },
        final(pos).lever == old(pos).lever,
        final(pos).orders@ == old(pos).orders@,
{
    match o.status {
        OrderStatus::New => {
            o.status = OrderStatus::Submitting;
            o.update_time = now;
            assert(old(o)@.moved(o@, OrderStatus::Submitting, now));
        },
        OrderStatus::Submitting => {
            accept(o, wallet, pos, taker, now);
            assert(old(o)@.moved(o@, o.status, now));
        },
        OrderStatus::Pending => {
            match bar {
                Some(b) => {
                    match fill_price_on(o, &b) {
                        Some(p) => {
                            if p.units >= 0 {
                                let rate = match o.method {
                                    TradeMethod::Market => taker,
                                    TradeMethod::Limit => maker,
                                };
                                if is_opening(o) {
                                    fill_opening(o, wallet, pos, p, rate, now);
                                } else {
                                    fill_closing(o, wallet, pos, p, rate, now);
                                }
                            }
                        },
                        None => {},
                    }
                },
                None => {},
            }
        },
        OrderStatus::Cancelling => {
            confirm_cancel(o, wallet, pos, now);
            assert(old(o)@.moved(o@, OrderStatus::Cancelled, now));
        },
        _ => {},
    }
}

} // verus!
