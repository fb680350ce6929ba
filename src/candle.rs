//! The candle store: one row per whole minute over a run's range, filled
//! from an instrument's bars by an outer join on time.
use vstd::prelude::*;

use crate::amount::Amount;
use crate::time::{Time, NANOS_PER_MINUTE};

verus! {

/// One OHLCV bar. `finished` marks a bar that is complete (every loaded
/// historical bar is).
#[derive(Clone, Copy, Debug, PartialEq, Eq, Structural)]
pub struct Candle {
    pub time: Time,
    pub open: Amount,
    pub high: Amount,
    pub low: Amount,
    pub close: Amount,
    pub volume: Amount,
    pub finished: bool,
}

pub open spec fn finished(c: Candle) -> Candle {
    Candle { finished: true, ..c }
}

/// The last bar of `src` stamped exactly `t`, marked finished.
pub open spec fn bar_at(src: Seq<Candle>, t: int) -> Option<Candle>
    decreases src.len(),
{
    if src.len() == 0 {
        None
    } else if src.last().time.nanos == t {
        Some(finished(src.last()))
    } else {
        bar_at(src.drop_last(), t)
    }
}

/// The time of row `i` of a grid starting at `start`.
pub open spec fn row_time(start: Time, i: int) -> int {
    start.nanos + i * NANOS_PER_MINUTE
}

/// An aligned candle table: row `i` stands for the minute
/// `start + i minutes` and holds the bar of that minute, or `None` where
/// the source has none.
pub struct CandleTable {
    pub start: Time,
    pub rows: Vec<Option<Candle>>,
}

impl CandleTable {
    /// Row `i` holds the source's bar for its minute, and the grid ends
    /// inside the range of `Time`.
    pub open spec fn joins(self, src: Seq<Candle>) -> bool {
        &&& row_time(self.start, self.rows@.len() as int) <= i128::MAX + NANOS_PER_MINUTE
        &&& forall|i: int|
            0 <= i < self.rows@.len() ==> #[trigger] self.rows@[i] == bar_at(
                src,
                row_time(self.start, i),
            )
    }

    /// An empty table, before any data is installed.
    pub fn empty() -> (r: CandleTable)
        ensures
            r.rows@.len() == 0,
            r.start.nanos == 0,
    {
        CandleTable { start: Time { nanos: 0 }, rows: Vec::new() }
    }

    /// Left-joins `src` onto the grid of `count` minutes starting at
    /// `start`: every minute gets a row, holding the last bar stamped with
    /// exactly that minute (marked finished), or `None`.
    pub fn align(start: Time, count: usize, src: &Vec<Candle>) -> (r: CandleTable)
        requires
            row_time(start, count as int) <= i128::MAX + NANOS_PER_MINUTE,
            count <= u32::MAX,
        ensures
            r.start == start,
            r.rows@.len() == count,
            r.joins(src@),
    {
        let mut rows: Vec<Option<Candle>> = Vec::new();
        let mut k: usize = 0;
        while k < count
            invariant
                k <= count,
                rows@.len() == k,
                forall|i: int| 0 <= i < k ==> #[trigger] rows@[i] == bar_at(src@.take(0), row_time(start, i)),
            decreases count - k,
        {
            rows.push(None);
            k = k + 1;
        }
        let mut j: usize = 0;
        while j < src.len()
            invariant
                j <= src@.len(),
                rows@.len() == count,
                row_time(start, count as int) <= i128::MAX + NANOS_PER_MINUTE,
                count <= u32::MAX,
                forall|i: int|
                    0 <= i < count ==> #[trigger] rows@[i] == bar_at(src@.take(j as int), row_time(start, i)),
            decreases src@.len() - j,
        {
            let c = src[j];
            let ghost prev = rows@;
            assert(src@.take(j + 1).drop_last() == src@.take(j as int));
            assert(src@.take(j + 1).last() == c);
            let (on_grid, diff) = match c.time.nanos.checked_sub(start.nanos) {
                Some(d) => (d >= 0 && d % NANOS_PER_MINUTE == 0 && d / NANOS_PER_MINUTE < count as i128, d),
                None => {
                    proof {
                        let t = c.time.nanos as int - start.nanos as int;
                        if t > 0 {
                            assert(t / (NANOS_PER_MINUTE as int) >= count) by (nonlinear_arith)
                                requires
                                    t > i128::MAX,
                                    count <= u32::MAX,
                            {
                                vstd::arithmetic::div_mod::lemma_fundamental_div_mod(t, NANOS_PER_MINUTE as int);
                            }
                        }
                    }
                    (false, 0)
                },
            };
            if on_grid {
                let idx = (diff / NANOS_PER_MINUTE) as usize;
                proof {
                    lemma_minute_index(start, c.time.nanos as int, idx as int);
                }
                rows.set(idx, Some(Candle { finished: true, ..c }));
                assert forall|i: int| 0 <= i < count implies #[trigger] rows@[i] == bar_at(
                    src@.take(j + 1),
                    row_time(start, i),
                ) by {
                    lemma_row_time_injective(start, i, idx as int);
                }
            } else {
                assert forall|i: int| 0 <= i < count implies #[trigger] rows@[i] == bar_at(
                    src@.take(j + 1),
                    row_time(start, i),
                ) by {
                    lemma_off_grid(start, c.time.nanos as int, i, count as int);
                }
            }
            j = j + 1;
        }
        assert(src@.take(src@.len() as int) == src@);
        CandleTable { start, rows }
    }

    /// The time of row `i`.
    pub fn time_at(&self, i: usize) -> (r: Time)
        requires
            self.joins_range(),
            i < self.rows@.len(),
        ensures
            r.nanos == row_time(self.start, i as int),
    {
        proof {
            vstd::arithmetic::mul::lemma_mul_inequality(i as int, self.rows@.len() as int, NANOS_PER_MINUTE as int);
        }
        Time { nanos: self.start.nanos + (i as i128) * NANOS_PER_MINUTE }
    }

    pub open spec fn joins_range(self) -> bool {
        &&& row_time(self.start, self.rows@.len() as int) <= i128::MAX + NANOS_PER_MINUTE
        &&& self.rows@.len() <= u32::MAX
    }

    /// Rows `[from, from + len)`, cut at the end of the table.
    pub fn window(&self, from: usize, len: usize) -> (r: Vec<Option<Candle>>)
        ensures
            r@ == self.rows@.subrange(
                vstd::math::min(from as int, self.rows@.len() as int),
                vstd::math::min(from as int + len as int, self.rows@.len() as int),
            ),
    {
        let n = self.rows.len();
        let lo: usize = if from < n { from } else { n };
        let hi: usize = if len <= n - lo { lo + len } else { n };
        let mut out: Vec<Option<Candle>> = Vec::new();
        let mut i: usize = lo;
        while i < hi
            invariant
                lo <= i <= hi <= n,
                n == self.rows@.len(),
                out@ == self.rows@.subrange(lo as int, i as int),
            decreases hi - i,
        {
            out.push(self.rows[i]);
            i = i + 1;
        }
        out
    }
}

proof fn lemma_minute_index(start: Time, t: int, idx: int)
    requires
        t - start.nanos >= 0,
        (t - start.nanos) % (NANOS_PER_MINUTE as int) == 0,
        idx == (t - start.nanos) / (NANOS_PER_MINUTE as int),
    ensures
        row_time(start, idx) == t,
{
    vstd::arithmetic::div_mod::lemma_fundamental_div_mod(t - start.nanos, NANOS_PER_MINUTE as int);
}

proof fn lemma_row_time_injective(start: Time, i: int, k: int)
    ensures
        (row_time(start, i) == row_time(start, k)) == (i == k),
{
    if i != k {
        if i < k {
            vstd::arithmetic::mul::lemma_mul_strict_inequality(i, k, NANOS_PER_MINUTE as int);
        } else {
            vstd::arithmetic::mul::lemma_mul_strict_inequality(k, i, NANOS_PER_MINUTE as int);
        }
    }
}

proof fn lemma_off_grid(start: Time, t: int, i: int, count: int)
    requires
        0 <= i < count,
        !(t - start.nanos >= 0 && (t - start.nanos) % (NANOS_PER_MINUTE as int) == 0 && (t
            - start.nanos) / (NANOS_PER_MINUTE as int) < count),
    ensures
        row_time(start, i) != t,
{
    if row_time(start, i) == t {
        assert(t - start.nanos == i * NANOS_PER_MINUTE);
        vstd::arithmetic::mul::lemma_mul_nonnegative(i, NANOS_PER_MINUTE as int);
        vstd::arithmetic::div_mod::lemma_mod_multiples_basic(i, NANOS_PER_MINUTE as int);
        vstd::arithmetic::div_mod::lemma_div_multiples_vanish(i, NANOS_PER_MINUTE as int);
    }
}

} // verus!
