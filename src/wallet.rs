//! Three-field balances (total, available, frozen) and profit records.
use vstd::prelude::*;

use crate::amount::{in_i128, Amount};
use crate::error::LedgerError;

verus! {

/// A balance split into what is available and what is frozen by resting
/// orders. Well-formed when `total == avail + frozen` and neither part is
/// negative.
#[derive(Clone, Copy, Debug, PartialEq, Eq, Structural)]
pub struct Volume {
    pub total: Amount,
    pub avail: Amount,
    pub frozen: Amount,
}

impl Volume {
    pub open spec fn wf(self) -> bool {
        &&& self.total.units == self.avail.units + self.frozen.units
        &&& self.avail.units >= 0
        &&& self.frozen.units >= 0
    }

    /// A balance of `total`, all of it available.
    pub fn new(total: Amount) -> (r: Volume)
        requires
            total.units >= 0,
        ensures
            r.wf(),
            r.total == total,
            r.avail == total,
            r.frozen.units == 0,
    {
        Volume { total, avail: total, frozen: Amount { units: 0 } }
    }

    /// Moves `x` from available to frozen.
    pub fn freeze(&mut self, x: Amount) -> (r: Result<(), LedgerError>)
        requires
            old(self).wf(),
        ensures
            final(self).wf(),
            match r {
                Ok(()) => {
                    &&& 0 <= x.units <= old(self).avail.units
                    &&& final(self).total == old(self).total
                    &&& final(self).avail.units == old(self).avail.units - x.units
                    &&& final(self).frozen.units == old(self).frozen.units + x.units
                },
                Err(e) => {
                    &&& *final(self) == *old(self)
                    &&& (x.units < 0 ==> e == LedgerError::InvalidAmount)
                    &&& (x.units >= 0 ==> e == LedgerError::InsufficientFunds && x.units
                        > old(self).avail.units)
                },
            },
    {
        if x.units < 0 {
            return Err(LedgerError::InvalidAmount);
        }
        if x.units > self.avail.units {
            return Err(LedgerError::InsufficientFunds);
        }
        self.avail = Amount { units: self.avail.units - x.units };
        self.frozen = Amount { units: self.frozen.units + x.units };
        Ok(())
    }

    /// Moves `x` from frozen back to available.
    pub fn unfreeze(&mut self, x: Amount) -> (r: Result<(), LedgerError>)
        requires
            old(self).wf(),
        ensures
            final(self).wf(),
            match r {
                Ok(()) => {
                    &&& 0 <= x.units <= old(self).frozen.units
                    &&& final(self).total == old(self).total
                    &&& final(self).avail.units == old(self).avail.units + x.units
                    &&& final(self).frozen.units == old(self).frozen.units - x.units
                },
                Err(e) => {
                    &&& *final(self) == *old(self)
                    &&& (x.units < 0 ==> e == LedgerError::InvalidAmount)
                    &&& (x.units >= 0 ==> e == LedgerError::InsufficientFunds && x.units
                        > old(self).frozen.units)
                },
            },
    {
        if x.units < 0 {
            return Err(LedgerError::InvalidAmount);
        }
        if x.units > self.frozen.units {
            return Err(LedgerError::InsufficientFunds);
        }
        self.avail = Amount { units: self.avail.units + x.units };
        self.frozen = Amount { units: self.frozen.units - x.units };
        Ok(())
    }

    /// Adds `x` to the balance, available at once.
    pub fn deposit(&mut self, x: Amount) -> (r: Result<(), LedgerError>)
        requires
            old(self).wf(),
        ensures
            final(self).wf(),
            match r {
                Ok(()) => {
                    &&& x.units >= 0
                    &&& final(self).total.units == old(self).total.units + x.units
                    &&& final(self).avail.units == old(self).avail.units + x.units
                    &&& final(self).frozen == old(self).frozen
                },
                Err(e) => {
                    &&& *final(self) == *old(self)
                    &&& (x.units < 0 ==> e == LedgerError::InvalidAmount)
                    &&& (x.units >= 0 ==> e == LedgerError::Overflow && !in_i128(
                        old(self).total.units + x.units,
                    ))
                },
            },
    {
        if x.units < 0 {
            return Err(LedgerError::InvalidAmount);
        }
        match self.total.units.checked_add(x.units) {
            Some(t) => {
                self.total = Amount { units: t };
                self.avail = Amount { units: self.avail.units + x.units };
                Ok(())
            },
            None => Err(LedgerError::Overflow),
        }
    }

    /// Takes `x` out of the available balance.
    pub fn withdraw(&mut self, x: Amount) -> (r: Result<(), LedgerError>)
        requires
            old(self).wf(),
        ensures
            final(self).wf(),
            match r {
                Ok(()) => {
                    &&& 0 <= x.units <= old(self).avail.units
                    &&& final(self).total.units == old(self).total.units - x.units
                    &&& final(self).avail.units == old(self).avail.units - x.units
                    &&& final(self).frozen == old(self).frozen
                },
                Err(e) => {
                    &&& *final(self) == *old(self)
                    &&& (x.units < 0 ==> e == LedgerError::InvalidAmount)
                    &&& (x.units >= 0 ==> e == LedgerError::InsufficientFunds && x.units
                        > old(self).avail.units)
                },
            },
    {
        if x.units < 0 {
            return Err(LedgerError::InvalidAmount);
        }
        if x.units > self.avail.units {
            return Err(LedgerError::InsufficientFunds);
        }
        self.total = Amount { units: self.total.units - x.units };
        self.avail = Amount { units: self.avail.units - x.units };
        Ok(())
    }
}

impl Default for Volume {
    fn default() -> (r: Volume)
        ensures
            r.wf(),
            r.total.units == 0,
            r.avail.units == 0,
            r.frozen.units == 0,
    {
        Volume { total: Amount { units: 0 }, avail: Amount { units: 0 }, frozen: Amount { units: 0 } }
    }
}

/// Realized and unrealized profit and loss.
#[derive(Clone, Copy, Debug, PartialEq, Eq, Structural)]
pub struct Pnl {
    pub realized: Amount,
    pub unrealized: Amount,
}

impl Default for Pnl {
    fn default() -> (r: Pnl)
        ensures
            r.realized.units == 0,
            r.unrealized.units == 0,
    {
        Pnl { realized: Amount { units: 0 }, unrealized: Amount { units: 0 } }
    }
}

} // verus!
