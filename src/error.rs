use vstd::prelude::*;

verus! {

/// Why a run configuration was refused.
#[derive(Clone, Copy, Debug, PartialEq, Eq, Structural)]
pub enum ConfigError {
    /// The same instrument code was configured twice.
    DuplicateSymbol,
    /// A leverage has a fractional part.
    FractionalLeverage,
    /// A leverage is zero or negative.
    NonPositiveLeverage,
    /// A wallet balance is negative.
    NegativeBalance,
    /// Both the spot and the swap balance are zero.
    EmptyBalance,
    /// The history window is empty.
    ZeroHistorySize,
    /// `begin` is not strictly before `end`.
    InvalidTimeRange,
    /// The instrument is not part of the run.
    UnknownSymbol,
}

/// Why an operation on the order/position ledger was refused.
#[derive(Clone, Copy, Debug, PartialEq, Eq, Structural)]
pub enum LedgerError {
    /// Not enough available balance to freeze or spend.
    InsufficientFunds,
    /// A size or price that is zero or negative.
    InvalidAmount,
    /// No order with that id on the instrument.
    UnknownOrder,
    /// An order with that id already exists on the instrument.
    DuplicateOrderId,
    /// The order is not in a state that allows cancellation.
    NotCancellable,
    /// An amount left the representable range.
    Overflow,
}

/// Every error the engine reports.
#[derive(Clone, Copy, Debug, PartialEq, Eq, Structural)]
pub enum Error {
    Config(ConfigError),
    TimeFormat,
    DataLoad,
    StrategyCallback,
    Ledger(LedgerError),
}

} // verus!
