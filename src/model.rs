//! The engine's small vocabularies: log levels, run modes, markets, order
//! methods, sides, actions, lifecycle states and candle periods.
use vstd::prelude::*;

verus! {

/// Message severity, from least to most severe.
#[derive(Clone, Copy, Debug, PartialEq, Eq, Structural, Hash)]
pub enum LogLevel {
    Trace,
    Debug,
    Info,
    Warn,
    Error,
}

impl LogLevel {
    pub open spec fn rank_spec(self) -> u8 {
        match self {
            LogLevel::Trace => 0,
            LogLevel::Debug => 1,
            LogLevel::Info => 2,
            LogLevel::Warn => 3,
            LogLevel::Error => 4,
        }
    }

    /// Position in the severity order.
    pub fn rank(&self) -> (r: u8)
        ensures
            r == self.rank_spec(),
    {
        match self {
            LogLevel::Trace => 0,
            LogLevel::Debug => 1,
            LogLevel::Info => 2,
            LogLevel::Warn => 3,
            LogLevel::Error => 4,
        }
    }
}

/// Where a run trades.
#[derive(Clone, Copy, Debug, PartialEq, Eq, Structural, Hash)]
pub enum RunMode {
    Backtest,
    Sandbox,
    Mainnet,
}

#[derive(Clone, Copy, Debug, PartialEq, Eq, Structural, Hash)]
pub enum Market {
    Spot,
    Swap,
}

#[derive(Clone, Copy, Debug, PartialEq, Eq, Structural, Hash)]
pub enum TradeMethod {
    Market,
    Limit,
}

/// The sub-position an order belongs to.
#[derive(Clone, Copy, Debug, PartialEq, Eq, Structural, Hash)]
pub enum TradeSide {
    Long,
    Short,
}

#[derive(Clone, Copy, Debug, PartialEq, Eq, Structural, Hash)]
pub enum TradeAction {
    Buy,
    Sell,
}

/// Where an order stands in its lifecycle:
/// `New -> Submitting -> Pending -> Completed`, `Submitting -> Rejected`,
/// `Pending -> Cancelling -> Cancelled`. Rejected, Completed and Cancelled
/// are terminal.
#[derive(Clone, Copy, Debug, PartialEq, Eq, Structural, Hash)]
pub enum OrderStatus {
    New,
    Submitting,
    Rejected,
    Pending,
    Completed,
    Cancelling,
    Cancelled,
}

impl OrderStatus {
    pub open spec fn terminal(self) -> bool {
        self is Rejected || self is Completed || self is Cancelled
    }

    /// The lifecycle's edges.
    pub open spec fn may_move_to(self, to: OrderStatus) -> bool {
        match (self, to) {
            (OrderStatus::New, OrderStatus::Submitting) => true,
            (OrderStatus::Submitting, OrderStatus::Pending) => true,
            (OrderStatus::Submitting, OrderStatus::Rejected) => true,
            (OrderStatus::Pending, OrderStatus::Completed) => true,
            (OrderStatus::Pending, OrderStatus::Cancelling) => true,
            (OrderStatus::Cancelling, OrderStatus::Cancelled) => true,
            _ => false,
        }
    }

    /// Whether the order is finished: rejected, completed or cancelled.
    pub fn is_terminal(&self) -> (r: bool)
        ensures
            r == self.terminal(),
    {
        match self {
            OrderStatus::Rejected | OrderStatus::Completed | OrderStatus::Cancelled => true,
            _ => false,
        }
    }

    /// Whether the lifecycle allows a move from `self` to `to`.
    pub fn can_move_to(&self, to: OrderStatus) -> (r: bool)
        ensures
            r == self.may_move_to(to),
    {
        match (self, to) {
            (OrderStatus::New, OrderStatus::Submitting) => true,
            (OrderStatus::Submitting, OrderStatus::Pending) => true,
            (OrderStatus::Submitting, OrderStatus::Rejected) => true,
            (OrderStatus::Pending, OrderStatus::Completed) => true,
            (OrderStatus::Pending, OrderStatus::Cancelling) => true,
            (OrderStatus::Cancelling, OrderStatus::Cancelled) => true,
            _ => false,
        }
    }
}

/// A terminal state has no way out: the lifecycle allows no move from
/// Rejected, Completed or Cancelled to any state.
pub proof fn terminal_states_are_final(from: OrderStatus, to: OrderStatus)
    requires
        from.terminal(),
    ensures
        !from.may_move_to(to),
{
}

#[derive(Clone, Copy, Debug, PartialEq, Eq, Structural, Hash)]
pub enum CandlePeriod {
    Min,
    Min3,
    Min5,
    Min15,
    Min30,
    Hour,
    Hour2,
    Hour4,
    Hour8,
    Hour12,
    Day,
    Day3,
    Week,
    Month,
}

} // verus!
