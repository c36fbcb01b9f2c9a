use vstd::prelude::*;

verus! {

/// Every way in which building a goal, moving the train or running a
/// simulation can fail.
#[derive(Clone, Copy, Debug, PartialEq, Eq, Structural)]
pub enum Error {
    /// The destination can be reached on a single tank of fuel.
    TrivialGoal,
    /// The train would end up behind the depot.
    MovedBeyondDepot,
    /// The trip needs more fuel than the tank holds.
    FuelExhausted,
    /// Fuel cannot be stowed at the depot.
    StowAtDepot,
    /// More fuel was to be stowed than the tank holds.
    InsufficientFuelToStow,
    /// A location or an amount of fuel would not fit in a `usize`.
    Overflow,
    /// The strategy gave up before the goal was met.
    StrategyExhausted,
    /// The goal was not met within the allowed number of steps.
    IterationCapExceeded,
}

} // verus!
