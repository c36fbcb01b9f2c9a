//! A fuel-limited train on a one-dimensional track: verified state
//! transitions, fuel caches along the route, and a bounded simulation driver.
pub mod error;
pub mod goal;
pub mod train;
pub mod simulation;

pub use error::Error;
pub use goal::GoalSpec;
pub use train::{Command, Train, TrainView};
pub use simulation::{simulate, CommandScript, SimulationSummary, Strategy};
