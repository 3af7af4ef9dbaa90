pub mod decorator;
pub mod laws;

pub use decorator::{Bounded, Progress, ProgressDisplay, Unbounded, EMPTY, FILLED, MARK};
