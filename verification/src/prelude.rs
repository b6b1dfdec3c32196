//! The names that a model and its driver are written with.

pub use crate::invariants::{Invariant, InvariantResult, Predicate};
pub use crate::operation::{Operation, Transition};
pub use crate::simulation::{Simulation, SimulationOutcome, SimulationStatus, SimulationStep};
pub use crate::system::{Initializer, Observation, Projection, SystemModel};
