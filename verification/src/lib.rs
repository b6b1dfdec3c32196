//! Execution core of a deterministic model-based testing engine.
//!
//! Two drivers share the crate. The single-schedule driver in [`engine`] runs a
//! fixed list of operations against a system under test, then takes it through
//! one crash and restore. The model-driven engine in [`simulation`] replays a
//! catalog of named operations for a number of rounds and stops at the first
//! invariant that an observation breaks. A model is put together from the
//! entries in [`operation`], [`invariants`] and [`system`].
//!
//! Two small targets come with the engine: [`flake`], a counter with a journal
//! that implements the lifecycle of a system under test, and
//! [`flaky_sessions`], a session registry.
//!
//! Every executable function carries a contract over the mathematical view of
//! its arguments, and the laws that relate several functions are stated as
//! proof functions next to them.

pub mod cloning;
pub mod engine;
pub mod flake;
pub mod flaky_sessions;
pub mod invariants;
pub mod operation;
pub mod prelude;
pub mod simulation;
pub mod system;
