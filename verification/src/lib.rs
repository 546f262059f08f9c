//! A bridge between a single-threaded, tick-based mutation loop and
//! long-running background work.
//!
//! Background bodies never touch the shared state directly: each one builds a
//! [`ops::MutationQueue`], an ordered intent log of deferred operations, and
//! hands it back when it completes. The owning thread keeps one
//! [`state::Record`] per in-flight body inside a [`state::World`]; once per
//! tick it polls every record without blocking ([`poll`]), merges the queues
//! of the bodies that finished into the tick's pending buffer, and applies
//! that buffer in append order. A completed body's queue ends with the two
//! reserved operations that remove its own record and, optionally, deliver a
//! one-shot completion notification strictly after the removal.
//!
//! The laws the protocol obeys (cleanup and delivery exactly once, strict
//! serialization of mutations, polls without effect on unfinished work,
//! idempotence of polling within a tick) are stated and proved in [`laws`].

pub mod laws;
pub mod ops;
pub mod poll;
pub mod state;
