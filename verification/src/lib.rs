//! An in-memory projector for event-sourced systems.
//!
//! The engine derives a read-optimized projection state from an append-only,
//! ordered event source: it merges a finite historical ("catch-up") stream
//! with a live subscription opened beforehand, discards the overlap between
//! the two using a monotonic watermark, folds every remaining event into the
//! projection state, and broadcasts each new state to any number of watch
//! handles with last-value-wins semantics.

pub mod errors;
pub mod event;
pub mod laws;
pub mod projection;
pub mod projector;
pub mod source;
pub mod stream;
pub mod watch;
