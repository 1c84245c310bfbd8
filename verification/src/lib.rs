//! A byte-stream I/O core: one explicit outcome for every read or write
//! attempt, the derived bulk operations built on it, and the combinators that
//! compose sources.
//!
//! Sources and sinks are described by small mathematical models: a source by
//! the bytes it has yet to deliver, a sink by the bytes it has taken and the
//! room it has left. Every operation says what it does to these.

pub mod bridge;
pub mod bytes;
pub mod chain;
pub mod error;
pub mod initializer;
pub mod outcome;
pub mod pieces;
pub mod read;
pub mod read_alloc;
pub mod read_core;
pub mod runs;
pub mod take;
pub mod usage;
pub mod vectored;
pub mod write;
pub mod write_core;
