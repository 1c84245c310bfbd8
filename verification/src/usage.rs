//! Small sources and sinks held in memory, with the error type they share.

pub mod legacy;
pub mod new;
pub mod scripted;
