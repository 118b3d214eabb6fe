//! An adapter over a cooperatively polled item source that converts an
//! abnormal termination of the source, surfaced while advancing it, into a
//! single explicit error item, after which the sequence is permanently closed.

pub mod adapter;
pub mod laws;
pub mod model;
pub mod scripted;

pub use adapter::Advance;
pub use adapter::CatchUnwind;
pub use adapter::Source;
pub use adapter::Step;
pub use scripted::ScriptedSource;
