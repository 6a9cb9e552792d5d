//! The measurement pipeline: sources, transforms and outputs, the triggers
//! that drive them and the messages that reconfigure them.

pub mod channel;
pub mod control;
pub mod elements;
pub mod error;
pub mod executor;
pub mod groups;
pub mod registry;
pub mod threading;
pub mod trigger;
