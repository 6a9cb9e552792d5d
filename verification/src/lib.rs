//! Core of a plugin-based measurement agent: the data model, the metric
//! registry and the decision logic of the measurement pipeline.

pub mod aggregation;
pub mod cgroupv2;
pub mod cli;
pub mod config;
pub mod counter;
pub mod event;
pub mod exec_process;
pub mod measurement;
pub mod metrics;
pub mod oar;
pub mod oar2;
pub mod paths;
pub mod pipeline;
pub mod plugin;
pub mod resources;
pub mod text;
pub mod time;
pub mod units;
pub mod watch;
pub mod word_distance;
