//! The three kinds of elements of a pipeline, and how each is registered.

use vstd::prelude::*;
use crate::measurement::{MeasurementAccumulator, MeasurementBuffer};
use crate::metrics::MetricRegistry;
use crate::pipeline::error::{PollError, TransformError, WriteError};
use crate::pipeline::registry::ElementRegistry;
use crate::pipeline::trigger::TriggerSpec;
use crate::time::Timestamp;

verus! {

/// How the polls of a source are run.
#[derive(Clone, Copy, Debug, PartialEq, Eq, Hash, Structural)]
pub enum SourceClass {
    /// The poll does not block; it runs on the normal scheduler.
    Normal,
    /// The poll may block on input or output; it runs on the pool of
    /// blocking workers, one poll of a source at a time.
    Blocking,
    /// The poll has to come on time; it runs on the priority scheduler.
    Priority,
}

/// How the pipeline treats a source.
#[derive(Clone, Copy, Debug, PartialEq, Eq, Hash, Structural)]
pub struct SourceSettings {
    pub trigger: TriggerSpec,
    pub class: SourceClass,
}

/// How the pipeline treats a transform.
#[derive(Clone, Copy, Debug, PartialEq, Eq, Hash, Structural)]
pub struct TransformSettings {
    /// Whether buffers go through the transform.
    pub enabled: bool,
}

/// How the pipeline treats an output: every buffer is written to it.
#[derive(Clone, Copy, Debug, PartialEq, Eq, Hash, Structural)]
pub struct OutputSettings {}

/// What a transform can see of the pipeline while it works on a buffer.
pub struct TransformContext<'a> {
    pub metrics: &'a MetricRegistry,
}

/// What an output can see of the pipeline while it writes a buffer.
pub struct OutputContext<'a> {
    pub metrics: &'a MetricRegistry,
}

/// Produces measurements.
pub trait Source {
    /// Measures, and adds the points to `measurements`. `timestamp` is the
    /// logical time of the tick that asked for the poll.
    fn poll(&mut self, measurements: &mut MeasurementAccumulator, timestamp: Timestamp) -> (r:
        Result<(), PollError>);
}

/// Changes measurements on their way from the sources to the outputs.
pub trait Transform {
    /// Works on the buffer in place.
    fn apply(&mut self, measurements: &mut MeasurementBuffer, ctx: &TransformContext) -> (r:
        Result<(), TransformError>);
}

/// Takes measurements out of the pipeline.
pub trait Output {
    /// Writes the points of the buffer.
    fn write(&mut self, measurements: &MeasurementBuffer, ctx: &OutputContext) -> (r: Result<
        (),
        WriteError,
    >);
}

/// The sources of a pipeline.
pub type SourceRegistry<S> = ElementRegistry<SourceSettings, S>;

/// The transforms of a pipeline, in the order in which buffers go through them.
pub type TransformRegistry<T> = ElementRegistry<TransformSettings, T>;

/// The outputs of a pipeline.
pub type OutputRegistry<O> = ElementRegistry<OutputSettings, O>;

} // verus!
