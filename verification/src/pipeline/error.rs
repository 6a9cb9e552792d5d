//! Errors that the elements of the pipeline report.

use vstd::prelude::*;

verus! {

/// Error of a source during a poll.
#[derive(Debug)]
pub enum PollError {
    /// The source cannot be used any longer and is removed from the pipeline.
    Fatal(String),
    /// The poll failed, but a later one may succeed: the source is kept.
    CanRetry(String),
}

/// Error of a transform applied to a buffer.
#[derive(Debug)]
pub enum TransformError {
    /// The transform cannot be used any longer and is removed from the pipeline.
    Fatal(String),
    /// The buffer holds what the transform cannot work on: the buffer is dropped.
    UnexpectedInput(String),
    /// The transform failed on this buffer; the buffer goes on to the outputs.
    CanContinue(String),
}

/// Error of an output writing a buffer.
#[derive(Debug)]
pub enum WriteError {
    /// The output cannot be used any longer and is removed from the pipeline.
    Fatal(String),
    /// The write failed, but trying again may succeed.
    CanRetry(String),
}

impl PollError {
    /// The text that describes the error.
    pub open spec fn spec_message(&self) -> Seq<char> {
        match self {
            PollError::Fatal(m) => m@,
            PollError::CanRetry(m) => m@,
        }
    }

    pub fn is_fatal(&self) -> (r: bool)
        ensures
            r == (self is Fatal),
    {
        match self {
            PollError::Fatal(_) => true,
            PollError::CanRetry(_) => false,
        }
    }
}

} // verus!
