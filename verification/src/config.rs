//! The settings of the agent itself.

use vstd::prelude::*;
use vstd::string::*;
use crate::time::{Duration, NANOS_PER_SEC};

verus! {

/// The settings of the agent that the table `agent` of the configuration
/// holds.
#[derive(Clone, Copy, Debug, PartialEq, Eq, Structural)]
pub struct AgentConfig {
    /// Number of worker threads of the normal scheduler, if given.
    pub worker_threads: Option<usize>,
    /// Number of worker threads of the priority scheduler, if given.
    pub priority_worker_threads: Option<usize>,
}

/// A key of the table `agent`.
#[derive(Clone, Copy, Debug, PartialEq, Eq, Structural)]
pub enum AgentKey {
    WorkerThreads,
    PriorityWorkerThreads,
}

/// A setting of the agent has a value that it cannot have.
#[derive(Clone, Copy, Debug, PartialEq, Eq, Structural)]
pub struct ConfigInvalid {
    pub key: AgentKey,
}

/// Whether `value` can be a number of threads: it is above zero and can be
/// held.
pub open spec fn valid_thread_count(value: i64) -> bool {
    0 < value && value <= usize::MAX
}

/// The number of threads that the integer `value` of the configuration
/// stands for.
pub fn thread_count(value: Option<i64>, key: AgentKey) -> (r: Result<Option<usize>, ConfigInvalid>)
    ensures
        r == match value {
            None => Ok::<Option<usize>, ConfigInvalid>(None),
            Some(v) => if valid_thread_count(v) {
                Ok(Some(v as usize))
            } else {
                Err(ConfigInvalid { key })
            },
        },
{
    match value {
        None => Ok(None),
        Some(v) => {
            if v > 0 && v as u64 <= usize::MAX as u64 {
                Ok(Some(v as usize))
            } else {
                Err(ConfigInvalid { key })
            }
        },
    }
}

impl AgentConfig {
    /// The settings of the agent, from the integers that the configuration
    /// holds under `worker_threads` and `priority_worker_threads`. Both
    /// keys are optional. A number of threads has to be above zero; the
    /// first key with another value is reported.
    pub fn from_values(worker_threads: Option<i64>, priority_worker_threads: Option<i64>) -> (r:
        Result<AgentConfig, ConfigInvalid>)
        ensures
            r == if worker_threads matches Some(v) && !valid_thread_count(v) {
                Err::<AgentConfig, ConfigInvalid>(ConfigInvalid { key: AgentKey::WorkerThreads })
            } else if priority_worker_threads matches Some(v) && !valid_thread_count(v) {
                Err(ConfigInvalid { key: AgentKey::PriorityWorkerThreads })
            } else {
                Ok(
                    AgentConfig {
                        worker_threads: match worker_threads {
                            Some(v) => Some(v as usize),
                            None => None,
                        },
                        priority_worker_threads: match priority_worker_threads {
                            Some(v) => Some(v as usize),
                            None => None,
                        },
                    },
                )
            },
    {
        let workers = match thread_count(worker_threads, AgentKey::WorkerThreads) {
            Ok(w) => w,
            Err(e) => {
                return Err(e);
            },
        };
        let priority = match thread_count(
            priority_worker_threads,
            AgentKey::PriorityWorkerThreads,
        ) {
            Ok(p) => p,
            Err(e) => {
                return Err(e);
            },
        };
        Ok(AgentConfig { worker_threads: workers, priority_worker_threads: priority })
    }
}

/// Largest number of characters of a text that is read as a duration.
pub const MAX_DURATION_TEXT: usize = 12;

/// The duration that `text` denotes in the notation of spans with units,
/// such as `1s`, `500ms` or `2h 37min`, as whole seconds and remaining
/// nanoseconds: what `humantime::parse_duration` makes of it.
pub uninterp spec fn humantime_duration(text: Seq<char>) -> Option<(u64, u32)>;

/// `humantime::parse_duration`, with the duration taken apart into whole
/// seconds and remaining nanoseconds, and `None` where the text is refused.
/// The result depends on the text alone and is given the name
/// `humantime_duration`. The text is kept to 12 characters: the parser
/// ends abruptly where the spans add up to the largest number of seconds
/// that there is, which takes more characters than that.
#[verifier::external_body]
fn humantime_parse(text: &str) -> (r: Option<(u64, u32)>)
    requires
        text@.len() <= MAX_DURATION_TEXT,
    ensures
        r == humantime_duration(text@),
{
    match humantime::parse_duration(text) {
        Ok(d) => Some((d.as_secs(), d.subsec_nanos())),
        Err(_) => None,
    }
}

/// Why a text is not read as a duration.
#[derive(Clone, Copy, Debug, PartialEq, Eq, Structural)]
pub enum DurationError {
    /// The text has more than 12 characters.
    TextTooLong,
    /// The text is not a duration in the notation of spans with units.
    Invalid,
    /// The duration is longer than what can be held.
    DurationTooLong,
}

/// The duration of `parts`, which are whole seconds and remaining
/// nanoseconds, if there are any and the duration can be held.
pub open spec fn duration_of_parts(parts: Option<(u64, u32)>) -> Result<Duration, DurationError> {
    match parts {
        None => Err(DurationError::Invalid),
        Some((secs, nanos)) => if secs * NANOS_PER_SEC + nanos <= u64::MAX {
            Ok(Duration { nanos: (secs * NANOS_PER_SEC + nanos) as u64 })
        } else {
            Err(DurationError::DurationTooLong)
        },
    }
}

/// The duration of `parts`, which are whole seconds and remaining
/// nanoseconds as a parser gave them, or `None` where it refused the text.
pub fn duration_from_parts(parts: Option<(u64, u32)>) -> (r: Result<Duration, DurationError>)
    ensures
        r == duration_of_parts(parts),
{
    match parts {
        None => Err(DurationError::Invalid),
        Some((secs, nanos)) => {
            match secs.checked_mul(NANOS_PER_SEC) {
                None => Err(DurationError::DurationTooLong),
                Some(whole) => match whole.checked_add(nanos as u64) {
                    None => Err(DurationError::DurationTooLong),
                    Some(total) => Ok(Duration { nanos: total }),
                },
            }
        },
    }
}

/// Reads a duration in the notation of spans with units, such as `1s`,
/// `500ms` or `2h 37min`. A text of more than 12 characters is not read.
pub fn parse_duration(text: &str) -> (r: Result<Duration, DurationError>)
    ensures
        r == if text@.len() > MAX_DURATION_TEXT {
            Err::<Duration, DurationError>(DurationError::TextTooLong)
        } else {
            duration_of_parts(humantime_duration(text@))
        },
{
    if text.unicode_len() > MAX_DURATION_TEXT {
        return Err(DurationError::TextTooLong);
    }
    duration_from_parts(humantime_parse(text))
}

} // verus!
