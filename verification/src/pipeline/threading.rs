//! The two schedulers of the pipeline and the priority of their threads:
//! which priority a worker asks for, what a failure to get it means, and
//! where the polls of a source run.

use vstd::prelude::*;
use vstd::string::*;
use crate::pipeline::elements::SourceClass;
use crate::text::{decimal, u64_to_string};

verus! {

/// Priority that a worker of the priority scheduler asks for on Linux.
pub const LINUX_FIFO_PRIORITY: i32 = 55;

/// The share of the largest priority that a worker asks for where the
/// system gives a range, in hundredths.
pub const PRIORITY_PERCENT: i32 = 55;

/// The operating system that the agent runs on.
#[derive(Clone, Copy, Debug, PartialEq, Eq, Structural)]
pub enum Platform {
    Linux,
    MacOs,
    Other,
}

/// The kind of an error of the operating system.
#[derive(Clone, Copy, Debug, PartialEq, Eq, Structural)]
pub enum OsErrorKind {
    PermissionDenied,
    NotFound,
    InvalidInput,
    Unsupported,
    Other,
}

/// What a thread asks of the operating system to raise its priority.
#[derive(Clone, Copy, Debug, PartialEq, Eq, Structural)]
pub enum PriorityRequest {
    /// First-in-first-out scheduling for the calling thread, by way of the
    /// scheduler of the process.
    ProcessFifo { priority: i32 },
    /// First-in-first-out scheduling for the calling thread, by way of the
    /// thread itself.
    ThreadFifo { priority: i32 },
}

/// 55 hundredths of `max`, rounded towards zero.
pub open spec fn share_of(max: int) -> int {
    if max >= 0 {
        (max * 55) / 100
    } else {
        -((-max * 55) / 100)
    }
}

/// `value`, or the nearest bound if it is outside of `min..=max`.
pub open spec fn clamped(value: int, min: int, max: int) -> int {
    if value < min {
        min
    } else if value > max {
        max
    } else {
        value
    }
}

/// The priority that a worker asks for where the system allows the
/// priorities from `min` to `max`: 55 hundredths of the largest, kept within
/// the range.
pub fn fifo_priority(min: i32, max: i32) -> (p: i32)
    requires
        min <= max,
    ensures
        p == clamped(share_of(max as int), min as int, max as int),
        min <= p <= max,
{
    let wide: i64 = max as i64;
    let share: i64 = if wide >= 0 {
        (wide * 55) / 100
    } else {
        -((-wide * 55) / 100)
    };
    if share < min as i64 {
        min
    } else if share > max as i64 {
        max
    } else {
        share as i32
    }
}

/// What a thread asks of the operating system to raise its priority. On
/// Linux it is the fixed priority 55. On macOS it is 55 hundredths of the
/// largest priority, kept within the range `limits` that the system allows.
/// Elsewhere a thread cannot raise its priority.
pub fn priority_request(platform: Platform, limits: (i32, i32)) -> (r: Result<
    PriorityRequest,
    OsErrorKind,
>)
    requires
        platform == Platform::MacOs ==> limits.0 <= limits.1,
    ensures
        r == match platform {
            Platform::Linux => Ok::<PriorityRequest, OsErrorKind>(
                PriorityRequest::ProcessFifo { priority: LINUX_FIFO_PRIORITY },
            ),
            Platform::MacOs => Ok(
                PriorityRequest::ThreadFifo {
                    priority: clamped(
                        share_of(limits.1 as int),
                        limits.0 as int,
                        limits.1 as int,
                    ) as i32,
                },
            ),
            Platform::Other => Err(OsErrorKind::Unsupported),
        },
{
    match platform {
        Platform::Linux => Ok(PriorityRequest::ProcessFifo { priority: LINUX_FIFO_PRIORITY }),
        Platform::MacOs => Ok(
            PriorityRequest::ThreadFifo { priority: fifo_priority(limits.0, limits.1) },
        ),
        Platform::Other => Err(OsErrorKind::Unsupported),
    }
}

/// Whether the request was granted: the system call that makes it answers
/// with a number below zero if it was not, and `error` is then the kind of
/// the error of the system.
pub fn elevation_result(status: i32, error: OsErrorKind) -> (r: Result<(), OsErrorKind>)
    ensures
        r == if status < 0 {
            Err::<(), OsErrorKind>(error)
        } else {
            Ok(())
        },
{
    if status < 0 {
        Err(error)
    } else {
        Ok(())
    }
}

/// One of the two schedulers.
#[derive(Clone, Copy, Debug, PartialEq, Eq, Structural)]
pub enum SchedulerKind {
    Normal,
    Priority,
}

/// The name of the worker thread number `id` of a scheduler:
/// `normal-worker-` or `priority-worker-`, and the number.
pub open spec fn worker_name(kind: SchedulerKind, id: nat) -> Seq<char> {
    match kind {
        SchedulerKind::Normal => "normal-worker-"@ + decimal(id),
        SchedulerKind::Priority => "priority-worker-"@ + decimal(id),
    }
}

/// The name of the worker thread number `id` of a scheduler.
pub fn worker_thread_name(kind: SchedulerKind, id: u64) -> (name: String)
    ensures
        name@ == worker_name(kind, id as nat),
{
    let mut name = match kind {
        SchedulerKind::Normal => String::from_str("normal-worker-"),
        SchedulerKind::Priority => String::from_str("priority-worker-"),
    };
    let number = u64_to_string(id);
    name.append(number.as_str());
    name
}

/// The first failure of a worker thread to raise its priority. Once a
/// failure is recorded, later ones do not replace it.
#[derive(Clone, Copy, Debug, PartialEq, Eq, Structural)]
pub struct ThreadStartFailure {
    pub first: Option<OsErrorKind>,
}

impl ThreadStartFailure {
    /// A record without a failure.
    pub fn new() -> (f: ThreadStartFailure)
        ensures
            f.first is None,
    {
        ThreadStartFailure { first: None }
    }

    /// Records the failure `error` of a worker thread, unless one is
    /// recorded already. Says whether this failure is the first, which is
    /// the one to report with a hint.
    pub fn record(&mut self, error: OsErrorKind) -> (is_first: bool)
        ensures
            is_first == old(self).first is None,
            final(self).first == match old(self).first {
                Some(earlier) => Some(earlier),
                None => Some(error),
            },
    {
        match self.first {
            Some(_) => false,
            None => {
                self.first = Some(error);
                true
            },
        }
    }

    /// Takes the recorded failure out of the record.
    pub fn take(&mut self) -> (error: Option<OsErrorKind>)
        ensures
            error == old(self).first,
            final(self).first is None,
    {
        let error = self.first;
        self.first = None;
        error
    }
}

/// Why a scheduler could not be made.
#[derive(Clone, Copy, Debug, PartialEq, Eq, Structural)]
pub struct SchedulerConstructionFailed {
    pub os_error_kind: OsErrorKind,
}

/// Whether the priority scheduler can be used. `build` is what its
/// construction answered; `failure` holds what its threads recorded by the
/// end of a first small task. A construction that failed is an error and
/// leaves the record alone. A construction that succeeded counts only if no
/// thread recorded a failure: a recorded failure is the error, and is taken
/// out of the record.
pub fn conclude_priority_runtime(
    build: Result<(), OsErrorKind>,
    failure: &mut ThreadStartFailure,
) -> (r: Result<(), SchedulerConstructionFailed>)
    ensures
        r == match build {
            Err(kind) => Err::<(), SchedulerConstructionFailed>(
                SchedulerConstructionFailed { os_error_kind: kind },
            ),
            Ok(_) => match old(failure).first {
                Some(kind) => Err(SchedulerConstructionFailed { os_error_kind: kind }),
                None => Ok(()),
            },
        },
        build is Err ==> *final(failure) == *old(failure),
        build is Ok ==> final(failure).first is None,
{
    match build {
        Err(kind) => Err(SchedulerConstructionFailed { os_error_kind: kind }),
        Ok(_) => match failure.take() {
            Some(kind) => Err(SchedulerConstructionFailed { os_error_kind: kind }),
            None => Ok(()),
        },
    }
}

/// The path of the agent to show in a hint: the resolved path if there is
/// one, a placeholder otherwise.
pub open spec fn shown_path(app_path: Option<Seq<char>>) -> Seq<char> {
    match app_path {
        Some(path) => path,
        None => "path/to/agent"@,
    }
}

/// What to tell the user after a thread failed to raise its priority with
/// an error of kind `kind`.
pub open spec fn failure_hint(kind: OsErrorKind, app_path: Option<Seq<char>>) -> Seq<char> {
    if kind == OsErrorKind::PermissionDenied {
        "This is probably caused by insufficient privileges.\n\nTo fix this, you have two possibilities:\n1. Grant the SYS_NICE capability to the agent binary.\n     sudo setcap cap_sys_nice+ep \""@
            + shown_path(app_path)
            + "\"\n\n   Note: to grant multiple capabilities to the binary, you must put all the capabilities in the same command.\n     sudo setcap \"cap_sys_nice+ep cap_perfmon=ep\" \""@
            + shown_path(app_path) + "\"\n\n2. Run the agent as root (not recommended).\n"@
    } else {
        "This does not seem to be caused by insufficient privileges. Please report an issue on the GitHub repository."@
    }
}

/// What to tell the user after a thread failed to raise its priority with
/// an error of kind `kind`. For a lack of permission the hint says how to
/// grant the capability to the binary of the agent, whose resolved path is
/// `app_path`, or to run as root. Any other error is for the developers.
pub fn priority_failure_hint(kind: OsErrorKind, app_path: Option<&str>) -> (hint: String)
    ensures
        hint@ == failure_hint(
            kind,
            match app_path {
                Some(p) => Some(p@),
                None => None,
            },
        ),
{
    match kind {
        OsErrorKind::PermissionDenied => {
            let path = match app_path {
                Some(p) => p,
                None => "path/to/agent",
            };
            let mut hint = String::from_str(
                "This is probably caused by insufficient privileges.\n\nTo fix this, you have two possibilities:\n1. Grant the SYS_NICE capability to the agent binary.\n     sudo setcap cap_sys_nice+ep \"",
            );
            hint.append(path);
            hint.append(
                "\"\n\n   Note: to grant multiple capabilities to the binary, you must put all the capabilities in the same command.\n     sudo setcap \"cap_sys_nice+ep cap_perfmon=ep\" \"",
            );
            hint.append(path);
            hint.append("\"\n\n2. Run the agent as root (not recommended).\n");
            hint
        },
        _ => String::from_str(
            "This does not seem to be caused by insufficient privileges. Please report an issue on the GitHub repository.",
        ),
    }
}

/// What is known of the priority scheduler.
#[derive(Clone, Copy, Debug, PartialEq, Eq, Structural)]
pub enum PriorityScheduler {
    /// No source has asked for it yet, so it has not been made.
    NotBuilt,
    /// It runs.
    Ready,
    /// It could not be made.
    Failed(SchedulerConstructionFailed),
}

/// Where the polls of a source run.
#[derive(Clone, Copy, Debug, PartialEq, Eq, Structural)]
pub struct Placement {
    pub scheduler: SchedulerKind,
    /// Whether the polls run on the pool of blocking workers.
    pub blocking: bool,
    /// Whether the source asked for the priority scheduler and runs
    /// without it.
    pub degraded: bool,
}

/// What the pipeline does for a source of class `class`.
#[derive(Clone, Copy, Debug, PartialEq, Eq, Structural)]
pub enum Routing {
    /// The polls run where the placement says.
    Run(Placement),
    /// The priority scheduler has to be made first.
    BuildPriorityScheduler,
}

/// Where the polls of a source of class `class` run, given what is known
/// of the priority scheduler.
pub open spec fn routing(class: SourceClass, priority: PriorityScheduler) -> Routing {
    match class {
        SourceClass::Normal => Routing::Run(
            Placement { scheduler: SchedulerKind::Normal, blocking: false, degraded: false },
        ),
        SourceClass::Blocking => Routing::Run(
            Placement { scheduler: SchedulerKind::Normal, blocking: true, degraded: false },
        ),
        SourceClass::Priority => match priority {
            PriorityScheduler::NotBuilt => Routing::BuildPriorityScheduler,
            PriorityScheduler::Ready => Routing::Run(
                Placement { scheduler: SchedulerKind::Priority, blocking: false, degraded: false },
            ),
            PriorityScheduler::Failed(_) => Routing::Run(
                Placement { scheduler: SchedulerKind::Normal, blocking: false, degraded: true },
            ),
        },
    }
}

/// Where the polls of a source of class `class` run. Normal and blocking
/// sources run on the normal scheduler, the blocking ones on its pool of
/// blocking workers. A priority source runs on the priority scheduler, which
/// is made when the first such source asks for it. If that scheduler could
/// not be made, the source runs on the normal scheduler and is marked as
/// degraded: it is never left without a place.
pub fn route(class: SourceClass, priority: PriorityScheduler) -> (r: Routing)
    ensures
        r == routing(class, priority),
{
    match class {
        SourceClass::Normal => Routing::Run(
            Placement { scheduler: SchedulerKind::Normal, blocking: false, degraded: false },
        ),
        SourceClass::Blocking => Routing::Run(
            Placement { scheduler: SchedulerKind::Normal, blocking: true, degraded: false },
        ),
        SourceClass::Priority => match priority {
            PriorityScheduler::NotBuilt => Routing::BuildPriorityScheduler,
            PriorityScheduler::Ready => Routing::Run(
                Placement { scheduler: SchedulerKind::Priority, blocking: false, degraded: false },
            ),
            PriorityScheduler::Failed(_) => Routing::Run(
                Placement { scheduler: SchedulerKind::Normal, blocking: false, degraded: true },
            ),
        },
    }
}

/// What is known of the priority scheduler after its construction ended
/// with `outcome`.
pub fn after_construction(outcome: Result<(), SchedulerConstructionFailed>) -> (p:
    PriorityScheduler)
    ensures
        p == match outcome {
            Ok(_) => PriorityScheduler::Ready,
            Err(e) => PriorityScheduler::Failed(e),
        },
{
    match outcome {
        Ok(_) => PriorityScheduler::Ready,
        Err(e) => PriorityScheduler::Failed(e),
    }
}

/// Once the construction of the priority scheduler has ended, well or not,
/// every source has a place to run: a failure takes no source out of the
/// pipeline. A priority source runs degraded exactly if the construction
/// failed.
pub proof fn lemma_priority_fallback(
    class: SourceClass,
    outcome: Result<(), SchedulerConstructionFailed>,
)
    ensures
        ({
            let priority = match outcome {
                Ok(_) => PriorityScheduler::Ready,
                Err(e) => PriorityScheduler::Failed(e),
            };
            &&& routing(class, priority) is Run
            &&& routing(class, priority)->Run_0.degraded == (class == SourceClass::Priority
                && outcome is Err)
            &&& outcome is Err ==> routing(class, priority)->Run_0.scheduler
                == SchedulerKind::Normal
        }),
{
}

} // verus!
