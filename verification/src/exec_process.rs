//! Running a command under observation: what to tell the user when the
//! command cannot be started, and what to tell the plugins when it has.

use vstd::prelude::*;
use vstd::string::*;
use crate::paths::{parent, path_parent};
use crate::pipeline::control::{ControlMessage, ControlOutcome, MeasurementPipeline, SourceControl};
use crate::pipeline::elements::Source;
use crate::pipeline::executor::{removed_sources, PollReport};
use crate::pipeline::registry::{surviving, ElementSelector};
use crate::pipeline::threading::OsErrorKind;
use crate::resources::{ResourceConsumer, ResourceConsumerView};
use crate::text::{chars_of, contains_char, decimal, u64_to_string};
use crate::time::Timestamp;
use crate::word_distance::{distance_with_adjacent_transposition, word_distance};

verus! {

/// How much a line of the log matters.
#[derive(Clone, Copy, Debug, PartialEq, Eq, Structural)]
pub enum LogLevel {
    Error,
    Warn,
    Info,
}

/// One line for the log.
#[derive(Debug)]
pub struct LogLine {
    pub level: LogLevel,
    pub text: String,
}

/// Mathematical value of a [`LogLine`].
pub struct LogLineView {
    pub level: LogLevel,
    pub text: Seq<char>,
}

impl View for LogLine {
    type V = LogLineView;

    open spec fn view(&self) -> LogLineView {
        LogLineView { level: self.level, text: self.text@ }
    }
}

/// The lines in `lines`, each as its mathematical value.
pub open spec fn lines_view(lines: Seq<LogLine>) -> Seq<LogLineView> {
    lines.map_values(|l: LogLine| l@)
}

/// What to tell the user about a command that could not be started: the
/// message of the error, and lines for the log.
#[derive(Debug)]
pub struct Diagnosis {
    pub message: String,
    pub logs: Vec<LogLine>,
}

/// The permissions of `required_permissions` that `current_permissions`
/// lacks, among read, write and execute for the user, the group and the
/// others.
pub fn check_missing_permissions(current_permissions: u32, required_permissions: u32) -> (missing:
    u32)
    ensures
        missing == required_permissions & !current_permissions & 0o777,
        missing & current_permissions == 0,
        missing & !required_permissions == 0,
{
    let missing = required_permissions & !current_permissions & 0o777;
    assert((required_permissions & !current_permissions & 0o777) & current_permissions == 0)
        by (bit_vector);
    assert((required_permissions & !current_permissions & 0o777) & !required_permissions == 0)
        by (bit_vector);
    missing
}

/// Where a search for a readable parent folder stands.
#[derive(Debug)]
pub enum ParentSearch {
    /// The caller is to find out whether the metadata of this folder can be
    /// read, and to go on with [`continue_parent_search`].
    Probe(String),
    /// This folder is the nearest one whose metadata can be read.
    Found(String),
    /// No folder was found; the text says why.
    Failed(String),
}

/// Mathematical value of a [`ParentSearch`].
pub enum ParentSearchView {
    Probe(Seq<char>),
    Found(Seq<char>),
    Failed(Seq<char>),
}

impl View for ParentSearch {
    type V = ParentSearchView;

    open spec fn view(&self) -> ParentSearchView {
        match self {
            ParentSearch::Probe(p) => ParentSearchView::Probe(p@),
            ParentSearch::Found(p) => ParentSearchView::Found(p@),
            ParentSearch::Failed(m) => ParentSearchView::Failed(m@),
        }
    }
}

/// The first step of the search, given the parent of the path.
pub fn first_parent_step(parent: Option<String>) -> (r: ParentSearch)
    ensures
        r@ == match parent {
            Some(p) => ParentSearchView::Probe(p@),
            None => ParentSearchView::Failed(""@),
        },
{
    match parent {
        Some(p) => ParentSearch::Probe(p),
        None => ParentSearch::Failed(String::from_str("")),
    }
}

/// The next step of the search after the folder `current` was probed, given
/// the parent of that folder.
pub fn next_parent_step(current: String, has_metadata: bool, parent: Option<String>) -> (r:
    ParentSearch)
    ensures
        r@ == if has_metadata {
            ParentSearchView::Found(current@)
        } else {
            match parent {
                Some(p) => ParentSearchView::Probe(p@),
                None => ParentSearchView::Failed("Unable to retrieve a parent for your file"@),
            }
        },
{
    if has_metadata {
        ParentSearch::Found(current)
    } else {
        match parent {
            Some(p) => ParentSearch::Probe(p),
            None => ParentSearch::Failed(
                String::from_str("Unable to retrieve a parent for your file"),
            ),
        }
    }
}

/// Starts the search for the nearest folder above the file `path` whose
/// metadata can be read: the folder to probe first is the parent of the
/// path. A path without a parent ends the search at once, without a reason.
pub fn find_a_parent_with_perm_issue(path: String) -> (r: ParentSearch)
    ensures
        r@ == match path_parent(path@) {
            Some(p) => ParentSearchView::Probe(p),
            None => ParentSearchView::Failed(""@),
        },
{
    first_parent_step(parent(path.as_str()))
}

/// Goes on with the search after the folder `current` was probed. If its
/// metadata can be read, it is the folder that was looked for. If not, its
/// own parent is probed next; without one the search has failed.
pub fn continue_parent_search(current: String, has_metadata: bool) -> (r: ParentSearch)
    ensures
        r@ == if has_metadata {
            ParentSearchView::Found(current@)
        } else {
            match path_parent(current@) {
                Some(p) => ParentSearchView::Probe(p),
                None => ParentSearchView::Failed("Unable to retrieve a parent for your file"@),
            }
        },
{
    let above = if has_metadata {
        None
    } else {
        parent(current.as_str())
    };
    next_parent_step(current, has_metadata, above)
}

/// What was found out about a command that may not be run.
#[derive(Debug)]
pub enum PermissionFinding {
    /// The file of the command can be opened; `mode` holds its permissions.
    Readable { mode: u32 },
    /// The file cannot be opened. The nearest folder above it whose
    /// metadata can be read is `folder`, with the permissions `mode`.
    Unreadable { folder: String, mode: u32 },
    /// The file cannot be opened and no folder above it was found; `reason`
    /// is what the search said.
    NoParent { reason: String },
}

/// The text `before`, then `middle`, then `after`.
fn surround(before: &str, middle: &str, after: &str) -> (r: String)
    ensures
        r@ == before@ + middle@ + after@,
{
    let mut r = String::from_str(before);
    r.append(middle);
    r.append(after);
    r
}

/// What to tell the user about the command `external_command`, which the
/// system did not allow to run.
pub open spec fn permission_message(command: Seq<char>, finding: PermissionFinding) -> Seq<char> {
    match finding {
        PermissionFinding::Readable { .. } => "Error happened about file's permission"@,
        PermissionFinding::Unreadable { .. } => "Error when trying to read the file: "@ + command,
        PermissionFinding::NoParent { reason } => reason@,
    }
}

/// The lines for the log about the command `external_command`, which the
/// system did not allow to run.
pub open spec fn permission_logs(command: Seq<char>, finding: PermissionFinding) -> Seq<LogLineView> {
    match finding {
        PermissionFinding::Readable { .. } => seq![
            LogLineView {
                level: LogLevel::Error,
                text: "file '"@ + command + "' is missing the following permissions:  'x'"@,
            },
            LogLineView {
                level: LogLevel::Info,
                text: "\u{1f4a1} Hint: try 'chmod +rx "@ + command + "'"@,
            },
        ],
        PermissionFinding::Unreadable { folder, mode } => if (0o555u32 & !mode & 0o777) != 0 {
            seq![
                LogLineView {
                    level: LogLevel::Warn,
                    text: "folder '"@ + folder@ + "' is missing the following permissions:  'rx'"@,
                },
                LogLineView {
                    level: LogLevel::Info,
                    text: "\u{1f4a1} Hint: try 'chmod +rx "@ + folder@ + "'"@,
                },
            ]
        } else {
            Seq::empty()
        },
        PermissionFinding::NoParent { .. } => Seq::empty(),
    }
}

/// Says what is wrong with the command `external_command`, which the system
/// did not allow to run. A file that can be opened lacks the right to be
/// executed. A file that cannot be opened is under a folder that lacks the
/// rights to be read and entered, unless that folder has them all. In both
/// cases the hint is to grant the rights to read and to execute.
pub fn handle_permission_denied(external_command: &str, finding: PermissionFinding) -> (d:
    Diagnosis)
    ensures
        d.message@ == permission_message(external_command@, finding),
        lines_view(d.logs@) == permission_logs(external_command@, finding),
{
    let mut logs: Vec<LogLine> = Vec::new();
    let message = match &finding {
        PermissionFinding::Readable { mode } => {
            let _missing = check_missing_permissions(*mode, 0o505);
            logs.push(
                LogLine {
                    level: LogLevel::Error,
                    text: surround(
                        "file '",
                        external_command,
                        "' is missing the following permissions:  'x'",
                    ),
                },
            );
            logs.push(
                LogLine {
                    level: LogLevel::Info,
                    text: surround("\u{1f4a1} Hint: try 'chmod +rx ", external_command, "'"),
                },
            );
            String::from_str("Error happened about file's permission")
        },
        PermissionFinding::Unreadable { folder, mode } => {
            let missing = check_missing_permissions(*mode, 0o555);
            if missing != 0 {
                logs.push(
                    LogLine {
                        level: LogLevel::Warn,
                        text: surround(
                            "folder '",
                            folder.as_str(),
                            "' is missing the following permissions:  'rx'",
                        ),
                    },
                );
                logs.push(
                    LogLine {
                        level: LogLevel::Info,
                        text: surround("\u{1f4a1} Hint: try 'chmod +rx ", folder.as_str(), "'"),
                    },
                );
            }
            let mut m = String::from_str("Error when trying to read the file: ");
            m.append(external_command);
            m
        },
        PermissionFinding::NoParent { reason } => reason.clone(),
    };
    assert(lines_view(logs@) =~= permission_logs(external_command@, finding));
    Diagnosis { message, logs }
}

/// `command` without a leading `./`.
pub open spec fn without_dot_slash(command: Seq<char>) -> Seq<char> {
    if command.len() >= 2 && command[0] == '.' && command[1] == '/' {
        command.skip(2)
    } else {
        command
    }
}

/// `command` without a leading `./`.
pub fn strip_dot_slash(command: &str) -> (r: String)
    ensures
        r@ == without_dot_slash(command@),
{
    let v = chars_of(command);
    if v.len() >= 2 && v[0] == '.' && v[1] == '/' {
        String::from_str(command.substring_char(2, v.len()))
    } else {
        String::from_str(command)
    }
}

/// The distance between the words `a` and `b`, if their lengths together
/// can be held.
pub open spec fn fitting_distance(a: Seq<char>, b: Seq<char>) -> Option<int> {
    if a.len() + b.len() < usize::MAX {
        Some(word_distance(a, b))
    } else {
        None
    }
}

/// The distance between the words `a` and `b`, if their lengths together
/// can be held.
pub fn checked_distance(a: &str, b: &str) -> (d: Option<usize>)
    ensures
        d is Some == fitting_distance(a@, b@) is Some,
        d matches Some(v) ==> fitting_distance(a@, b@) == Some(v as int),
{
    let n = a.unicode_len();
    let m = b.unicode_len();
    if n < usize::MAX - m {
        Some(distance_with_adjacent_transposition(String::from_str(a), String::from_str(b)))
    } else {
        None
    }
}

/// The file among the first `upto` of `files` whose name is nearest to
/// `word`, with its distance: the first among those at the smallest
/// distance, which has to be below 3.
pub open spec fn nearest_file(word: Seq<char>, files: Seq<Seq<char>>, upto: int) -> Option<
    (int, int),
>
    decreases upto,
{
    if upto <= 0 {
        None
    } else {
        let before = nearest_file(word, files, upto - 1);
        if upto > files.len() {
            before
        } else {
            match fitting_distance(word, files[upto - 1]) {
                Some(d) => if d < 3 && (match before {
                    None => true,
                    Some(found) => d < found.1,
                }) {
                    Some((upto - 1, d))
                } else {
                    before
                },
                None => before,
            }
        }
    }
}

/// `arg` as it is written on a command line: between double quotes if it
/// holds a space.
pub open spec fn quoted(arg: Seq<char>) -> Seq<char> {
    if arg.contains(' ') {
        seq!['"'] + arg + seq!['"']
    } else {
        arg
    }
}

/// The first `upto` of `args` as they are written on a command line, with
/// one space between two of them.
pub open spec fn argument_list(args: Seq<Seq<char>>, upto: int) -> Seq<char>
    decreases upto,
{
    if upto <= 0 {
        Seq::empty()
    } else if upto == 1 {
        quoted(args[0])
    } else {
        argument_list(args, upto - 1) + seq![' '] + quoted(args[upto - 1])
    }
}

/// The texts in `texts`, each as the sequence of its characters.
pub open spec fn texts_view(texts: Seq<String>) -> Seq<Seq<char>> {
    texts.map_values(|t: String| t@)
}

/// The arguments as they are written on a command line.
pub fn join_arguments(args: &Vec<String>) -> (r: String)
    ensures
        r@ == argument_list(texts_view(args@), args@.len() as int),
{
    proof {
        reveal_strlit("\"");
        reveal_strlit(" ");
        reveal_strlit("");
    }
    let ghost all = texts_view(args@);
    let mut r = String::from_str("");
    let mut i: usize = 0;
    assert(r@ =~= argument_list(all, 0));
    while i < args.len()
        invariant
            i <= args@.len(),
            all == texts_view(args@),
            r@ == argument_list(all, i as int),
        decreases args@.len() - i,
    {
        let ghost before = r@;
        proof {
            reveal_strlit("\"");
            reveal_strlit(" ");
        }
        if i > 0 {
            r.append(" ");
        }
        let arg = args[i].as_str();
        assert(all[i as int] == arg@);
        if contains_char(arg, ' ') {
            r.append("\"");
            r.append(arg);
            r.append("\"");
            assert(r@ =~= before + (if i > 0 {
                seq![' ']
            } else {
                Seq::empty()
            }) + quoted(arg@));
        } else {
            r.append(arg);
            assert(r@ =~= before + (if i > 0 {
                seq![' ']
            } else {
                Seq::empty()
            }) + quoted(arg@));
        }
        assert(r@ =~= argument_list(all, i + 1));
        i += 1;
    }
    r
}

/// The file of `files` whose name is nearest to `word`, and its distance.
pub fn find_nearest(word: &str, files: &Vec<String>) -> (r: Option<(usize, usize)>)
    ensures
        r is Some == nearest_file(word@, texts_view(files@), files@.len() as int) is Some,
        r matches Some((at, d)) ==> nearest_file(word@, texts_view(files@), files@.len() as int)
            == Some((at as int, d as int)) && at < files@.len() && d < 3,
{
    let ghost all = texts_view(files@);
    let mut best: Option<(usize, usize)> = None;
    let mut i: usize = 0;
    while i < files.len()
        invariant
            i <= files@.len(),
            all == texts_view(files@),
            best is Some == nearest_file(word@, all, i as int) is Some,
            best matches Some((at, d)) ==> nearest_file(word@, all, i as int) == Some(
                (at as int, d as int),
            ) && at < i && d < 3,
        decreases files@.len() - i,
    {
        assert(all[i as int] == files@[i as int]@);
        match checked_distance(word, files[i].as_str()) {
            Some(d) => {
                let better = match best {
                    Some((_, lowest)) => d < lowest,
                    None => true,
                };
                if d < 3 && better {
                    best = Some((i, d));
                }
            },
            None => {},
        }
        i += 1;
    }
    best
}

/// The lines of the hint for a command that was not found, where the
/// nearest file is `element` at the distance `distance`.
pub open spec fn suggestion_lines(
    element: Seq<char>,
    distance: int,
    arguments: Seq<char>,
    app_path: Seq<char>,
) -> Seq<LogLineView> {
    if distance == 0 {
        seq![
            LogLineView {
                level: LogLevel::Info,
                text: "\u{1f4a1} Hint: A file named '"@ + element
                    + "' exists in the current directory. Prepend ./ to execute it."@,
            },
            LogLineView {
                level: LogLevel::Info,
                text: "Example: "@ + app_path + " exec ./"@ + element + " "@ + arguments,
            },
        ]
    } else {
        seq![
            LogLineView {
                level: LogLevel::Info,
                text: "\u{1f4a1} Hint: Did you mean ./"@ + element + " "@ + arguments,
            },
        ]
    }
}

/// The lines for the log about the command `command`, which was not found,
/// where `files` are the names of the files of the current folder.
pub open spec fn not_found_logs(
    command: Seq<char>,
    args: Seq<Seq<char>>,
    files: Seq<Seq<char>>,
    app_path: Option<Seq<char>>,
) -> Seq<LogLineView> {
    let first = LogLineView {
        level: LogLevel::Error,
        text: "Command '"@ + command + "' not found"@,
    };
    match nearest_file(without_dot_slash(command), files, files.len() as int) {
        Some((at, distance)) => seq![first] + suggestion_lines(
            files[at],
            distance,
            argument_list(args, args.len() as int),
            match app_path {
                Some(p) => p,
                None => "path/to/agent"@,
            },
        ),
        None => seq![
            first,
            LogLineView {
                level: LogLevel::Warn,
                text: "\u{1f4a1} Hint: No matching file exists in the current directory. Please try again we a different one."@,
            },
        ],
    }
}

/// Says what to do about the command `external_command`, which was not
/// found. `files` are the names of the files of the current folder, and
/// `app_path` is the resolved path of the agent. If a file has a name like
/// the command, at a distance below 3, the hint names the nearest one: a
/// file of exactly that name only needs `./` before it; any other may be
/// what was meant. Without such a file the hint says so.
pub fn handle_not_found(
    external_command: &str,
    args: &Vec<String>,
    files: &Vec<String>,
    app_path: Option<&str>,
) -> (d: Diagnosis)
    ensures
        d.message@ == "Sorry but the file was not found"@,
        lines_view(d.logs@) == not_found_logs(
            external_command@,
            texts_view(args@),
            texts_view(files@),
            match app_path {
                Some(p) => Some(p@),
                None => None,
            },
        ),
{
    let mut logs: Vec<LogLine> = Vec::new();
    logs.push(
        LogLine { level: LogLevel::Error, text: surround("Command '", external_command, "' not found") },
    );
    let word = strip_dot_slash(external_command);
    match find_nearest(word.as_str(), files) {
        Some((at, distance)) => {
            let element = files[at].as_str();
            assert(texts_view(files@)[at as int] == element@);
            let argument_list = join_arguments(args);
            if distance == 0 {
                let path = match app_path {
                    Some(p) => p,
                    None => "path/to/agent",
                };
                logs.push(
                    LogLine {
                        level: LogLevel::Info,
                        text: surround(
                            "\u{1f4a1} Hint: A file named '",
                            element,
                            "' exists in the current directory. Prepend ./ to execute it.",
                        ),
                    },
                );
                let mut example = surround("Example: ", path, " exec ./");
                example.append(element);
                example.append(" ");
                example.append(argument_list.as_str());
                logs.push(LogLine { level: LogLevel::Info, text: example });
            } else {
                let mut meant = surround("\u{1f4a1} Hint: Did you mean ./", element, " ");
                meant.append(argument_list.as_str());
                logs.push(LogLine { level: LogLevel::Info, text: meant });
            }
        },
        None => {
            logs.push(
                LogLine {
                    level: LogLevel::Warn,
                    text: String::from_str(
                        "\u{1f4a1} Hint: No matching file exists in the current directory. Please try again we a different one.",
                    ),
                },
            );
        },
    }
    assert(lines_view(logs@) =~= not_found_logs(
        external_command@,
        texts_view(args@),
        texts_view(files@),
        match app_path {
            Some(p) => Some(p@),
            None => None,
        },
    ));
    Diagnosis { message: String::from_str("Sorry but the file was not found"), logs }
}

/// Why a command could not be started.
#[derive(Clone, Copy, Debug, PartialEq, Eq, Structural)]
pub enum SpawnFailure {
    /// No such command: see [`handle_not_found`].
    NotFound,
    /// The command may not be run: see [`handle_permission_denied`].
    PermissionDenied,
    /// Anything else; the text is the message of the error.
    Other,
}

/// Message of the error for a command that could not be started for a
/// reason that has no hint.
pub fn child_error_message() -> (m: &'static str)
    ensures
        m@ == "Error in child process"@,
{
    "Error in child process"
}

/// Why a command could not be started, by the kind of the error of the
/// system.
pub fn spawn_failure(kind: OsErrorKind) -> (f: SpawnFailure)
    ensures
        f == match kind {
            OsErrorKind::NotFound => SpawnFailure::NotFound,
            OsErrorKind::PermissionDenied => SpawnFailure::PermissionDenied,
            _ => SpawnFailure::Other,
        },
{
    match kind {
        OsErrorKind::NotFound => SpawnFailure::NotFound,
        OsErrorKind::PermissionDenied => SpawnFailure::PermissionDenied,
        _ => SpawnFailure::Other,
    }
}

/// Tells the plugins that there are consumers to measure.
#[derive(Debug)]
pub struct StartConsumerMeasurement {
    pub consumers: Vec<ResourceConsumer>,
}

/// What follows the start of the command `external_command` as the process
/// `pid`: a line for the log, and the event that tells the plugins to
/// measure the process.
pub fn child_started(external_command: &str, pid: u32) -> (r: (LogLine, StartConsumerMeasurement))
    ensures
        r.0@ == (LogLineView {
            level: LogLevel::Info,
            text: "Child process '"@ + external_command@ + "' spawned with pid "@ + decimal(
                pid as nat,
            ) + "."@,
        }),
        r.1.consumers@.len() == 1,
        r.1.consumers@[0]@ == (ResourceConsumerView::Process { pid }),
{
    let mut text = surround("Child process '", external_command, "' spawned with pid ");
    let number = u64_to_string(pid as u64);
    text.append(number.as_str());
    text.append(".");
    let mut consumers: Vec<ResourceConsumer> = Vec::new();
    consumers.push(ResourceConsumer::Process { pid });
    (LogLine { level: LogLevel::Info, text }, StartConsumerMeasurement { consumers })
}

/// Smallest exit code of the agent for an error of its own start.
pub const STARTUP_ERROR_EXIT_CODE: i32 = 64;

/// How a run of the agent ended.
#[derive(Clone, Copy, Debug, PartialEq, Eq, Structural)]
pub enum AgentOutcome {
    /// The pipeline was shut down in order.
    CleanShutdown,
    /// The observed command ended with this exit code.
    ChildExited { code: i32 },
    /// The agent could not start.
    StartupFailed,
}

/// The exit code of the agent: 0 after a shutdown in order, the exit code
/// of the observed command if there was one, and 64 if the agent could not
/// start.
pub fn exit_code(outcome: AgentOutcome) -> (code: i32)
    ensures
        code == match outcome {
            AgentOutcome::CleanShutdown => 0,
            AgentOutcome::ChildExited { code } => code,
            AgentOutcome::StartupFailed => STARTUP_ERROR_EXIT_CODE,
        },
{
    match outcome {
        AgentOutcome::CleanShutdown => 0,
        AgentOutcome::ChildExited { code } => code,
        AgentOutcome::StartupFailed => STARTUP_ERROR_EXIT_CODE,
    }
}

/// Why a measurement could not be triggered.
#[derive(Clone, Copy, Debug, PartialEq, Eq, Structural)]
pub enum TriggerError {
    /// The pipeline is stopping and takes no message.
    PipelineStopped,
}

/// Triggers one measurement, now, on all the sources of the pipeline. Every
/// source is polled once with `now` as the logical time; the report says
/// what each answered. A pipeline that is stopping polls nothing.
pub fn trigger_measurement_now<S: Source, T, O>(
    pipeline: &mut MeasurementPipeline<S, T, O>,
    now: Timestamp,
) -> (r: Result<PollReport, TriggerError>)
    ensures
        r is Ok == old(pipeline).state is Running,
        r is Err ==> *final(pipeline) == *old(pipeline),
        r matches Ok(report) ==> {
            &&& report.records@.len() == old(pipeline).sources@.len()
            &&& forall|k: int|
                0 <= k < report.records@.len() ==> (#[trigger] report.records@[k]).id == old(
                    pipeline,
                ).sources@[k].id && report.records@[k].timestamp == now
            &&& final(pipeline).sources@ == surviving(
                old(pipeline).sources@,
                removed_sources(report.records@),
            )
            &&& final(pipeline).state == old(pipeline).state
        },
{
    let count = pipeline.sources.len();
    proof {
        lemma_all_selected(old(pipeline).sources@, count as int);
    }
    let message = ControlMessage::Source(
        SourceControl::TriggerManually { selector: ElementSelector::all() },
    );
    match pipeline.apply(message, now) {
        ControlOutcome::Triggered(report) => Ok(report),
        _ => Err(TriggerError::PipelineStopped),
    }
}

/// The selector that chooses every element chooses every position.
pub proof fn lemma_all_selected<M>(
    entries: Seq<crate::pipeline::registry::EntryView<M>>,
    upto: int,
)
    requires
        0 <= upto <= entries.len() <= usize::MAX,
    ensures
        crate::pipeline::registry::selected_positions(
            entries,
            crate::pipeline::registry::SelectorView::All,
            upto,
        ) == Seq::new(upto as nat, |k: int| k as usize),
    decreases upto,
{
    if upto > 0 {
        lemma_all_selected(entries, upto - 1);
    }
    assert(crate::pipeline::registry::selected_positions(
        entries,
        crate::pipeline::registry::SelectorView::All,
        upto,
    ) =~= Seq::new(upto as nat, |k: int| k as usize));
}

} // verus!
