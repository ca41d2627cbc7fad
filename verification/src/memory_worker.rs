//! The memory worker: one command, run or clear, from its configuration to its
//! end.
//!
//! Both commands work on a home directory under two locks, one among the tasks
//! of this process and one among processes. The home is resolved first, and
//! locks, files and database all belong to the resolved home, whatever happens
//! to links afterwards.

use crate::home::{
    canonicalize_memory_config, entry_in, lies_in, memory_home_lock_request, rebased, HomePath,
    LockFileRequest, MemoryHomes, LOCK_FILE_NAME,
};
use crate::report::{object_text, pipeline_report_line, report_members, PipelineReport};
use vstd::prelude::*;

verus! {

/// What the worker is asked to do.
#[derive(Debug, Clone, Copy, PartialEq, Eq)]
pub enum MemoryCommand {
    /// Run the memory pipeline once and print what it did.
    Run,
    /// Clear all memories, in the database and in the home directory.
    Clear,
}

/// What the worker is waiting for.
#[derive(Debug, Clone, PartialEq, Eq)]
pub enum WorkerState {
    ParsingOverrides(MemoryCommand),
    LoadingConfig(MemoryCommand),
    /// The directories are as configured.
    ResolvingHome(MemoryCommand, MemoryHomes),
    /// From here on the directories are the resolved ones.
    AwaitingMutex(MemoryCommand, MemoryHomes),
    AwaitingFileLock(MemoryCommand, MemoryHomes),
    RunningPipeline(MemoryHomes),
    ClearingDatabase(MemoryHomes),
    ClearingRoots(MemoryHomes),
    Printing,
    Stopped,
}

/// What happened outside. A failure that is reported with a text of its own
/// brings that text.
#[derive(Debug, Clone, PartialEq, Eq)]
pub enum WorkerEvent {
    OverridesParsed,
    OverridesRejected(String),
    ConfigLoaded(MemoryHomes),
    ConfigRejected(String),
    HomeResolved(HomePath),
    MutexAcquired,
    FileLocked,
    PipelineFinished(PipelineReport),
    DatabaseCleared,
    RootsCleared,
    LinePrinted,
    /// What was to be done failed.
    Failed,
}

/// What is to be done next. Whatever ends the work under the locks releases
/// them.
#[derive(Debug, Clone, PartialEq, Eq)]
pub enum WorkerAction {
    ParseOverrides,
    LoadConfig,
    /// Create this directory where it is missing, and resolve it.
    ResolveHome(HomePath),
    /// Work in this home from now on, with the database in the second directory
    /// where it moves along, and wait for this process's mutex of this home.
    AcquireMutex(HomePath, Option<HomePath>),
    /// Open this file and wait for its lock.
    LockFile(LockFileRequest),
    RunPipeline(MemoryHomes),
    /// Clear the memories in the database in this directory.
    ClearDatabase(HomePath),
    /// Empty the memory directories in this home.
    ClearRoots(HomePath),
    /// Release the locks and print this line.
    ReleaseAndPrint(String),
    /// Release the locks and end.
    ReleaseAndFinish,
    Finish,
    /// End with this text as the error.
    Fail(String),
    /// End with the error as it came, releasing any locks.
    FailUnchanged,
}

/// Both hold the same directories.
pub open spec fn same_homes(left: MemoryHomes, right: MemoryHomes) -> bool {
    left.codex_home@ == right.codex_home@ && left.sqlite_home@ == right.sqlite_home@
}

/// `request` opens the lock file of `home`, for its owner alone.
pub open spec fn locks_home(request: LockFileRequest, home: Seq<Seq<u8>>) -> bool {
    &&& request.path@ == entry_in(home, LOCK_FILE_NAME@)
    &&& request.read && request.write && request.create
    &&& request.unix_mode == 0o600
}

/// `next` and `action` are what follows `event` in `state`.
pub open spec fn worker_follows(
    state: WorkerState,
    event: WorkerEvent,
    next: WorkerState,
    action: WorkerAction,
) -> bool {
    match (state, event) {
        (WorkerState::ParsingOverrides(command), WorkerEvent::OverridesParsed) => {
            next == WorkerState::LoadingConfig(command) && action == WorkerAction::LoadConfig
        },
        (WorkerState::ParsingOverrides(_), WorkerEvent::OverridesRejected(detail)) => {
            next == WorkerState::Stopped && (action matches WorkerAction::Fail(message)
                && message@ == "error parsing -c overrides: "@ + detail@)
        },
        (WorkerState::LoadingConfig(command), WorkerEvent::ConfigLoaded(homes)) => {
            next == WorkerState::ResolvingHome(command, homes) && (
            action matches WorkerAction::ResolveHome(home) && home@ == homes.codex_home@)
        },
        (WorkerState::LoadingConfig(_), WorkerEvent::ConfigRejected(detail)) => {
            next == WorkerState::Stopped && (action matches WorkerAction::Fail(message)
                && message@ == "error loading config: "@ + detail@)
        },
        (WorkerState::ResolvingHome(command, homes), WorkerEvent::HomeResolved(canonical)) => {
            &&& next matches WorkerState::AwaitingMutex(next_command, resolved)
            &&& next_command == command
            &&& resolved.codex_home@ == canonical@
            &&& resolved.sqlite_home@ == rebased(
                homes.sqlite_home@,
                homes.codex_home@,
                canonical@,
            )
            &&& action matches WorkerAction::AcquireMutex(home, moved)
            &&& home@ == canonical@
            &&& moved is Some == lies_in(homes.sqlite_home@, homes.codex_home@)
            &&& moved matches Some(place) ==> place@ == resolved.sqlite_home@
        },
        (WorkerState::AwaitingMutex(command, homes), WorkerEvent::MutexAcquired) => {
            next == WorkerState::AwaitingFileLock(command, homes) && (
            action matches WorkerAction::LockFile(request) && locks_home(
                request,
                homes.codex_home@,
            ))
        },
        (WorkerState::AwaitingFileLock(MemoryCommand::Run, homes), WorkerEvent::FileLocked) => {
            next == WorkerState::RunningPipeline(homes) && (
            action matches WorkerAction::RunPipeline(worked_on) && same_homes(worked_on, homes))
        },
        (WorkerState::AwaitingFileLock(MemoryCommand::Clear, homes), WorkerEvent::FileLocked) => {
            next == WorkerState::ClearingDatabase(homes) && (
            action matches WorkerAction::ClearDatabase(home) && home@ == homes.sqlite_home@)
        },
        (WorkerState::RunningPipeline(_), WorkerEvent::PipelineFinished(report)) => {
            next == WorkerState::Printing && (action matches WorkerAction::ReleaseAndPrint(line)
                && line@ == object_text(report_members(report)))
        },
        (WorkerState::ClearingDatabase(homes), WorkerEvent::DatabaseCleared) => {
            next == WorkerState::ClearingRoots(homes) && (
            action matches WorkerAction::ClearRoots(home) && home@ == homes.codex_home@)
        },
        (WorkerState::ClearingRoots(_), WorkerEvent::RootsCleared) => {
            next == WorkerState::Stopped && action == WorkerAction::ReleaseAndFinish
        },
        (WorkerState::Printing, WorkerEvent::LinePrinted) => {
            next == WorkerState::Stopped && action == WorkerAction::Finish
        },
        (_, WorkerEvent::Failed) => {
            worker_expects(state, event) && next == WorkerState::Stopped && action
                == WorkerAction::FailUnchanged
        },
        _ => false,
    }
}

/// `event` is one that `state` waits for.
pub open spec fn worker_expects(state: WorkerState, event: WorkerEvent) -> bool {
    match state {
        WorkerState::ParsingOverrides(_) => event is OverridesParsed || event is OverridesRejected,
        WorkerState::LoadingConfig(_) => event is ConfigLoaded || event is ConfigRejected,
        WorkerState::ResolvingHome(..) => event is HomeResolved || event is Failed,
        WorkerState::AwaitingMutex(..) => event is MutexAcquired || event is Failed,
        WorkerState::AwaitingFileLock(..) => event is FileLocked || event is Failed,
        WorkerState::RunningPipeline(_) => event is PipelineFinished || event is Failed,
        WorkerState::ClearingDatabase(_) => event is DatabaseCleared || event is Failed,
        WorkerState::ClearingRoots(_) => event is RootsCleared || event is Failed,
        WorkerState::Printing => event is LinePrinted || event is Failed,
        WorkerState::Stopped => false,
    }
}

/// A copy of a configuration's directories.
fn copy_homes(homes: &MemoryHomes) -> (copy: MemoryHomes)
    ensures
        same_homes(copy, *homes),
{
    MemoryHomes {
        codex_home: homes.codex_home.copied(),
        sqlite_home: homes.sqlite_home.copied(),
    }
}

/// A failure with a labelled text.
fn failure(label: &str, detail: &String) -> (action: WorkerAction)
    ensures
        action matches WorkerAction::Fail(message) && message@ == label@ + detail@,
{
    let mut message = label.to_owned();
    message.append(detail.as_str());
    WorkerAction::Fail(message)
}

/// The first state of a command, and the first thing to do.
pub fn begin_memory_command(command: MemoryCommand) -> (first: (WorkerState, WorkerAction))
    ensures
        first == (WorkerState::ParsingOverrides(command), WorkerAction::ParseOverrides),
{
    (WorkerState::ParsingOverrides(command), WorkerAction::ParseOverrides)
}

/// The state after `event`, and what is to be done then; nothing where `state`
/// does not wait for such an event.
pub fn worker_step(state: WorkerState, event: WorkerEvent) -> (step: Option<
    (WorkerState, WorkerAction),
>)
    ensures
        step is Some == worker_expects(state, event),
        step matches Some((next, action)) ==> worker_follows(state, event, next, action),
{
    match (state, event) {
        (WorkerState::ParsingOverrides(command), WorkerEvent::OverridesParsed) => Some(
            (WorkerState::LoadingConfig(command), WorkerAction::LoadConfig),
        ),
        (WorkerState::ParsingOverrides(_), WorkerEvent::OverridesRejected(detail)) => Some(
            (WorkerState::Stopped, failure("error parsing -c overrides: ", &detail)),
        ),
        (WorkerState::LoadingConfig(command), WorkerEvent::ConfigLoaded(homes)) => {
            let home = homes.codex_home.copied();
            Some((WorkerState::ResolvingHome(command, homes), WorkerAction::ResolveHome(home)))
        },
        (WorkerState::LoadingConfig(_), WorkerEvent::ConfigRejected(detail)) => Some(
            (WorkerState::Stopped, failure("error loading config: ", &detail)),
        ),
        (WorkerState::ResolvingHome(command, homes), WorkerEvent::HomeResolved(canonical)) => {
            let resolved = canonicalize_memory_config(&homes, &canonical);
            let moved = if homes.sqlite_home.starts_with(&homes.codex_home) {
                Some(resolved.sqlite_home.copied())
            } else {
                None
            };
            Some(
                (
                    WorkerState::AwaitingMutex(command, resolved),
                    WorkerAction::AcquireMutex(canonical, moved),
                ),
            )
        },
        (WorkerState::AwaitingMutex(command, homes), WorkerEvent::MutexAcquired) => {
            let request = memory_home_lock_request(&homes.codex_home);
            Some((WorkerState::AwaitingFileLock(command, homes), WorkerAction::LockFile(request)))
        },
        (WorkerState::AwaitingFileLock(command, homes), WorkerEvent::FileLocked) => {
            match command {
                MemoryCommand::Run => {
                    let copy = copy_homes(&homes);
                    Some((WorkerState::RunningPipeline(homes), WorkerAction::RunPipeline(copy)))
                },
                MemoryCommand::Clear => {
                    let home = homes.sqlite_home.copied();
                    Some((WorkerState::ClearingDatabase(homes), WorkerAction::ClearDatabase(home)))
                },
            }
        },
        (WorkerState::RunningPipeline(_), WorkerEvent::PipelineFinished(report)) => Some(
            (
                WorkerState::Printing,
                WorkerAction::ReleaseAndPrint(pipeline_report_line(&report)),
            ),
        ),
        (WorkerState::ClearingDatabase(homes), WorkerEvent::DatabaseCleared) => {
            let home = homes.codex_home.copied();
            Some((WorkerState::ClearingRoots(homes), WorkerAction::ClearRoots(home)))
        },
        (WorkerState::ClearingRoots(_), WorkerEvent::RootsCleared) => Some(
            (WorkerState::Stopped, WorkerAction::ReleaseAndFinish),
        ),
        (WorkerState::Printing, WorkerEvent::LinePrinted) => Some(
            (WorkerState::Stopped, WorkerAction::Finish),
        ),
        (WorkerState::ParsingOverrides(_), WorkerEvent::Failed) => None,
        (WorkerState::LoadingConfig(_), WorkerEvent::Failed) => None,
        (WorkerState::Stopped, WorkerEvent::Failed) => None,
        (_, WorkerEvent::Failed) => Some((WorkerState::Stopped, WorkerAction::FailUnchanged)),
        _ => None,
    }
}

} // verus!
